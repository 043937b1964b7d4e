use panic_semihosting::decimal::push_decimal;
use panic_semihosting::line::{location, prefix, separator, PanicLocation, Piece};
use panic_semihosting::reporter::{Action, Outcome, Reporter, PIECE_COUNT};
use panic_semihosting::text::Text;

/// A scripted debug channel: it records every action it is asked to
/// perform, and fails the open or one given write when told to.
struct FakeChannel {
    open_fails: bool,
    failing_write: Option<usize>,
    writes_seen: usize,
    actions: Vec<Action>,
    output: Vec<u8>,
}

impl FakeChannel {
    fn new(open_fails: bool, failing_write: Option<usize>) -> FakeChannel {
        FakeChannel { open_fails, failing_write, writes_seen: 0, actions: Vec::new(), output: Vec::new() }
    }

    fn perform(&mut self, site: &PanicLocation, message: &str, action: Action) -> Outcome {
        self.actions.push(action);
        match action {
            Action::OpenChannel if self.open_fails => Outcome::Failed,
            Action::Write(k) => {
                self.writes_seen += 1;
                if self.failing_write == Some(self.writes_seen) {
                    return Outcome::Failed;
                }
                match site.piece(k) {
                    Piece::Message => self.output.extend_from_slice(message.as_bytes()),
                    Piece::Borrowed(b) => self.output.extend_from_slice(b),
                    Piece::Inline(t) => self.output.extend_from_slice(t.as_bytes()),
                }
                Outcome::Completed
            }
            _ => Outcome::Completed,
        }
    }
}

fn drive_with(message: &str, site: &PanicLocation, channel: &mut FakeChannel, steps: usize) {
    let mut reporter = Reporter::new();
    for _ in 0..steps {
        let action = reporter.action();
        let outcome = channel.perform(site, message, action);
        reporter.advance(outcome);
    }
}

fn drive_foo(channel: &mut FakeChannel, steps: usize) {
    drive_with("FOO", &PanicLocation::new("src/main.rs", 6, 5), channel, steps);
}

fn piece_bytes(piece: Piece, message: &str) -> Vec<u8> {
    match piece {
        Piece::Message => message.as_bytes().to_vec(),
        Piece::Borrowed(b) => b.to_vec(),
        Piece::Inline(t) => t.as_bytes().to_vec(),
    }
}

#[test]
fn render_gives_exact_line() {
    let site = PanicLocation::new("src/main.rs", 6, 5);
    let mut line = Vec::new();
    for k in 0..PIECE_COUNT {
        line.extend(piece_bytes(site.piece(k), "FOO"));
    }
    assert_eq!(line, b"panicked at 'FOO', src/main.rs:6:5\n".to_vec());
}

#[test]
fn render_empty_message_and_file() {
    let mut channel = FakeChannel::new(false, None);
    drive_with("", &PanicLocation::new("", 0, 0), &mut channel, 10);
    assert_eq!(channel.output, b"panicked at '', :0:0\n".to_vec());
}

#[test]
fn render_keeps_quotes_and_utf8() {
    let mut channel = FakeChannel::new(false, None);
    drive_with("it's ü", &PanicLocation::new("a/b.rs", 12, 340), &mut channel, 10);
    assert_eq!(channel.output, "panicked at 'it's ü', a/b.rs:12:340\n".as_bytes().to_vec());
}

#[test]
fn decimal_digits() {
    let cases: [(u32, &str); 6] =
        [(0, "0"), (7, "7"), (10, "10"), (105, "105"), (1234567890, "1234567890"), (u32::MAX, "4294967295")];
    for (n, text) in cases {
        let mut out = Text::empty();
        out.push(b'x');
        push_decimal(&mut out, n);
        let mut expected = vec![b'x'];
        expected.extend_from_slice(text.as_bytes());
        assert_eq!(out.as_bytes(), &expected[..]);
    }
}

#[test]
fn location_largest_values() {
    assert_eq!(location(u32::MAX, u32::MAX).as_bytes(), b":4294967295:4294967295\n");
    assert_eq!(location(6, 5).as_bytes(), b":6:5\n");
}

#[test]
fn fixed_text() {
    assert_eq!(prefix().as_bytes(), b"panicked at '");
    assert_eq!(separator().as_bytes(), b"', ");
    assert!(Text::empty().as_bytes().is_empty());
}

#[test]
fn pieces_in_order() {
    let site = PanicLocation::new("src/main.rs", 6, 5);
    assert!(matches!(site.piece(1), Piece::Message));
    let expected: Vec<Vec<u8>> = vec![
        b"panicked at '".to_vec(),
        b"FOO".to_vec(),
        b"', ".to_vec(),
        b"src/main.rs".to_vec(),
        b":6:5\n".to_vec(),
    ];
    let pieces: Vec<Vec<u8>> = (0..PIECE_COUNT).map(|k| piece_bytes(site.piece(k), "FOO")).collect();
    assert_eq!(pieces, expected);
}

#[test]
fn successful_run_writes_exact_line() {
    let mut channel = FakeChannel::new(false, None);
    drive_foo(&mut channel, 20);
    assert_eq!(channel.output, b"panicked at 'FOO', src/main.rs:6:5\n".to_vec());
    assert_eq!(
        &channel.actions[..9],
        &[
            Action::DisableInterrupts,
            Action::OpenChannel,
            Action::Write(0),
            Action::Write(1),
            Action::Write(2),
            Action::Write(3),
            Action::Write(4),
            Action::Breakpoint,
            Action::Idle,
        ]
    );
}

#[test]
fn failed_open_goes_to_breakpoint() {
    let mut channel = FakeChannel::new(true, None);
    drive_foo(&mut channel, 10);
    assert_eq!(channel.actions[..3], [Action::DisableInterrupts, Action::OpenChannel, Action::Breakpoint]);
    assert_eq!(channel.writes_seen, 0);
    assert!(channel.output.is_empty());
    assert!(channel.actions[3..].iter().all(|a| *a == Action::Idle));
}

#[test]
fn failed_third_write_abandons_rest() {
    let mut channel = FakeChannel::new(false, Some(3));
    drive_foo(&mut channel, 12);
    assert_eq!(channel.writes_seen, 3);
    assert_eq!(channel.output, b"panicked at 'FOO".to_vec());
    assert_eq!(channel.actions[4], Action::Write(2));
    assert_eq!(channel.actions[5], Action::Breakpoint);
    assert!(channel.actions[6..].iter().all(|a| *a == Action::Idle));
}

#[test]
fn failed_first_write_delivers_nothing() {
    let mut channel = FakeChannel::new(false, Some(1));
    drive_foo(&mut channel, 6);
    assert!(channel.output.is_empty());
    assert_eq!(channel.actions[3], Action::Breakpoint);
}

#[test]
fn never_stops_idling() {
    for (open_fails, failing) in [(false, None), (true, None), (false, Some(5))] {
        let mut channel = FakeChannel::new(open_fails, failing);
        drive_with("boom", &PanicLocation::new("lib.rs", 1, 1), &mut channel, 1000);
        let traps = channel.actions.iter().filter(|a| **a == Action::Breakpoint).count();
        assert_eq!(traps, 1);
        let trap_at = channel.actions.iter().position(|a| *a == Action::Breakpoint).unwrap();
        assert!(trap_at <= 7);
        assert!(channel.actions[trap_at + 1..].iter().all(|a| *a == Action::Idle));
    }
}

#[test]
fn same_report_twice_gives_same_bytes() {
    let mut first = FakeChannel::new(false, None);
    let mut second = FakeChannel::new(false, None);
    drive_with("x = 3", &PanicLocation::new("src/lib.rs", 40, 9), &mut first, 10);
    drive_with("x = 3", &PanicLocation::new("src/lib.rs", 40, 9), &mut second, 15);
    assert_eq!(first.output, second.output);
    assert_eq!(first.output, b"panicked at 'x = 3', src/lib.rs:40:9\n".to_vec());
}

#[test]
fn interrupts_off_before_channel() {
    for (open_fails, failing) in [(false, None), (true, None), (false, Some(2))] {
        let mut channel = FakeChannel::new(open_fails, failing);
        drive_foo(&mut channel, 10);
        assert_eq!(channel.actions[0], Action::DisableInterrupts);
        assert!(channel.actions[1..].iter().all(|a| *a != Action::DisableInterrupts));
    }
}

#[test]
fn reporter_starts_with_interrupts() {
    let mut reporter = Reporter::new();
    assert_eq!(reporter.action(), Action::DisableInterrupts);
    reporter.advance(Outcome::Failed);
    assert_eq!(reporter.action(), Action::OpenChannel);
    reporter.advance(Outcome::Completed);
    assert_eq!(reporter.action(), Action::Write(0));
}
