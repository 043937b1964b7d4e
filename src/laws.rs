//! What holds of every run of the reporter, whatever the channel does.
use vstd::prelude::*;
use crate::line::{concat, lemma_pieces_make_line, report_line, report_pieces};
use crate::reporter::{Action, Outcome, PIECE_COUNT, Phase, action_at, delivered, phase_at};

verus! {

/// Once the reporter is past reporting, it never goes back: every later
/// phase is the breakpoint or the idle loop, and only the idle loop after
/// the first step.
proof fn lemma_stays_down(outs: Seq<Outcome>, n: nat, i: nat, j: nat)
    requires
        i <= j,
        phase_at(outs, n, i) == Phase::Trapping || phase_at(outs, n, i) == Phase::Halted,
    ensures
        phase_at(outs, n, j) == Phase::Trapping || phase_at(outs, n, j) == Phase::Halted,
        i < j ==> phase_at(outs, n, j) == Phase::Halted,
    decreases j - i,
{
    if i < j {
        lemma_stays_down(outs, n, i, (j - 1) as nat);
    }
}

/// Where each phase can stand in a run: the start only at step 0, the
/// opening only at step 1, and the write of piece `k` only at step `k + 2`.
proof fn lemma_position(outs: Seq<Outcome>, n: nat, i: nat)
    requires
        n <= usize::MAX,
    ensures
        phase_at(outs, n, i) == Phase::Start <==> i == 0,
        phase_at(outs, n, i) == Phase::Opening <==> i == 1,
        phase_at(outs, n, i) matches Phase::Writing(k) ==> k + 2 == i && k < n,
    decreases i,
{
    if i > 0 {
        lemma_position(outs, n, (i - 1) as nat);
    }
}

/// Once reporting is over, no further piece is delivered.
proof fn lemma_delivered_after_down(pieces: Seq<Seq<u8>>, outs: Seq<Outcome>, i: nat, j: nat)
    requires
        i <= j,
        phase_at(outs, pieces.len(), i) == Phase::Trapping || phase_at(outs, pieces.len(), i)
            == Phase::Halted,
    ensures
        delivered(pieces, outs, j) == delivered(pieces, outs, i),
    decreases j - i,
{
    if i < j {
        lemma_delivered_after_down(pieces, outs, i, (j - 1) as nat);
        lemma_stays_down(outs, pieces.len(), i, (j - 1) as nat);
    }
}

/// The first two steps disable interrupts and open the channel, and
/// deliver nothing.
proof fn lemma_first_steps(pieces: Seq<Seq<u8>>, outs: Seq<Outcome>)
    ensures
        phase_at(outs, pieces.len(), 0) == Phase::Start,
        phase_at(outs, pieces.len(), 1) == Phase::Opening,
        delivered(pieces, outs, 0) == Seq::<u8>::empty(),
        delivered(pieces, outs, 1) == Seq::<u8>::empty(),
        delivered(pieces, outs, 2) == Seq::<u8>::empty(),
{
    let n = pieces.len();
    assert(phase_at(outs, n, 0) == Phase::Start);
    assert(phase_at(outs, n, 1) == Phase::Opening);
    assert(delivered(pieces, outs, 0) == Seq::<u8>::empty());
    assert(delivered(pieces, outs, 1) == Seq::<u8>::empty());
}

/// With every action completing, step `i` (from 2 up to the last piece)
/// writes piece `i - 2`, and the bytes delivered before it are the earlier
/// pieces in order.
proof fn lemma_all_completed(pieces: Seq<Seq<u8>>, outs: Seq<Outcome>, i: nat)
    requires
        0 < pieces.len() <= usize::MAX,
        2 <= i <= pieces.len() + 2,
        i <= outs.len(),
        forall|j: int| 0 <= j < outs.len() ==> outs[j] == Outcome::Completed,
    ensures
        i < pieces.len() + 2 ==> phase_at(outs, pieces.len(), i) == Phase::Writing(
            (i - 2) as usize,
        ),
        i == pieces.len() + 2 ==> phase_at(outs, pieces.len(), i) == Phase::Trapping,
        delivered(pieces, outs, i) == concat(pieces.take(i - 2)),
    decreases i,
{
    let n = pieces.len();
    if i == 2 {
        lemma_first_steps(pieces, outs);
        assert(pieces.take(0) =~= Seq::<Seq<u8>>::empty());
    } else {
        let m = (i - 1) as nat;
        lemma_all_completed(pieces, outs, m);
        let k = (m - 2) as nat;
        assert(pieces.take(i - 2).drop_last() =~= pieces.take(k as int));
        assert(pieces.take(i - 2).last() == pieces[k as int]);
    }
}

/// While the line is being written, the bytes delivered are the pieces
/// before the current one.
proof fn lemma_delivered_while_writing(pieces: Seq<Seq<u8>>, outs: Seq<Outcome>, i: nat)
    requires
        pieces.len() <= usize::MAX,
    ensures
        phase_at(outs, pieces.len(), i) matches Phase::Writing(k) ==> delivered(pieces, outs, i)
            == concat(pieces.take(k as int)),
    decreases i,
{
    let n = pieces.len();
    if i > 0 {
        if let Phase::Writing(k) = phase_at(outs, n, i) {
            let j = (i - 1) as nat;
            lemma_delivered_while_writing(pieces, outs, j);
            lemma_position(outs, n, j);
            lemma_position(outs, n, i);
            if k == 0 {
                lemma_first_steps(pieces, outs);
                assert(pieces.take(0) =~= Seq::<Seq<u8>>::empty());
            } else {
                assert(phase_at(outs, n, j) == Phase::Writing((k - 1) as usize));
                assert(pieces.take(k as int).drop_last() =~= pieces.take(k - 1));
            }
        }
    }
}

/// The concatenation of the first `k` parts is a prefix of the
/// concatenation of all of them.
proof fn lemma_concat_prefix(parts: Seq<Seq<u8>>, k: int)
    requires
        0 <= k <= parts.len(),
    ensures
        concat(parts.take(k)).len() <= concat(parts).len(),
        concat(parts.take(k)) == concat(parts).subrange(0, concat(parts.take(k)).len() as int),
    decreases parts.len(),
{
    if k == parts.len() {
        assert(parts.take(k) =~= parts);
        assert(concat(parts).subrange(0, concat(parts).len() as int) =~= concat(parts));
    } else {
        let front = parts.drop_last();
        lemma_concat_prefix(front, k);
        assert(front.take(k) =~= parts.take(k));
        assert(concat(parts) == concat(front) + parts.last());
        assert(concat(parts).subrange(0, concat(parts.take(k)).len() as int) =~= concat(front).subrange(
            0,
            concat(parts.take(k)).len() as int,
        ));
    }
}

/// Interrupts go off first: the first action disables them, and no channel
/// action comes before it.
pub proof fn law_interrupts_off_first(
    outs: Seq<Outcome>,
    i: nat,
)
    ensures
        action_at(outs, PIECE_COUNT as nat, 0) == Action::DisableInterrupts,
        action_at(outs, PIECE_COUNT as nat, i) == Action::OpenChannel ==> i > 0,
        action_at(outs, PIECE_COUNT as nat, i) is Write ==> i > 0,
        i > 0 ==> action_at(outs, PIECE_COUNT as nat, i) != Action::DisableInterrupts,
{
    lemma_position(outs, PIECE_COUNT as nat, i);
}

/// When the channel cannot be opened, the next action is the breakpoint, no
/// write is ever attempted and no piece is delivered.
pub proof fn law_no_channel(
    message: Seq<u8>,
    file: Seq<u8>,
    line: nat,
    column: nat,
    outs: Seq<Outcome>,
    i: nat,
)
    requires
        outs.len() > 1,
        outs[1] == Outcome::Failed,
    ensures
        action_at(outs, PIECE_COUNT as nat, 2) == Action::Breakpoint,
        !(action_at(outs, PIECE_COUNT as nat, i) is Write),
        delivered(report_pieces(message, file, line, column), outs, i) == Seq::<u8>::empty(),
{
    let pieces = report_pieces(message, file, line, column);
    let n = pieces.len();
    assert(n == PIECE_COUNT);
    lemma_first_steps(pieces, outs);
    assert(phase_at(outs, n, 2) == Phase::Trapping);
    assert(delivered(pieces, outs, 2) == Seq::<u8>::empty());
    if i >= 2 {
        lemma_stays_down(outs, n, 2, i);
        lemma_delivered_after_down(pieces, outs, 2, i);
    } else if i == 0 {
        assert(phase_at(outs, n, 0) == Phase::Start);
    }
}

/// When a write fails, the next action is the breakpoint: the failed write
/// is not retried, no later write is attempted, and no later piece is
/// delivered. The pieces delivered before the failure are a prefix of the
/// line.
pub proof fn law_write_failure_ends_report(
    message: Seq<u8>,
    file: Seq<u8>,
    line: nat,
    column: nat,
    outs: Seq<Outcome>,
    i: nat,
    j: nat,
)
    requires
        i < outs.len(),
        action_at(outs, PIECE_COUNT as nat, i) is Write,
        outs[i as int] == Outcome::Failed,
        i < j,
    ensures
        action_at(outs, PIECE_COUNT as nat, i + 1) == Action::Breakpoint,
        !(action_at(outs, PIECE_COUNT as nat, j) is Write),
        delivered(report_pieces(message, file, line, column), outs, j) == delivered(
            report_pieces(message, file, line, column),
            outs,
            i,
        ),
        delivered(report_pieces(message, file, line, column), outs, i) == report_line(
            message,
            file,
            line,
            column,
        ).subrange(0, delivered(report_pieces(message, file, line, column), outs, i).len() as int),
{
    let pieces = report_pieces(message, file, line, column);
    let n = pieces.len();
    assert(n == PIECE_COUNT);
    lemma_delivered_while_writing(pieces, outs, i);
    if let Phase::Writing(k) = phase_at(outs, n, i) {
        lemma_concat_prefix(pieces, k as int);
    }
    lemma_pieces_make_line(message, file, line, column);
    assert(phase_at(outs, n, i + 1) == Phase::Trapping);
    assert(delivered(pieces, outs, i + 1) == delivered(pieces, outs, i));
    lemma_stays_down(outs, n, i + 1, j);
    lemma_delivered_after_down(pieces, outs, i + 1, j);
}

/// The reporter never finishes: whatever the outcomes, it fires the
/// breakpoint within the first `PIECE_COUNT + 3` steps and idles at every step
/// after that.
pub proof fn law_always_halts(
    outs: Seq<Outcome>,
)
    ensures
        exists|t: nat|
            t <= PIECE_COUNT + 2 && action_at(outs, PIECE_COUNT as nat, t) == Action::Breakpoint
                && forall|j: nat|
                j > t ==> #[trigger] action_at(outs, PIECE_COUNT as nat, j) == Action::Idle,
{
    let n = PIECE_COUNT as nat;
    let end = n + 2;
    lemma_position(outs, n, end);
    let t = choose_trap_step(outs, n, end);
    assert forall|j: nat| j > t implies #[trigger] action_at(outs, n, j) == Action::Idle by {
        lemma_stays_down(outs, n, t, j);
    }
    assert(action_at(outs, n, t) == Action::Breakpoint);
}

/// The step at which the breakpoint fires, no later than `i` when step `i`
/// is past reporting.
proof fn choose_trap_step(outs: Seq<Outcome>, n: nat, i: nat) -> (t: nat)
    requires
        phase_at(outs, n, i) == Phase::Trapping || phase_at(outs, n, i) == Phase::Halted,
    ensures
        t <= i,
        phase_at(outs, n, t) == Phase::Trapping,
    decreases i,
{
    if phase_at(outs, n, i) == Phase::Trapping {
        i
    } else {
        choose_trap_step(outs, n, (i - 1) as nat)
    }
}

/// When every action completes, the pieces delivered make exactly the
/// diagnostic line, with nothing before or after it.
pub proof fn law_output_format(
    message: Seq<u8>,
    file: Seq<u8>,
    line: nat,
    column: nat,
    outs: Seq<Outcome>,
)
    requires
        outs.len() >= PIECE_COUNT as nat + 2,
        forall|j: int| 0 <= j < outs.len() ==> outs[j] == Outcome::Completed,
    ensures
        delivered(report_pieces(message, file, line, column), outs, outs.len()) == report_line(
            message,
            file,
            line,
            column,
        ),
{
    let pieces = report_pieces(message, file, line, column);
    let n = pieces.len();
    assert(n == PIECE_COUNT);
    lemma_all_completed(pieces, outs, n + 2);
    lemma_delivered_after_down(pieces, outs, n + 2, outs.len());
    assert(pieces.take(n as int) =~= pieces);
    lemma_pieces_make_line(message, file, line, column);
}

/// Reporting the same error twice, each time on a channel that never
/// fails, delivers the same bytes both times.
pub proof fn law_same_output_twice(
    message: Seq<u8>, file: Seq<u8>, line: nat, column: nat,
    outs1: Seq<Outcome>,
    outs2: Seq<Outcome>,
)
    requires
        outs1.len() >= PIECE_COUNT as nat + 2,
        outs2.len() >= PIECE_COUNT as nat + 2,
        forall|j: int| 0 <= j < outs1.len() ==> outs1[j] == Outcome::Completed,
        forall|j: int| 0 <= j < outs2.len() ==> outs2[j] == Outcome::Completed,
    ensures
        delivered(report_pieces(message, file, line, column), outs1, outs1.len()) == delivered(
            report_pieces(message, file, line, column),
            outs2,
            outs2.len(),
        ),
{
    law_output_format(message, file, line, column, outs1);
    law_output_format(message, file, line, column, outs2);
}

} // verus!
