//! The diagnostic line and the pieces in which it is written.
use vstd::prelude::*;
use crate::decimal::{decimal, lemma_u32_decimal_len, push_decimal};
use crate::text::Text;
use vstd::string::StringSliceAdditionalSpecFns;

verus! {

/// Where a fatal error was raised: the source file, borrowed from the
/// runtime, and the position in it.
pub struct PanicLocation<'a> {
    pub file: &'a [u8],
    pub line: u32,
    pub column: u32,
}

/// How one piece of the line is produced.
pub enum Piece<'a> {
    /// The message: the driver renders the runtime's payload straight onto
    /// the channel.
    Message,
    /// Bytes borrowed from the location (the file).
    Borrowed(&'a [u8]),
    /// Bytes held inline (the fixed text and the position).
    Inline(Text),
}

impl<'a> Piece<'a> {
    /// The bytes of the piece, given the rendered message.
    pub open spec fn bytes(&self, message: Seq<u8>) -> Seq<u8> {
        match *self {
            Piece::Message => message,
            Piece::Borrowed(b) => b@,
            Piece::Inline(t) => t@,
        }
    }
}

/// The bytes of `panicked at '` (ASCII).
pub open spec fn prefix_bytes() -> Seq<u8> {
    seq![112u8, 97u8, 110u8, 105u8, 99u8, 107u8, 101u8, 100u8, 32u8, 97u8, 116u8, 32u8, 39u8]
}

/// The bytes of `', ` (ASCII), between the message and the file.
pub open spec fn separator_bytes() -> Seq<u8> {
    seq![39u8, 44u8, 32u8]
}

/// `:<line>:<column>` followed by a line feed (58 is `:`, 10 is `\n`).
pub open spec fn location_bytes(line: nat, column: nat) -> Seq<u8> {
    seq![58u8] + decimal(line) + seq![58u8] + decimal(column) + seq![10u8]
}

/// The whole diagnostic line:
/// `panicked at '<message>', <file>:<line>:<column>\n`.
pub open spec fn report_line(message: Seq<u8>, file: Seq<u8>, line: nat, column: nat) -> Seq<u8> {
    prefix_bytes() + message + separator_bytes() + file + location_bytes(line, column)
}

/// The line cut into the five writes that produce it, in order.
pub open spec fn report_pieces(message: Seq<u8>, file: Seq<u8>, line: nat, column: nat) -> Seq<
    Seq<u8>,
> {
    seq![prefix_bytes(), message, separator_bytes(), file, location_bytes(line, column)]
}

/// The concatenation of a sequence of byte strings, in order.
pub open spec fn concat(parts: Seq<Seq<u8>>) -> Seq<u8>
    decreases parts.len(),
{
    if parts.len() == 0 {
        Seq::empty()
    } else {
        concat(parts.drop_last()) + parts.last()
    }
}

/// Writing the pieces one after the other produces exactly the line.
pub proof fn lemma_pieces_make_line(message: Seq<u8>, file: Seq<u8>, line: nat, column: nat)
    ensures
        concat(report_pieces(message, file, line, column)) == report_line(
            message,
            file,
            line,
            column,
        ),
{
    let p = report_pieces(message, file, line, column);
    let p4 = p.drop_last();
    let p3 = p4.drop_last();
    let p2 = p3.drop_last();
    let p1 = p2.drop_last();
    assert(p4 =~= seq![prefix_bytes(), message, separator_bytes(), file]);
    assert(p3 =~= seq![prefix_bytes(), message, separator_bytes()]);
    assert(p2 =~= seq![prefix_bytes(), message]);
    assert(p1 =~= seq![prefix_bytes()]);
    assert(p1.drop_last() =~= Seq::<Seq<u8>>::empty());
    assert(concat(p1.drop_last()) == Seq::<u8>::empty());
    assert(p1.last() == prefix_bytes());
    assert(concat(p1) =~= prefix_bytes());
    assert(concat(p2) =~= prefix_bytes() + message);
    assert(concat(p3) =~= prefix_bytes() + message + separator_bytes());
    assert(concat(p4) =~= prefix_bytes() + message + separator_bytes() + file);
    assert(concat(p) =~= report_line(message, file, line, column));
}

impl<'a> PanicLocation<'a> {
    /// The pieces of the line for the rendered message `message`.
    pub open spec fn pieces(&self, message: Seq<u8>) -> Seq<Seq<u8>> {
        report_pieces(message, self.file@, self.line as nat, self.column as nat)
    }

    /// The whole line for the rendered message `message`.
    pub open spec fn line_bytes(&self, message: Seq<u8>) -> Seq<u8> {
        report_line(message, self.file@, self.line as nat, self.column as nat)
    }

    /// The location `file:line:column`.
    pub fn new(file: &'a str, line: u32, column: u32) -> (r: PanicLocation<'a>)
        ensures
            r.file@ == file.spec_bytes(),
            r.line == line,
            r.column == column,
    {
        PanicLocation { file: file.as_bytes(), line, column }
    }

    /// How piece `k` of the line is produced; only the message is left to
    /// the caller.
    pub fn piece(&self, k: usize) -> (r: Piece<'a>)
        requires
            k < 5,
        ensures
            r is Message <==> k == 1,
            r matches Piece::Inline(t) ==> t.wf(),
            forall|m: Seq<u8>| #[trigger] r.bytes(m) == self.pieces(m)[k as int],
    {
        if k == 0 {
            Piece::Inline(prefix())
        } else if k == 1 {
            Piece::Message
        } else if k == 2 {
            Piece::Inline(separator())
        } else if k == 3 {
            Piece::Borrowed(self.file)
        } else {
            Piece::Inline(location(self.line, self.column))
        }
    }
}

/// The bytes of `panicked at '`.
pub fn prefix() -> (r: Text)
    ensures
        r.wf(),
        r@ == prefix_bytes(),
{
    let mut r = Text::empty();
    r.push(112u8);
    r.push(97u8);
    r.push(110u8);
    r.push(105u8);
    r.push(99u8);
    r.push(107u8);
    r.push(101u8);
    r.push(100u8);
    r.push(32u8);
    r.push(97u8);
    r.push(116u8);
    r.push(32u8);
    r.push(39u8);
    proof {
        assert(r@ =~= prefix_bytes());
    }
    r
}

/// The bytes of `', `.
pub fn separator() -> (r: Text)
    ensures
        r.wf(),
        r@ == separator_bytes(),
{
    let mut r = Text::empty();
    r.push(39u8);
    r.push(44u8);
    r.push(32u8);
    proof {
        assert(r@ =~= separator_bytes());
    }
    r
}

/// `:<line>:<column>\n` as bytes.
pub fn location(line: u32, column: u32) -> (r: Text)
    ensures
        r.wf(),
        r@ == location_bytes(line as nat, column as nat),
{
    proof {
        lemma_u32_decimal_len(line);
        lemma_u32_decimal_len(column);
    }
    let mut r = Text::empty();
    r.push(58u8);
    push_decimal(&mut r, line);
    r.push(58u8);
    push_decimal(&mut r, column);
    r.push(10u8);
    proof {
        assert(r@ =~= location_bytes(line as nat, column as nat));
    }
    r
}

} // verus!
