//! The line that the user is typing.

use vstd::prelude::*;

verus! {

/// Size of the input buffer; a line is shorter by at least one byte.
pub const INPUT_CAP: usize = 128;

/// What a byte from the user comes to.
pub enum Key {
    /// The end of a line that holds nothing.
    Blank,
    /// The end of this line.
    Line(Vec<u8>),
    /// The last byte of the line is gone.
    Erased,
    /// This byte was added to the line.
    Typed(u8),
    /// Nothing.
    Ignored,
}

/// `Key` with the line as a sequence.
pub enum KeyView {
    Blank,
    Line(Seq<u8>),
    Erased,
    Typed(u8),
    Ignored,
}

impl View for Key {
    type V = KeyView;

    open spec fn view(&self) -> KeyView {
        match self {
            Key::Blank => KeyView::Blank,
            Key::Line(line) => KeyView::Line(line@),
            Key::Erased => KeyView::Erased,
            Key::Typed(b) => KeyView::Typed(*b),
            Key::Ignored => KeyView::Ignored,
        }
    }
}

/// What byte `b` comes to while `line` is typed, and the line after it. CR and
/// LF end the line, BS and DEL take back its last byte, and any other byte is
/// added while there is room.
pub open spec fn typed(line: Seq<u8>, b: u8) -> (KeyView, Seq<u8>) {
    if b == 13 || b == 10 {
        if line.len() > 0 {
            (KeyView::Line(line), Seq::empty())
        } else {
            (KeyView::Blank, line)
        }
    } else if b == 8 || b == 127 {
        if line.len() > 0 {
            (KeyView::Erased, line.drop_last())
        } else {
            (KeyView::Ignored, line)
        }
    } else if line.len() < INPUT_CAP - 1 {
        (KeyView::Typed(b), line.push(b))
    } else {
        (KeyView::Ignored, line)
    }
}

impl KeyView {
    /// What is sent back to the user's terminal.
    pub open spec fn spec_echo(self) -> Seq<u8> {
        match self {
            KeyView::Blank => seq![13u8, 10u8],
            KeyView::Line(_) => seq![13u8, 10u8],
            KeyView::Erased => seq![8u8, 32u8, 8u8],
            KeyView::Typed(b) => seq![b],
            KeyView::Ignored => Seq::empty(),
        }
    }
}

impl Key {
    pub fn echo(&self) -> (out: Vec<u8>)
        ensures
            out@ == self@.spec_echo(),
    {
        let mut out: Vec<u8> = Vec::new();
        match self {
            Key::Blank => {
                out.push(13);
                out.push(10);
            },
            Key::Line(_) => {
                out.push(13);
                out.push(10);
            },
            Key::Erased => {
                out.push(8);
                out.push(32);
                out.push(8);
            },
            Key::Typed(b) => {
                out.push(*b);
            },
            Key::Ignored => {},
        }
        assert(out@ =~= self@.spec_echo());
        out
    }
}

/// The line that the user is typing. Its view is the bytes typed so far.
pub struct LineEditor {
    input: [u8; INPUT_CAP],
    pos: usize,
}

impl View for LineEditor {
    type V = Seq<u8>;

    closed spec fn view(&self) -> Seq<u8> {
        self.input@.take(self.pos as int)
    }
}

impl LineEditor {
    pub closed spec fn wf(&self) -> bool {
        self.pos < INPUT_CAP
    }

    pub fn new() -> (e: LineEditor)
        ensures
            e.wf(),
            e@ == Seq::<u8>::empty(),
    {
        LineEditor { input: [0u8; INPUT_CAP], pos: 0 }
    }

    /// Takes in one byte from the user.
    pub fn feed(&mut self, b: u8) -> (key: Key)
        requires
            old(self).wf(),
        ensures
            final(self).wf(),
            (key@, final(self)@) == typed(old(self)@, b),
    {
        let ghost line = self@;
        if b == 13 || b == 10 {
            if self.pos > 0 {
                let text: Vec<u8> = vstd::slice::slice_to_vec(
                    vstd::slice::slice_subrange(self.input.as_slice(), 0, self.pos),
                );
                self.pos = 0;
                assert(self@ =~= Seq::<u8>::empty());
                assert(text@ =~= line);
                Key::Line(text)
            } else {
                Key::Blank
            }
        } else if b == 8 || b == 127 {
            if self.pos > 0 {
                self.pos = self.pos - 1;
                assert(self@ =~= line.drop_last());
                Key::Erased
            } else {
                Key::Ignored
            }
        } else if self.pos < INPUT_CAP - 1 {
            self.input[self.pos] = b;
            self.pos = self.pos + 1;
            assert(self@ =~= line.push(b));
            Key::Typed(b)
        } else {
            Key::Ignored
        }
    }
}

/// Taking back a byte undoes typing it.
pub proof fn law_erase_undoes_typing(line: Seq<u8>, b: u8, erase: u8)
    requires
        typed(line, b).0 is Typed,
        erase == 8 || erase == 127,
    ensures
        typed(typed(line, b).1, erase) == (KeyView::Erased, line),
{
    assert(line.push(b).drop_last() =~= line);
}

/// No byte makes a line longer than the buffer allows.
pub proof fn law_line_fits(line: Seq<u8>, b: u8)
    requires
        line.len() < INPUT_CAP,
    ensures
        typed(line, b).1.len() < INPUT_CAP,
{
}

/// The line after `bytes` were typed, one after the other, from `line` on.
pub open spec fn typed_all(line: Seq<u8>, bytes: Seq<u8>) -> Seq<u8>
    decreases bytes.len(),
{
    if bytes.len() == 0 {
        line
    } else {
        typed(typed_all(line, bytes.drop_last()), bytes.last()).1
    }
}

/// A byte that has a place in a line: not CR, LF, BS or DEL.
pub open spec fn plain(b: u8) -> bool {
    b != 13 && b != 10 && b != 8 && b != 127
}

/// What is typed is received: plain bytes, up to 127 of them, come back as the
/// line when CR or LF ends it, and the next line starts empty. The bytes that
/// come after the first 127 are lost.
pub proof fn law_typed_line_is_received(bytes: Seq<u8>, end: u8)
    requires
        forall|i: int| 0 <= i < bytes.len() ==> plain(#[trigger] bytes[i]),
        bytes.len() > 0,
        end == 13 || end == 10,
    ensures
        ({
            let line = typed_all(Seq::empty(), bytes);
            &&& bytes.len() <= 127 ==> line == bytes
            &&& bytes.len() > 127 ==> line == bytes.take(127)
            &&& typed(line, end) == (KeyView::Line(line), Seq::<u8>::empty())
        }),
    decreases bytes.len(),
{
    let before = bytes.drop_last();
    if before.len() == 0 {
        assert(typed_all(Seq::empty(), before) =~= Seq::<u8>::empty());
        assert(Seq::<u8>::empty().push(bytes.last()) =~= bytes);
    } else {
        law_typed_line_is_received(before, end);
        if bytes.len() <= 127 {
            assert(before.push(bytes.last()) =~= bytes);
        } else {
            assert(typed_all(Seq::empty(), before) =~= bytes.take(127));
        }
    }
}

/// What a byte does to a line: an end of line gives out a line that holds
/// something and leaves an empty one alone; an erasing byte takes the last byte
/// off, if there is one; a plain byte comes to the end, if the line holds less
/// than 127.
pub proof fn law_keys(line: Seq<u8>, b: u8)
    requires
        line.len() <= 127,
    ensures
        ({
            let (key, after) = typed(line, b);
            &&& key is Line <==> (b == 13 || b == 10) && line.len() > 0
            &&& key is Blank <==> (b == 13 || b == 10) && line.len() == 0
            &&& key is Erased <==> (b == 8 || b == 127) && line.len() > 0
            &&& key is Typed <==> plain(b) && line.len() < 127
            &&& key is Line ==> key->Line_0 == line && after.len() == 0
            &&& key is Typed ==> key->Typed_0 == b && after == line.push(b)
            &&& key is Erased ==> after == line.take(line.len() - 1)
            &&& key is Blank || key is Ignored ==> after == line
        }),
{
}

/// The terminal shows what was typed, moves to a new line when a line ends, and
/// wipes the last place when a byte is taken back.
pub proof fn law_echo(key: KeyView)
    ensures
        key is Typed ==> key.spec_echo() == seq![key->Typed_0],
        key is Line || key is Blank ==> key.spec_echo() == seq![13u8, 10],
        key is Erased ==> key.spec_echo() == seq![8u8, 32, 8],
        key is Ignored ==> key.spec_echo().len() == 0,
{
}

} // verus!
