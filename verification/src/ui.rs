//! Pure parts of the terminal interface: the input-line geometry, ANSI
//! escape stripping, and the keystroke state machine that assembles a guess.
//! Everything that touches the terminal itself lives in the surrounding
//! application, which feeds key events in and renders what comes out.

use vstd::prelude::*;
use crate::options::{digit_val, is_digit, Options};

verus! {

/// Relies on String::push: appends one character to the string.
#[verifier::external_body]
fn push_char(s: &mut String, c: char)
    ensures
        final(s)@ == old(s)@.push(c),
{
    s.push(c);
}

/// Geometry and glyphs of the centered input line.
pub struct UI {
    pub input_row: u16,
    pub input_col: u16,
    pub options: Options,
    pub underline_char: char,
    pub placeholder_char: char,
}

/// The text with every ANSI style sequence (an escape, `[`, any characters,
/// then `m`) removed.
pub open spec fn strip_ansi(s: Seq<char>) -> Seq<char>
    decreases s.len(),
{
    if s.len() == 0 {
        Seq::empty()
    } else if s[0] == '\x1b' && s.len() >= 2 && s[1] == '[' {
        strip_ansi_in_escape(s.skip(2))
    } else {
        seq![s[0]] + strip_ansi(s.skip(1))
    }
}

/// Inside an escape sequence: everything up to and including the first `m`
/// is dropped, and stripping resumes after it.
pub open spec fn strip_ansi_in_escape(s: Seq<char>) -> Seq<char>
    decreases s.len(),
{
    if s.len() == 0 {
        Seq::empty()
    } else if s[0] == 'm' {
        strip_ansi(s.skip(1))
    } else {
        strip_ansi_in_escape(s.skip(1))
    }
}

impl UI {
    /// Input geometry for a terminal of the given size: the input line sits
    /// on the middle row, starting half the code length left of the middle
    /// column. Querying the terminal size is the caller's concern; a
    /// terminal narrower than the input line is the caller's to reject.
    pub fn new(options: Options, width: u16, height: u16) -> (r: UI)
        requires
            options.length <= u16::MAX,
            (options.length as u16) / 2 <= width / 2,
        ensures
            r.input_row == height / 2,
            r.input_col == width / 2 - (options.length as u16) / 2,
            r.options == options,
            r.underline_char == '_',
            r.placeholder_char == '-',
    {
        let centered_input_row = height / 2;
        let centered_input_col = (width / 2) - ((options.length as u16) / 2);
        UI {
            input_row: centered_input_row,
            input_col: centered_input_col,
            options,
            underline_char: '_',
            placeholder_char: '-',
        }
    }

    /// Remove ANSI style sequences from styled text.
    pub fn strip_ansi_codes(text: &str) -> (r: String)
        ensures
            r@ == strip_ansi(text@),
    {
        let n = text.unicode_len();
        let mut result = String::new();
        let mut i: usize = 0;
        let mut in_escape: bool = false;
        proof {
            assert(text@.skip(0) =~= text@);
            assert(Seq::<char>::empty() + strip_ansi(text@) =~= strip_ansi(text@));
        }
        while i < n
            invariant
                i <= n,
                n == text@.len(),
                strip_ansi(text@) == result@ + (if in_escape {
                    strip_ansi_in_escape(text@.skip(i as int))
                } else {
                    strip_ansi(text@.skip(i as int))
                }),
            decreases n - i,
        {
            let ghost prev = result@;
            let ghost gi = i as int;
            let c = text.get_char(i);
            if in_escape {
                if c == 'm' {
                    in_escape = false;
                }
                proof {
                    assert(text@.skip(gi).skip(1) =~= text@.skip(gi + 1));
                }
                i = i + 1;
            } else {
                if c == '\x1b' && i + 1 < n && text.get_char(i + 1) == '[' {
                    proof {
                        assert(text@.skip(gi).skip(2) =~= text@.skip(gi + 2));
                    }
                    in_escape = true;
                    i = i + 2;
                } else {
                    push_char(&mut result, c);
                    i = i + 1;
                    proof {
                        assert(text@.skip(gi).skip(1) =~= text@.skip(gi + 1));
                        assert(strip_ansi(text@.skip(gi)) == seq![c] + strip_ansi(
                            text@.skip(gi + 1),
                        ));
                        assert(result@ =~= prev + seq![c]);
                        assert((prev + seq![c]) + strip_ansi(text@.skip(gi + 1)) =~= prev + (seq![c]
                            + strip_ansi(text@.skip(gi + 1))));
                    }
                }
            }
        }
        proof {
            assert(text@.skip(n as int) =~= Seq::<char>::empty());
            assert(result@ + Seq::<char>::empty() =~= result@);
        }
        result
    }
}

/// A key event, as the surrounding application reports it.
#[derive(Debug, Clone, Copy, PartialEq, Eq, Structural)]
pub enum InputKey {
    Char(char),
    Backspace,
    Enter,
    Interrupt,
    Other,
}

/// What the driver is to do after a keystroke.
#[derive(Debug, Clone, Copy, PartialEq, Eq, Structural)]
pub enum InputAction {
    Pending,
    Submit,
    Quit,
}

/// The in-progress entry of one guess: a fixed-width buffer filled left to
/// right with digit characters, the remainder holding a placeholder glyph.
pub struct GuessInput {
    buffer: Vec<char>,
    pos: usize,
    placeholder: char,
}

impl GuessInput {
    pub closed spec fn spec_buffer(&self) -> Seq<char> {
        self.buffer@
    }

    pub closed spec fn spec_pos(&self) -> usize {
        self.pos
    }

    pub closed spec fn spec_placeholder(&self) -> char {
        self.placeholder
    }

    /// The cursor never passes the end, and everything before it is a digit.
    pub open spec fn wf(&self) -> bool {
        &&& self.spec_pos() <= self.spec_buffer().len()
        &&& forall|i: int| 0 <= i < self.spec_pos() ==> is_digit(#[trigger] self.spec_buffer()[i])
    }

    /// An empty entry: `length` placeholder glyphs, cursor at the start.
    pub fn new(length: usize, placeholder: char) -> (r: GuessInput)
        ensures
            r.wf(),
            r.spec_buffer().len() == length,
            forall|i: int| 0 <= i < length ==> r.spec_buffer()[i] == placeholder,
            r.spec_pos() == 0,
            r.spec_placeholder() == placeholder,
    {
        let mut buffer: Vec<char> = Vec::new();
        let mut k: usize = 0;
        while k < length
            invariant
                k <= length,
                buffer@.len() == k,
                forall|i: int| 0 <= i < k ==> buffer@[i] == placeholder,
            decreases length - k,
        {
            buffer.push(placeholder);
            k = k + 1;
        }
        GuessInput { buffer, pos: 0, placeholder }
    }

    /// Advance the entry by one keystroke, as the interactive input loop
    /// does: a digit fills the next free cell, backspace clears the previous
    /// one, enter submits exactly when the entry is full, an interrupt
    /// quits, and every other key changes nothing.
    pub fn step(&mut self, key: InputKey) -> (r: InputAction)
        requires
            old(self).wf(),
        ensures
            final(self).wf(),
            final(self).spec_placeholder() == old(self).spec_placeholder(),
            final(self).spec_buffer().len() == old(self).spec_buffer().len(),
            key matches InputKey::Char(c) ==> {
                &&& (is_digit(c) && old(self).spec_pos() < old(self).spec_buffer().len() ==> {
                    &&& final(self).spec_buffer() == old(self).spec_buffer().update(
                        old(self).spec_pos() as int,
                        c,
                    )
                    &&& final(self).spec_pos() == old(self).spec_pos() + 1
                })
                &&& (!(is_digit(c) && old(self).spec_pos() < old(self).spec_buffer().len()) ==> {
                    &&& final(self).spec_buffer() == old(self).spec_buffer()
                    &&& final(self).spec_pos() == old(self).spec_pos()
                })
                &&& r is Pending
            },
            key is Backspace && old(self).spec_pos() > 0 ==> {
                &&& final(self).spec_pos() == old(self).spec_pos() - 1
                &&& final(self).spec_buffer() == old(self).spec_buffer().update(
                    old(self).spec_pos() - 1,
                    old(self).spec_placeholder(),
                )
                &&& r is Pending
            },
            key is Backspace && old(self).spec_pos() == 0 ==> {
                &&& final(self).spec_buffer() == old(self).spec_buffer()
                &&& final(self).spec_pos() == old(self).spec_pos()
                &&& r is Pending
            },
            key is Enter ==> {
                &&& final(self).spec_buffer() == old(self).spec_buffer()
                &&& final(self).spec_pos() == old(self).spec_pos()
                &&& (r is Submit <==> old(self).spec_pos() == old(self).spec_buffer().len())
                &&& (old(self).spec_pos() != old(self).spec_buffer().len() ==> r is Pending)
            },
            key is Interrupt ==> {
                &&& final(self).spec_buffer() == old(self).spec_buffer()
                &&& final(self).spec_pos() == old(self).spec_pos()
                &&& r is Quit
            },
            key is Other ==> {
                &&& final(self).spec_buffer() == old(self).spec_buffer()
                &&& final(self).spec_pos() == old(self).spec_pos()
                &&& r is Pending
            },
    {
        match key {
            InputKey::Char(c) => {
                let u = c as u32;
                if 48 <= u && u <= 57 && self.pos < self.buffer.len() {
                    let p = self.pos;
                    self.buffer.set(p, c);
                    self.pos = p + 1;
                }
                InputAction::Pending
            },
            InputKey::Backspace => {
                if self.pos > 0 {
                    let p = self.pos - 1;
                    self.pos = p;
                    self.buffer.set(p, self.placeholder);
                }
                InputAction::Pending
            },
            InputKey::Enter => {
                if self.pos == self.buffer.len() {
                    InputAction::Submit
                } else {
                    InputAction::Pending
                }
            },
            InputKey::Interrupt => InputAction::Quit,
            InputKey::Other => InputAction::Pending,
        }
    }

    /// The buffer as shown on screen.
    pub fn buffer(&self) -> (r: &Vec<char>)
        ensures
            r@ == self.spec_buffer(),
    {
        &self.buffer
    }

    /// The completed entry as symbol values, one per digit.
    pub fn digits(&self) -> (r: Vec<u8>)
        requires
            self.wf(),
            self.spec_pos() == self.spec_buffer().len(),
        ensures
            r@.len() == self.spec_buffer().len(),
            forall|i: int| 0 <= i < r@.len() ==> r@[i] == digit_val(self.spec_buffer()[i]),
    {
        let mut out: Vec<u8> = Vec::new();
        let mut k: usize = 0;
        while k < self.buffer.len()
            invariant
                self.wf(),
                self.spec_pos() == self.spec_buffer().len(),
                k <= self.spec_buffer().len(),
                out@.len() == k,
                forall|i: int| 0 <= i < k ==> out@[i] == digit_val(self.spec_buffer()[i]),
            decreases self.spec_buffer().len() - k,
    {
            let c = self.buffer[k];
            let u = c as u32;
            out.push(((u - 48) as u8));
            k = k + 1;
        }
        out
    }
}

} // verus!
