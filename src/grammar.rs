//! The escape grammar as a state machine over characters.
use vstd::prelude::*;
use crate::text::{hex_value, is_hex_digit, is_scalar_value};

verus! {

/// Where the decoder stands between two characters.
#[derive(Clone, Copy, Debug, PartialEq, Eq, Structural)]
pub enum EscapeState {
    /// Outside any escape sequence.
    Normal,
    /// Just after a `\`.
    Escape,
    /// After `\u`, collecting the four hexadecimal digits.
    Unicode,
}

/// Why an escaped string cannot be decoded, with sequences of characters
/// in place of strings.
pub enum Fault {
    InvalidEscapeCharacter(char),
    InvalidHexDigit(Seq<char>, char),
    InvalidCodepoint(Seq<char>),
    UnterminatedEscape,
    UnterminatedUnicodeEscape,
}

/// The decoder's whole state after a prefix of the input: the mode, the
/// hexadecimal digits collected so far, and the output produced so far.
pub struct Scan {
    pub mode: EscapeState,
    pub digits: Seq<char>,
    pub out: Seq<char>,
}

/// The state before the first character.
pub open spec fn start() -> Scan {
    Scan { mode: EscapeState::Normal, digits: Seq::empty(), out: Seq::empty() }
}

/// The character that a one-character escape `\c` stands for.
pub open spec fn simple_escape(c: char) -> Option<char> {
    if c == '\\' || c == '"' || c == '/' {
        Some(c)
    } else if c == 'b' {
        Some('\x08')
    } else if c == 'f' {
        Some('\x0c')
    } else if c == 'n' {
        Some('\n')
    } else if c == 'r' {
        Some('\r')
    } else if c == 't' {
        Some('\t')
    } else {
        None
    }
}

/// One transition of the decoder on the character `c`.
pub open spec fn step(st: Scan, c: char) -> Result<Scan, Fault> {
    match st.mode {
        EscapeState::Normal => if c == '\\' {
            Ok(Scan { mode: EscapeState::Escape, ..st })
        } else {
            Ok(Scan { out: st.out.push(c), ..st })
        },
        EscapeState::Escape => match simple_escape(c) {
            Some(d) => Ok(Scan { mode: EscapeState::Normal, out: st.out.push(d), ..st }),
            None => if c == 'u' {
                Ok(Scan { mode: EscapeState::Unicode, digits: Seq::empty(), ..st })
            } else {
                Err(Fault::InvalidEscapeCharacter(c))
            },
        },
        EscapeState::Unicode => if !is_hex_digit(c) {
            Err(Fault::InvalidHexDigit(st.digits, c))
        } else if st.digits.len() + 1 < 4 {
            Ok(Scan { digits: st.digits.push(c), ..st })
        } else if is_scalar_value(hex_value(st.digits.push(c))) {
            Ok(
                Scan {
                    mode: EscapeState::Normal,
                    digits: Seq::empty(),
                    out: st.out.push((hex_value(st.digits.push(c)) as u32) as char),
                },
            )
        } else {
            Err(Fault::InvalidCodepoint(st.digits.push(c)))
        },
    }
}

/// The decoder's state after reading all of `s`, or the first fault met.
pub open spec fn scan(s: Seq<char>) -> Result<Scan, Fault>
    decreases s.len(),
{
    if s.len() == 0 {
        Ok(start())
    } else {
        match scan(s.drop_last()) {
            Ok(st) => step(st, s.last()),
            Err(f) => Err(f),
        }
    }
}

/// What an escaped string decodes to: its unescaped characters, or the
/// first fault, where running out of input inside an escape is a fault too.
pub open spec fn unescape(s: Seq<char>) -> Result<Seq<char>, Fault> {
    match scan(s) {
        Ok(st) => match st.mode {
            EscapeState::Normal => Ok(st.out),
            EscapeState::Escape => Err(Fault::UnterminatedEscape),
            EscapeState::Unicode => Err(Fault::UnterminatedUnicodeEscape),
        },
        Err(f) => Err(f),
    }
}

/// Once the decoder has met a fault, the characters after it change nothing.
pub proof fn lemma_fault_is_final(s: Seq<char>, i: int)
    requires
        0 <= i <= s.len(),
        scan(s.take(i)) is Err,
    ensures
        scan(s) == scan(s.take(i)),
    decreases s.len() - i,
{
    if i < s.len() {
        assert(s.take(i + 1).drop_last() =~= s.take(i));
        lemma_fault_is_final(s, i + 1);
    } else {
        assert(s.take(i) =~= s);
    }
}

} // verus!
