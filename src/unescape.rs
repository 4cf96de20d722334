//! The decoder itself.
use vstd::prelude::*;
use vstd::string::StringExecFns;
use crate::grammar::{lemma_fault_is_final, scan, simple_escape, unescape, EscapeState, Fault, Scan};
use crate::laws::{lemma_output_not_longer, lemma_plain_text_unchanged};
use crate::text::{char_from_u32, hex_digit, hex_value, push_char};

verus! {

broadcast use vstd::string::axiom_spec_iter;

/// Why an escaped string cannot be decoded.
#[derive(Clone, Debug, PartialEq, Eq)]
pub enum UnescapeError {
    /// A `\` followed by a character that starts no escape sequence.
    InvalidEscapeCharacter(char),
    /// A `\u` whose digits break off at `found`, which is no hexadecimal digit.
    InvalidHexDigit { digits: String, found: char },
    /// Four hexadecimal digits that denote no Unicode scalar value.
    InvalidCodepoint { digits: String },
    /// The input ends just after a `\`.
    UnterminatedEscape,
    /// The input ends before the four digits of a `\u` are complete.
    UnterminatedUnicodeEscape,
}

impl View for UnescapeError {
    type V = Fault;

    open spec fn view(&self) -> Fault {
        match self {
            UnescapeError::InvalidEscapeCharacter(c) => Fault::InvalidEscapeCharacter(*c),
            UnescapeError::InvalidHexDigit { digits, found } => Fault::InvalidHexDigit(
                digits@,
                *found,
            ),
            UnescapeError::InvalidCodepoint { digits } => Fault::InvalidCodepoint(digits@),
            UnescapeError::UnterminatedEscape => Fault::UnterminatedEscape,
            UnescapeError::UnterminatedUnicodeEscape => Fault::UnterminatedUnicodeEscape,
        }
    }
}

/// The text that describes a fault.
pub open spec fn message_of(f: Fault) -> Seq<char> {
    match f {
        Fault::InvalidEscapeCharacter(c) => "The escape sequence `\\"@ + seq![c] + "` is invalid."@,
        Fault::InvalidHexDigit(digits, c) => "The unicode escape sequence `\\u"@ + digits + seq![c]
            + "` is invalid (`"@ + seq![c] + "` is not a valid hexadecimal character)."@,
        Fault::InvalidCodepoint(digits) => "The unicode escape sequence `\\u"@ + digits
            + "` is invalid (it is not a valid unicode codepoint)."@,
        Fault::UnterminatedEscape => "Reached end of input, expected escape sequence."@,
        Fault::UnterminatedUnicodeEscape => "Reached end of input, expected unicode escape sequence."@,
    }
}

impl UnescapeError {
    /// A sentence that describes the error for a reader, naming the
    /// offending character and the digits where there are any.
    pub fn message(&self) -> (r: String)
        ensures
            r@ == message_of(self@),
    {
        match self {
            UnescapeError::InvalidEscapeCharacter(c) => {
                let mut m = String::from_str("The escape sequence `\\");
                push_char(&mut m, *c);
                m.append("` is invalid.");
                m
            },
            UnescapeError::InvalidHexDigit { digits, found } => {
                let mut m = String::from_str("The unicode escape sequence `\\u");
                m.append(digits.as_str());
                push_char(&mut m, *found);
                m.append("` is invalid (`");
                push_char(&mut m, *found);
                m.append("` is not a valid hexadecimal character).");
                m
            },
            UnescapeError::InvalidCodepoint { digits } => {
                let mut m = String::from_str("The unicode escape sequence `\\u");
                m.append(digits.as_str());
                m.append("` is invalid (it is not a valid unicode codepoint).");
                m
            },
            UnescapeError::UnterminatedEscape => String::from_str(
                "Reached end of input, expected escape sequence.",
            ),
            UnescapeError::UnterminatedUnicodeEscape => String::from_str(
                "Reached end of input, expected unicode escape sequence.",
            ),
        }
    }
}

/// The result of a decoding, with sequences of characters in place of strings.
pub open spec fn outcome(r: Result<String, UnescapeError>) -> Result<Seq<char>, Fault> {
    match r {
        Ok(o) => Ok(o@),
        Err(e) => Err(e@),
    }
}

/// Computes `simple_escape`.
fn simple_escape_char(c: char) -> (r: Option<char>)
    ensures
        r == simple_escape(c),
{
    if c == '\\' || c == '"' || c == '/' {
        Some(c)
    } else if c == 'b' {
        Some('\x08')
    } else if c == 'f' {
        Some('\x0c')
    } else if c == 'n' {
        Some('\n')
    } else if c == 'r' {
        Some('\r')
    } else if c == 't' {
        Some('\t')
    } else {
        None
    }
}

/// Decodes the escape sequences in `s`, the body of a string literal
/// without its quotes, in one pass from left to right. The first malformed
/// sequence ends the pass with its error.
pub fn unescape_str(s: &str) -> (r: Result<String, UnescapeError>)
    ensures
        outcome(r) == unescape(s@),
        r matches Ok(o) ==> o@.len() <= s@.len(),
        !s@.contains('\\') ==> (r matches Ok(o) && o@ == s@),
{
    proof {
        lemma_output_not_longer(s@);
        if !s@.contains('\\') {
            lemma_plain_text_unchanged(s@);
        }
    }
    let mut state = EscapeState::Normal;
    let mut digits = String::new();
    let mut count: usize = 0;
    let mut code: u32 = 0;
    let mut out = String::new();
    for c in it: s.chars()
        invariant
            it.seq() == s@,
            !s@.contains('\\') ==> unescape(s@) == Ok::<Seq<char>, Fault>(s@),
            scan(s@.take(it.index() as int)) == Ok::<Scan, Fault>(
                Scan { mode: state, digits: digits@, out: out@ },
            ),
            count == digits@.len(),
            count < 4,
            code as int == hex_value(digits@),
            count == 0 ==> code == 0,
            count == 1 ==> code < 16,
            count == 2 ==> code < 256,
            count == 3 ==> code < 4096,
    {
        let ghost before = s@.take(it.index() as int);
        let ghost i = it.index() as int;
        assert(s@.take(i + 1).drop_last() =~= before);
        assert(s@.take(i + 1).last() == c);
        match state {
            EscapeState::Normal => {
                if c == '\\' {
                    state = EscapeState::Escape;
                } else {
                    push_char(&mut out, c);
                }
            },
            EscapeState::Escape => {
                match simple_escape_char(c) {
                    Some(d) => {
                        push_char(&mut out, d);
                        state = EscapeState::Normal;
                    },
                    None => {
                        if c == 'u' {
                            digits = String::new();
                            count = 0;
                            code = 0;
                            state = EscapeState::Unicode;
                        } else {
                            proof {
                                lemma_fault_is_final(s@, i + 1);
                            }
                            return Err(UnescapeError::InvalidEscapeCharacter(c));
                        }
                    },
                }
            },
            EscapeState::Unicode => {
                match hex_digit(c) {
                    None => {
                        proof {
                            lemma_fault_is_final(s@, i + 1);
                        }
                        return Err(UnescapeError::InvalidHexDigit { digits, found: c });
                    },
                    Some(v) => {
                        let ghost old_digits = digits@;
                        push_char(&mut digits, c);
                        assert(digits@.drop_last() =~= old_digits);
                        assert(digits@.last() == c);
                        count = count + 1;
                        code = code * 16 + v;
                        if count == 4 {
                            match char_from_u32(code) {
                                Some(ch) => {
                                    assert(hex_value(old_digits.push(c)) == code as int);
                                    proof {
                                        vstd::utf8::char_u32_cast(ch, code);
                                    }
                                    push_char(&mut out, ch);
                                    digits = String::new();
                                    count = 0;
                                    code = 0;
                                    state = EscapeState::Normal;
                                },
                                None => {
                                    proof {
                                        lemma_fault_is_final(s@, i + 1);
                                    }
                                    return Err(UnescapeError::InvalidCodepoint { digits });
                                },
                            }
                        }
                    },
                }
            },
        }
    }
    assert(s@.take(s@.len() as int) =~= s@);
    match state {
        EscapeState::Normal => Ok(out),
        EscapeState::Escape => Err(UnescapeError::UnterminatedEscape),
        EscapeState::Unicode => Err(UnescapeError::UnterminatedUnicodeEscape),
    }
}

} // verus!
