//! Laws of the escape grammar, proved over its model.
use vstd::prelude::*;
use crate::grammar::{scan, unescape, EscapeState, Fault, Scan};

verus! {

/// How many characters of output the pending part of an escape sequence
/// still owes to the input.
pub open spec fn pending(st: Scan) -> int {
    match st.mode {
        EscapeState::Normal => 0,
        EscapeState::Escape => 1,
        EscapeState::Unicode => 2 + st.digits.len() as int,
    }
}

proof fn lemma_scan_plain(s: Seq<char>)
    requires
        !s.contains('\\'),
    ensures
        scan(s) == Ok::<Scan, Fault>(
            Scan { mode: EscapeState::Normal, digits: Seq::empty(), out: s },
        ),
    decreases s.len(),
{
    if s.len() > 0 {
        let init = s.drop_last();
        assert(!init.contains('\\')) by {
            if init.contains('\\') {
                let k = choose|k: int| 0 <= k < init.len() && init[k] == '\\';
                assert(s[k] == '\\');
            }
        }
        lemma_scan_plain(init);
        assert(s.last() != '\\') by {
            assert(s[s.len() - 1] == s.last());
        }
        assert(init.push(s.last()) =~= s);
    } else {
        assert(s =~= Seq::empty());
    }
}

/// A string without any backslash decodes to itself.
pub proof fn lemma_plain_text_unchanged(s: Seq<char>)
    requires
        !s.contains('\\'),
    ensures
        unescape(s) == Ok::<Seq<char>, Fault>(s),
{
    lemma_scan_plain(s);
}

proof fn lemma_scan_len(s: Seq<char>)
    ensures
        scan(s) matches Ok(st) ==> st.out.len() + pending(st) <= s.len(),
    decreases s.len(),
{
    if s.len() > 0 {
        lemma_scan_len(s.drop_last());
    }
}

/// Decoding never lengthens a string: each escape sequence stands for at
/// most one character and every other character for itself.
pub proof fn lemma_output_not_longer(s: Seq<char>)
    ensures
        unescape(s) matches Ok(out) ==> out.len() <= s.len(),
{
    lemma_scan_len(s);
}

} // verus!
