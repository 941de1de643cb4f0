//! Normalize link identifiers so that labels and definitions can be
//! matched: whitespace runs collapse to one space, the ends are trimmed,
//! and ASCII letters are case-folded.
use vstd::prelude::*;
use crate::strutil::push_char;

verus! {

/// The characters treated as whitespace when collapsing an identifier.
pub open spec fn is_md_whitespace(c: char) -> bool {
    c == ' ' || c == '\t' || c == '\n' || c == '\r' || c == '\u{0B}' || c == '\u{0C}'
}

/// Case-fold one character: ASCII letters lose their case, all others
/// stand for themselves.
pub open spec fn fold_char(c: char) -> char {
    if 'a' <= c && c <= 'z' {
        ((c as u8) - 0x20) as char
    } else {
        c
    }
}

/// The normal form of the identifier tail starting at `i`, given whether
/// anything was emitted yet and whether whitespace was just crossed.
pub open spec fn normalized_from(s: Seq<char>, i: int, at_start: bool, at_ws: bool) -> Seq<char>
    decreases s.len() - i,
    when 0 <= i
{
    if i >= s.len() {
        Seq::empty()
    } else if is_md_whitespace(s[i]) {
        normalized_from(s, i + 1, at_start, true)
    } else {
        let sep: Seq<char> = if at_ws && !at_start {
            seq![' ']
        } else {
            Seq::empty()
        };
        sep + seq![fold_char(s[i])] + normalized_from(s, i + 1, false, false)
    }
}

/// The normal form of an identifier.
pub open spec fn normalized(s: Seq<char>) -> Seq<char> {
    normalized_from(s, 0, true, true)
}

/// Normalize an identifier: collapse and trim whitespace, fold ASCII case.
pub fn normalize_identifier(value: &str) -> (r: String)
    ensures
        r@ == normalized(value@),
{
    let n = value.unicode_len();
    let mut out = String::new();
    let mut at_start = true;
    let mut at_ws = true;
    let mut i: usize = 0;
    while i < n
        invariant
            n == value@.len(),
            i <= n,
            normalized(value@) == out@ + normalized_from(value@, i as int, at_start, at_ws),
        decreases n - i,
    {
        let ghost pre_out = out@;
        let c = value.get_char(i);
        if c == ' ' || c == '\t' || c == '\n' || c == '\r' || c == '\u{0B}' || c == '\u{0C}' {
            at_ws = true;
        } else {
            let ghost sep: Seq<char> = if at_ws && !at_start {
                seq![' ']
            } else {
                Seq::empty()
            };
            if at_ws && !at_start {
                push_char(&mut out, ' ');
            }
            let f = if 'a' <= c && c <= 'z' {
                ((c as u8) - 0x20) as char
            } else {
                c
            };
            push_char(&mut out, f);
            at_start = false;
            at_ws = false;
            proof {
                assert(out@ =~= pre_out + sep + seq![fold_char(value@[i as int])]);
                assert(pre_out + sep + seq![fold_char(value@[i as int])] + normalized_from(
                    value@,
                    i + 1,
                    false,
                    false,
                ) =~= pre_out + (sep + seq![fold_char(value@[i as int])] + normalized_from(
                    value@,
                    i + 1,
                    false,
                    false,
                )));
            }
        }
        i += 1;
    }
    proof {
        assert(out@ + Seq::<char>::empty() =~= out@);
    }
    out
}

} // verus!
