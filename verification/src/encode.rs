//! HTML-encode text: the four characters with meaning in HTML become
//! character references.
use vstd::prelude::*;
use crate::strutil::push_char;

verus! {

/// What one character encodes to.
pub open spec fn encoded_char(c: char) -> Seq<char> {
    if c == '&' {
        "&amp;"@
    } else if c == '"' {
        "&quot;"@
    } else if c == '<' {
        "&lt;"@
    } else if c == '>' {
        "&gt;"@
    } else {
        seq![c]
    }
}

/// What a whole string encodes to.
pub open spec fn encoded(s: Seq<char>) -> Seq<char>
    decreases s.len(),
{
    if s.len() == 0 {
        Seq::empty()
    } else {
        encoded(s.drop_last()) + encoded_char(s.last())
    }
}

/// Replace `&`, `"`, `<` and `>` with `&amp;`, `&quot;`, `&lt;`, `&gt;`.
pub fn encode(value: &str) -> (r: String)
    ensures
        r@ == encoded(value@),
{
    let n = value.unicode_len();
    let mut out = String::new();
    let mut i: usize = 0;
    while i < n
        invariant
            n == value@.len(),
            i <= n,
            out@ == encoded(value@.subrange(0, i as int)),
        decreases n - i,
    {
        let ghost pre = value@.subrange(0, i as int);
        let c = value.get_char(i);
        if c == '&' {
            out.append("&amp;");
        } else if c == '"' {
            out.append("&quot;");
        } else if c == '<' {
            out.append("&lt;");
        } else if c == '>' {
            out.append("&gt;");
        } else {
            push_char(&mut out, c);
            proof {
                assert(encoded(pre) + seq![c] =~= encoded(pre).push(c));
            }
        }
        proof {
            let post = value@.subrange(0, i + 1 as int);
            assert(post.drop_last() =~= pre);
            assert(post.last() == c);
        }
        i += 1;
    }
    proof {
        assert(value@.subrange(0, n as int) =~= value@);
    }
    out
}

} // verus!
