//! Small string helpers: the two characters-to-string primitives that std
//! provides, plus verified comparison and decimal formatting.
use vstd::prelude::*;

verus! {

/// Relies on String::push: appends exactly the given character.
#[verifier::external_body]
pub fn push_char(s: &mut String, c: char)
    ensures
        final(s)@ == old(s)@.push(c),
{
    s.push(c);
}

/// Whether a value is a Unicode scalar value, and thus a `char`.
pub open spec fn is_scalar_value(v: u32) -> bool {
    (v < 0xD800) || (0xE000 <= v && v <= 0x10FFFF)
}

/// Relies on char::from_u32: `Some` exactly for Unicode scalar values,
/// returning the character with that value.
#[verifier::external_body]
pub fn char_from_u32(v: u32) -> (r: Option<char>)
    ensures
        is_scalar_value(v) <==> (r is Some),
        r is Some ==> (r->0 as int) == v as int,
{
    char::from_u32(v)
}

/// Compare two string slices by their characters.
pub fn str_eq(a: &str, b: &str) -> (r: bool)
    ensures
        r == (a@ == b@),
{
    let an = a.unicode_len();
    let bn = b.unicode_len();
    if an != bn {
        proof {
            assert(a@ != b@) by {
                assert(a@.len() != b@.len());
            }
        }
        return false;
    }
    let mut i: usize = 0;
    while i < an
        invariant
            an == a@.len(),
            an == b@.len(),
            i <= an,
            forall|j: int| 0 <= j < i ==> a@[j] == b@[j],
        decreases an - i,
    {
        if a.get_char(i) != b.get_char(i) {
            return false;
        }
        i += 1;
    }
    proof {
        assert(a@ =~= b@);
    }
    true
}

/// The character for one decimal digit.
pub open spec fn spec_dec_digit(d: int) -> char {
    ((d + 0x30) as u8) as char
}

/// The decimal numeral of a non-negative integer.
pub open spec fn spec_dec(v: int) -> Seq<char>
    decreases v,
{
    if v < 10 {
        seq![spec_dec_digit(v)]
    } else {
        spec_dec(v / 10).push(spec_dec_digit(v % 10))
    }
}

/// Append the decimal numeral of `v` to `out`.
pub fn append_dec(out: &mut String, v: usize)
    ensures
        final(out)@ == old(out)@ + spec_dec(v as int),
    decreases v,
{
    if v < 10 {
        let d: u8 = (v as u8) + 0x30;
        push_char(out, d as char);
        proof {
            assert(old(out)@.push(spec_dec_digit(v as int)) =~= old(out)@ + spec_dec(v as int));
        }
    } else {
        append_dec(out, v / 10);
        let d: u8 = ((v % 10) as u8) + 0x30;
        push_char(out, d as char);
        proof {
            assert((old(out)@ + spec_dec(v as int / 10)).push(spec_dec_digit(v as int % 10))
                =~= old(out)@ + spec_dec(v as int));
        }
    }
}

/// Parse a decimal numeral from `i` with `acc` so far; a non-digit or a
/// value beyond `u32` refuses the numeral.
pub open spec fn spec_parse_u32_from(s: Seq<char>, i: int, acc: int) -> Option<int>
    decreases s.len() - i,
    when 0 <= i
{
    if i >= s.len() {
        Some(acc)
    } else {
        let v = s[i] as u32;
        if 0x30 <= v && v <= 0x39 {
            let acc2 = acc * 10 + (v - 0x30);
            if acc2 > 0xFFFF_FFFF {
                None
            } else {
                spec_parse_u32_from(s, i + 1, acc2)
            }
        } else {
            None
        }
    }
}

/// Parse a whole decimal numeral; the empty string is none.
pub open spec fn spec_parse_u32(s: Seq<char>) -> Option<int> {
    if s.len() == 0 {
        None
    } else {
        spec_parse_u32_from(s, 0, 0)
    }
}

/// Parse an unsigned decimal integer, refusing anything that does not
/// fit `u32`.
pub fn parse_u32(value: &str) -> (r: Option<u32>)
    ensures
        match r {
            Some(v) => spec_parse_u32(value@) == Some(v as int),
            None => spec_parse_u32(value@) is None,
        },
{
    let n = value.unicode_len();
    if n == 0 {
        return None;
    }
    let mut acc: u64 = 0;
    let mut i: usize = 0;
    while i < n
        invariant
            n == value@.len(),
            n > 0,
            i <= n,
            acc <= 0xFFFF_FFFF,
            spec_parse_u32(value@) == spec_parse_u32_from(value@, i as int, acc as int),
        decreases n - i,
    {
        let c = value.get_char(i);
        let v = c as u32;
        if 0x30 <= v && v <= 0x39 {
            let acc2: u64 = acc * 10 + ((v - 0x30) as u64);
            if acc2 > 0xFFFF_FFFF {
                return None;
            }
            acc = acc2;
        } else {
            return None;
        }
        i += 1;
    }
    Some(acc as u32)
}

/// The decimal numeral of `v`, as a string.
pub fn dec_string(v: usize) -> (r: String)
    ensures
        r@ == spec_dec(v as int),
{
    let mut out = String::new();
    append_dec(&mut out, v);
    proof {
        assert(Seq::<char>::empty() + spec_dec(v as int) =~= spec_dec(v as int));
    }
    out
}

} // verus!
