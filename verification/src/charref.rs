//! Decode character references: numeric ones by value, named ones
//! against a table of known entities.
use vstd::prelude::*;
use crate::strutil::{char_from_u32, is_scalar_value, push_char, str_eq};

verus! {

/// The value of one digit in the given base, if it is one.
pub open spec fn spec_digit_val(c: char, radix: int) -> Option<int> {
    let v = c as u32;
    if 0x30 <= v && v <= 0x39 {
        Some((v - 0x30) as int)
    } else if radix == 16 && 0x41 <= v && v <= 0x46 {
        Some((v - 0x37) as int)
    } else if radix == 16 && 0x61 <= v && v <= 0x66 {
        Some((v - 0x57) as int)
    } else {
        None
    }
}

/// Parse a numeral in the given base, reading from `i` with `acc` so
/// far. Values beyond the code-point range stick at `0x110000`, which no
/// scalar value reaches; a non-digit refuses the whole numeral.
pub open spec fn spec_parse_scalar_from(s: Seq<char>, i: int, radix: int, acc: int) -> Option<int>
    decreases s.len() - i,
    when 0 <= i
{
    if i >= s.len() {
        Some(acc)
    } else {
        match spec_digit_val(s[i], radix) {
            Some(d) => {
                let acc2 = if acc * radix + d > 0x10FFFF {
                    0x110000
                } else {
                    acc * radix + d
                };
                spec_parse_scalar_from(s, i + 1, radix, acc2)
            },
            None => None,
        }
    }
}

/// Parse a whole numeral; the empty string is no numeral.
pub open spec fn spec_parse_scalar(s: Seq<char>, radix: int) -> Option<int> {
    if s.len() == 0 {
        None
    } else {
        spec_parse_scalar_from(s, 0, radix, 0)
    }
}

/// Code points a numeric reference may not produce: C0 controls other
/// than tab, line feed, form feed and carriage return; delete and the C1
/// controls; and the permanent noncharacters.
pub open spec fn spec_disallowed(v: int) -> bool {
    (0 <= v && v <= 8) || v == 0x0B || (0x0E <= v && v <= 0x1F) || (0x7F <= v && v <= 0x9F) || (
    0xFDD0 <= v && v <= 0xFDEF) || v % 0x10000 == 0xFFFE || v % 0x10000 == 0xFFFF
}

/// A character's scalar value.
pub open spec fn char_value(c: char) -> int {
    c as int
}

/// The character with a given scalar value.
pub open spec fn spec_char_of(v: int) -> char {
    choose|c: char| #[trigger] char_value(c) == v
}

/// What a numeric character reference decodes to: the named code point,
/// or the replacement character when the numeral is out of range or the
/// code point is disallowed.
pub open spec fn spec_decode_numeric(s: Seq<char>, radix: int) -> Seq<char> {
    match spec_parse_scalar(s, radix) {
        Some(v) => {
            if is_scalar_value(v as u32) && v <= 0x10FFFF && !spec_disallowed(v) {
                seq![spec_char_of(v)]
            } else {
                seq!['\u{FFFD}']
            }
        },
        None => seq!['\u{FFFD}'],
    }
}

/// Characters with the same scalar value are the same character.
pub proof fn lemma_char_injective(a: char, b: char)
    requires
        a as int == b as int,
    ensures
        a == b,
{
}

/// Decode a numeric character reference written in base 10 or 16.
pub fn decode_numeric(value: &str, radix: u32) -> (r: String)
    requires
        radix == 10 || radix == 16,
    ensures
        r@ == spec_decode_numeric(value@, radix as int),
{
    let n = value.unicode_len();
    let mut acc: u32 = 0;
    let mut bad = n == 0;
    let mut i: usize = 0;
    while i < n && !bad
        invariant
            n == value@.len(),
            i <= n,
            acc <= 0x110000,
            !bad ==> n > 0,
            !bad ==> spec_parse_scalar(value@, radix as int) == spec_parse_scalar_from(
                value@,
                i as int,
                radix as int,
                acc as int,
            ),
            bad ==> spec_parse_scalar(value@, radix as int) is None,
            radix == 10 || radix == 16,
        decreases n - i,
    {
        let c = value.get_char(i);
        let v = c as u32;
        let d: u32 = if 0x30 <= v && v <= 0x39 {
            v - 0x30
        } else if radix == 16 && 0x41 <= v && v <= 0x46 {
            v - 0x37
        } else if radix == 16 && 0x61 <= v && v <= 0x66 {
            v - 0x57
        } else {
            bad = true;
            0
        };
        if !bad {
            let next = acc * radix + d;
            acc = if next > 0x10FFFF {
                0x110000
            } else {
                next
            };
        }
        i += 1;
    }
    if bad {
        let mut out = String::new();
        push_char(&mut out, '\u{FFFD}');
        proof {
            assert(Seq::<char>::empty().push('\u{FFFD}') =~= seq!['\u{FFFD}']);
        }
        return out;
    }
    let disallowed = acc <= 8 || acc == 0x0B || (0x0E <= acc && acc <= 0x1F) || (0x7F <= acc && acc
        <= 0x9F) || (0xFDD0 <= acc && acc <= 0xFDEF) || acc % 0x10000 == 0xFFFE || acc % 0x10000
        == 0xFFFF;
    let decoded: Option<char> = if disallowed {
        None
    } else {
        char_from_u32(acc)
    };
    let mut out = String::new();
    match decoded {
        Some(ch) => {
            push_char(&mut out, ch);
            proof {
                assert(char_value(ch) == acc as int);
                assert(exists|c: char| #[trigger] char_value(c) == acc as int);
                lemma_char_injective(ch, spec_char_of(acc as int));
                assert(Seq::<char>::empty().push(ch) =~= seq![spec_char_of(acc as int)]);
            }
        },
        None => {
            push_char(&mut out, '\u{FFFD}');
            proof {
                assert(Seq::<char>::empty().push('\u{FFFD}') =~= seq!['\u{FFFD}']);
            }
        },
    }
    out
}

/// The replacement for a known named entity.
pub open spec fn spec_named_entity(s: Seq<char>) -> Option<char> {
    if s == "amp"@ {
        Some('&')
    } else if s == "lt"@ {
        Some('<')
    } else if s == "gt"@ {
        Some('>')
    } else if s == "quot"@ {
        Some('"')
    } else if s == "apos"@ {
        Some('\'')
    } else if s == "nbsp"@ {
        Some('\u{A0}')
    } else if s == "copy"@ {
        Some('\u{A9}')
    } else if s == "laquo"@ {
        Some('\u{AB}')
    } else if s == "reg"@ {
        Some('\u{AE}')
    } else if s == "deg"@ {
        Some('\u{B0}')
    } else if s == "plusmn"@ {
        Some('\u{B1}')
    } else if s == "middot"@ {
        Some('\u{B7}')
    } else if s == "raquo"@ {
        Some('\u{BB}')
    } else if s == "frac12"@ {
        Some('\u{BD}')
    } else if s == "times"@ {
        Some('\u{D7}')
    } else if s == "divide"@ {
        Some('\u{F7}')
    } else if s == "ndash"@ {
        Some('\u{2013}')
    } else if s == "mdash"@ {
        Some('\u{2014}')
    } else if s == "lsquo"@ {
        Some('\u{2018}')
    } else if s == "rsquo"@ {
        Some('\u{2019}')
    } else if s == "ldquo"@ {
        Some('\u{201C}')
    } else if s == "rdquo"@ {
        Some('\u{201D}')
    } else if s == "dagger"@ {
        Some('\u{2020}')
    } else if s == "bull"@ {
        Some('\u{2022}')
    } else if s == "hellip"@ {
        Some('\u{2026}')
    } else if s == "prime"@ {
        Some('\u{2032}')
    } else if s == "euro"@ {
        Some('\u{20AC}')
    } else if s == "trade"@ {
        Some('\u{2122}')
    } else {
        None
    }
}

/// What a named reference decodes to: the entity's replacement, or the
/// literal `&name;` text when the name is unknown.
pub open spec fn spec_decode_named(s: Seq<char>) -> Seq<char> {
    match spec_named_entity(s) {
        Some(c) => seq![c],
        None => seq!['&'] + s + seq![';'],
    }
}

fn named_lookup(value: &str) -> (r: Option<char>)
    ensures
        r == spec_named_entity(value@),
{
    if str_eq(value, "amp") {
        Some('&')
    } else if str_eq(value, "lt") {
        Some('<')
    } else if str_eq(value, "gt") {
        Some('>')
    } else if str_eq(value, "quot") {
        Some('"')
    } else if str_eq(value, "apos") {
        Some('\'')
    } else if str_eq(value, "nbsp") {
        Some('\u{A0}')
    } else if str_eq(value, "copy") {
        Some('\u{A9}')
    } else if str_eq(value, "laquo") {
        Some('\u{AB}')
    } else if str_eq(value, "reg") {
        Some('\u{AE}')
    } else if str_eq(value, "deg") {
        Some('\u{B0}')
    } else if str_eq(value, "plusmn") {
        Some('\u{B1}')
    } else if str_eq(value, "middot") {
        Some('\u{B7}')
    } else if str_eq(value, "raquo") {
        Some('\u{BB}')
    } else if str_eq(value, "frac12") {
        Some('\u{BD}')
    } else if str_eq(value, "times") {
        Some('\u{D7}')
    } else if str_eq(value, "divide") {
        Some('\u{F7}')
    } else if str_eq(value, "ndash") {
        Some('\u{2013}')
    } else if str_eq(value, "mdash") {
        Some('\u{2014}')
    } else if str_eq(value, "lsquo") {
        Some('\u{2018}')
    } else if str_eq(value, "rsquo") {
        Some('\u{2019}')
    } else if str_eq(value, "ldquo") {
        Some('\u{201C}')
    } else if str_eq(value, "rdquo") {
        Some('\u{201D}')
    } else if str_eq(value, "dagger") {
        Some('\u{2020}')
    } else if str_eq(value, "bull") {
        Some('\u{2022}')
    } else if str_eq(value, "hellip") {
        Some('\u{2026}')
    } else if str_eq(value, "prime") {
        Some('\u{2032}')
    } else if str_eq(value, "euro") {
        Some('\u{20AC}')
    } else if str_eq(value, "trade") {
        Some('\u{2122}')
    } else {
        None
    }
}

/// Decode a named character reference; unknown names come back as their
/// literal source text.
pub fn decode_named(value: &str) -> (r: String)
    ensures
        r@ == spec_decode_named(value@),
{
    match named_lookup(value) {
        Some(c) => {
            let mut out = String::new();
            push_char(&mut out, c);
            proof {
                assert(Seq::<char>::empty().push(c) =~= seq![c]);
            }
            out
        },
        None => {
            let mut out = String::new();
            push_char(&mut out, '&');
            out.append(value);
            push_char(&mut out, ';');
            proof {
                assert(Seq::<char>::empty().push('&') =~= seq!['&']);
                assert((seq!['&'] + value@).push(';') =~= seq!['&'] + value@ + seq![';']);
            }
            out
        },
    }
}

} // verus!
