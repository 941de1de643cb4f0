//! Make a URL safe to emit: percent-encode what needs it, and drop the
//! URL entirely when its scheme is not on the caller's allow-list.
use vstd::prelude::*;
use crate::encode::{encode, encoded};
use crate::strutil::{push_char, str_eq};

verus! {

/// Characters a URL keeps as they stand.
pub open spec fn allowed_uri_char(c: char) -> bool {
    c == '!' || ('#' <= c && c <= ';') || c == '=' || ('?' <= c && c <= 'Z') || c == '_' || ('a'
        <= c && c <= 'z') || c == '~'
}

/// An ASCII letter or digit.
pub open spec fn is_ascii_alphanumeric(c: char) -> bool {
    ('0' <= c && c <= '9') || ('A' <= c && c <= 'Z') || ('a' <= c && c <= 'z')
}

/// The UTF-8 bytes of one character.
pub open spec fn spec_utf8(c: char) -> Seq<u8> {
    let v = c as u32;
    if v < 0x80 {
        seq![v as u8]
    } else if v < 0x800 {
        seq![(0xC0 + v / 0x40) as u8, (0x80 + v % 0x40) as u8]
    } else if v < 0x10000 {
        seq![(0xE0 + v / 0x1000) as u8, (0x80 + (v / 0x40) % 0x40) as u8, (0x80 + v % 0x40) as u8]
    } else {
        seq![
            (0xF0 + v / 0x40000) as u8,
            (0x80 + (v / 0x1000) % 0x40) as u8,
            (0x80 + (v / 0x40) % 0x40) as u8,
            (0x80 + v % 0x40) as u8,
        ]
    }
}

/// The character for one hexadecimal digit, upper case.
pub open spec fn spec_hex_digit(d: int) -> char {
    if d < 10 {
        ((d + 0x30) as u8) as char
    } else {
        ((d + 0x37) as u8) as char
    }
}

/// The percent-encoding of one byte.
pub open spec fn spec_pct(b: u8) -> Seq<char> {
    seq!['%', spec_hex_digit(b as int / 16), spec_hex_digit(b as int % 16)]
}

/// The percent-encoding of a byte string.
pub open spec fn spec_pct_bytes(bs: Seq<u8>) -> Seq<char>
    decreases bs.len(),
{
    if bs.len() == 0 {
        Seq::empty()
    } else {
        spec_pct(bs[0]) + spec_pct_bytes(bs.drop_first())
    }
}

/// The normalized URL from position `i` on: existing `%XX` escapes pass
/// through, allowed characters stand, everything else is percent-encoded.
pub open spec fn spec_normalize_uri_from(s: Seq<char>, i: int) -> Seq<char>
    decreases s.len() - i,
    when 0 <= i
{
    if i >= s.len() {
        Seq::empty()
    } else if s[i] == '%' && i + 2 < s.len() && is_ascii_alphanumeric(s[i + 1])
        && is_ascii_alphanumeric(s[i + 2]) {
        seq![s[i], s[i + 1], s[i + 2]] + spec_normalize_uri_from(s, i + 3)
    } else if allowed_uri_char(s[i]) {
        seq![s[i]] + spec_normalize_uri_from(s, i + 1)
    } else {
        spec_pct_bytes(spec_utf8(s[i])) + spec_normalize_uri_from(s, i + 1)
    }
}

/// The first position of `?`, `#` or `/`, after which no scheme starts.
pub open spec fn spec_first_stop(s: Seq<char>, i: int) -> Option<int>
    decreases s.len() - i,
    when 0 <= i
{
    if i >= s.len() {
        None
    } else if s[i] == '?' || s[i] == '#' || s[i] == '/' {
        Some(i)
    } else {
        spec_first_stop(s, i + 1)
    }
}

/// The first position of `:`.
pub open spec fn spec_first_colon(s: Seq<char>, i: int) -> Option<int>
    decreases s.len() - i,
    when 0 <= i
{
    if i >= s.len() {
        None
    } else if s[i] == ':' {
        Some(i)
    } else {
        spec_first_colon(s, i + 1)
    }
}

/// ASCII-lowercase a string.
pub open spec fn spec_lower(s: Seq<char>) -> Seq<char>
    decreases s.len(),
{
    if s.len() == 0 {
        Seq::empty()
    } else {
        spec_lower(s.drop_last()).push(spec_lower_char(s.last()))
    }
}

/// ASCII-lowercase one character.
pub open spec fn spec_lower_char(c: char) -> char {
    if 'A' <= c && c <= 'Z' {
        ((c as u8) + 0x20) as char
    } else {
        c
    }
}

/// Whether the cleaned URL `v` carries a scheme: a colon before any of
/// `?`, `#`, `/`.
pub open spec fn spec_has_scheme(v: Seq<char>) -> bool {
    match spec_first_colon(v, 0) {
        None => false,
        Some(ci) => match spec_first_stop(v, 0) {
            None => true,
            Some(si) => ci < si,
        },
    }
}

/// The scheme of the cleaned URL `v`, lower-cased.
pub open spec fn spec_scheme_of(v: Seq<char>) -> Seq<char> {
    spec_lower(v.subrange(0, spec_first_colon(v, 0)->0))
}

/// The sanitized form of a URL: its normalized, HTML-encoded text; or
/// nothing, when a scheme allow-list is given and the scheme is not on it.
pub open spec fn spec_sanitize(s: Seq<char>, protocols: Option<Seq<Seq<char>>>) -> Seq<char> {
    let v = encoded(spec_normalize_uri_from(s, 0));
    match protocols {
        None => v,
        Some(ps) => {
            if !spec_has_scheme(v) {
                v
            } else if ps.contains(spec_scheme_of(v)) {
                v
            } else {
                Seq::empty()
            }
        },
    }
}

/// Every sanitized URL is safe against its allow-list: it is empty, or
/// has no scheme at all (a relative reference), or its scheme is listed.
pub proof fn lemma_sanitize_uri_safe(s: Seq<char>, ps: Seq<Seq<char>>)
    ensures
        ({
            let r = spec_sanitize(s, Some(ps));
            r.len() == 0 || !spec_has_scheme(r) || ps.contains(spec_scheme_of(r))
        }),
{
}

fn append_pct(out: &mut String, b: u8)
    ensures
        final(out)@ == old(out)@ + spec_pct(b),
{
    push_char(out, '%');
    let hi: u8 = b / 16;
    let lo: u8 = b % 16;
    let hc: u8 = if hi < 10 {
        hi + 0x30
    } else {
        hi + 0x37
    };
    let lc: u8 = if lo < 10 {
        lo + 0x30
    } else {
        lo + 0x37
    };
    push_char(out, hc as char);
    push_char(out, lc as char);
    proof {
        assert(old(out)@.push('%').push(spec_hex_digit(b as int / 16)).push(
            spec_hex_digit(b as int % 16),
        ) =~= old(out)@ + spec_pct(b));
    }
}

/// Percent-encoding a byte string goes byte by byte.
pub proof fn lemma_pct_bytes_snoc(bs: Seq<u8>, b: u8)
    ensures
        spec_pct_bytes(bs.push(b)) =~= spec_pct_bytes(bs) + spec_pct(b),
    decreases bs.len(),
{
    if bs.len() == 0 {
        assert(bs.push(b).drop_first() =~= Seq::<u8>::empty());
        assert(spec_pct_bytes(Seq::<u8>::empty()) =~= Seq::<char>::empty());
    } else {
        assert(bs.push(b).drop_first() =~= bs.drop_first().push(b));
        lemma_pct_bytes_snoc(bs.drop_first(), b);
        assert(bs.push(b)[0] == bs[0]);
    }
}

fn append_utf8_pct(out: &mut String, c: char)
    ensures
        final(out)@ == old(out)@ + spec_pct_bytes(spec_utf8(c)),
{
    let v = c as u32;
    if v < 0x80 {
        let b0: u8 = v as u8;
        append_pct(out, b0);
        proof {
            assert(spec_utf8(c) =~= Seq::<u8>::empty().push(b0));
            lemma_pct_bytes_snoc(Seq::<u8>::empty(), b0);
            assert(spec_pct_bytes(Seq::<u8>::empty()) =~= Seq::<char>::empty());
            assert(final(out)@ =~= old(out)@ + spec_pct_bytes(spec_utf8(c)));
        }
    } else if v < 0x800 {
        let b0: u8 = (0xC0 + v / 0x40) as u8;
        let b1: u8 = (0x80 + v % 0x40) as u8;
        append_pct(out, b0);
        append_pct(out, b1);
        proof {
            assert(spec_utf8(c) =~= seq![b0].push(b1));
            assert(seq![b0] =~= Seq::<u8>::empty().push(b0));
            lemma_pct_bytes_snoc(Seq::<u8>::empty(), b0);
            lemma_pct_bytes_snoc(seq![b0], b1);
            assert(spec_pct_bytes(Seq::<u8>::empty()) =~= Seq::<char>::empty());
            assert(final(out)@ =~= old(out)@ + spec_pct_bytes(spec_utf8(c)));
        }
    } else if v < 0x10000 {
        let b0: u8 = (0xE0 + v / 0x1000) as u8;
        let b1: u8 = (0x80 + (v / 0x40) % 0x40) as u8;
        let b2: u8 = (0x80 + v % 0x40) as u8;
        append_pct(out, b0);
        append_pct(out, b1);
        append_pct(out, b2);
        proof {
            assert(spec_utf8(c) =~= seq![b0, b1].push(b2));
            assert(seq![b0, b1] =~= seq![b0].push(b1));
            assert(seq![b0] =~= Seq::<u8>::empty().push(b0));
            lemma_pct_bytes_snoc(Seq::<u8>::empty(), b0);
            lemma_pct_bytes_snoc(seq![b0], b1);
            lemma_pct_bytes_snoc(seq![b0, b1], b2);
            assert(spec_pct_bytes(Seq::<u8>::empty()) =~= Seq::<char>::empty());
            assert(final(out)@ =~= old(out)@ + spec_pct_bytes(spec_utf8(c)));
        }
    } else {
        let b0: u8 = (0xF0 + v / 0x40000) as u8;
        let b1: u8 = (0x80 + (v / 0x1000) % 0x40) as u8;
        let b2: u8 = (0x80 + (v / 0x40) % 0x40) as u8;
        let b3: u8 = (0x80 + v % 0x40) as u8;
        append_pct(out, b0);
        append_pct(out, b1);
        append_pct(out, b2);
        append_pct(out, b3);
        proof {
            assert(spec_utf8(c) =~= seq![b0, b1, b2].push(b3));
            assert(seq![b0, b1, b2] =~= seq![b0, b1].push(b2));
            assert(seq![b0, b1] =~= seq![b0].push(b1));
            assert(seq![b0] =~= Seq::<u8>::empty().push(b0));
            lemma_pct_bytes_snoc(Seq::<u8>::empty(), b0);
            lemma_pct_bytes_snoc(seq![b0], b1);
            lemma_pct_bytes_snoc(seq![b0, b1], b2);
            lemma_pct_bytes_snoc(seq![b0, b1, b2], b3);
            assert(spec_pct_bytes(Seq::<u8>::empty()) =~= Seq::<char>::empty());
            assert(final(out)@ =~= old(out)@ + spec_pct_bytes(spec_utf8(c)));
        }
    }
}

/// Normalize a URL: keep valid `%XX` escapes and allowed characters,
/// percent-encode everything else byte by byte.
pub fn normalize_uri(value: &str) -> (r: String)
    ensures
        r@ == spec_normalize_uri_from(value@, 0),
{
    let n = value.unicode_len();
    let mut out = String::new();
    let mut i: usize = 0;
    while i < n
        invariant
            n == value@.len(),
            i <= n,
            spec_normalize_uri_from(value@, 0) == out@ + spec_normalize_uri_from(
                value@,
                i as int,
            ),
        decreases n - i,
    {
        let ghost pre_out = out@;
        let c = value.get_char(i);
        if c == '%' && n - i > 2 {
            let c1 = value.get_char(i + 1);
            let c2 = value.get_char(i + 2);
            let an1 = ('0' <= c1 && c1 <= '9') || ('A' <= c1 && c1 <= 'Z') || ('a' <= c1 && c1
                <= 'z');
            let an2 = ('0' <= c2 && c2 <= '9') || ('A' <= c2 && c2 <= 'Z') || ('a' <= c2 && c2
                <= 'z');
            if an1 && an2 {
                push_char(&mut out, c);
                push_char(&mut out, c1);
                push_char(&mut out, c2);
                proof {
                    assert(out@ =~= pre_out + seq![c, c1, c2]);
                    assert(pre_out + seq![c, c1, c2] + spec_normalize_uri_from(value@, i + 3)
                        =~= pre_out + (seq![c, c1, c2] + spec_normalize_uri_from(value@, i + 3)));
                }
                i += 3;
                continue ;
            }
        }
        let allowed = c == '!' || ('#' <= c && c <= ';') || c == '=' || ('?' <= c && c <= 'Z') || c
            == '_' || ('a' <= c && c <= 'z') || c == '~';
        if allowed {
            push_char(&mut out, c);
            proof {
                assert(out@ =~= pre_out + seq![c]);
                assert(pre_out + seq![c] + spec_normalize_uri_from(value@, i + 1) =~= pre_out + (
                seq![c] + spec_normalize_uri_from(value@, i + 1)));
            }
        } else {
            append_utf8_pct(&mut out, c);
            proof {
                assert(pre_out + spec_pct_bytes(spec_utf8(c)) + spec_normalize_uri_from(
                    value@,
                    i + 1,
                ) =~= pre_out + (spec_pct_bytes(spec_utf8(c)) + spec_normalize_uri_from(
                    value@,
                    i + 1,
                )));
            }
        }
        i += 1;
    }
    proof {
        assert(out@ + Seq::<char>::empty() =~= out@);
    }
    out
}

fn first_stop(value: &str) -> (r: Option<usize>)
    ensures
        match r {
            Some(i) => spec_first_stop(value@, 0) == Some(i as int),
            None => spec_first_stop(value@, 0) is None,
        },
{
    let n = value.unicode_len();
    let mut i: usize = 0;
    while i < n
        invariant
            n == value@.len(),
            i <= n,
            spec_first_stop(value@, 0) == spec_first_stop(value@, i as int),
        decreases n - i,
    {
        let c = value.get_char(i);
        if c == '?' || c == '#' || c == '/' {
            return Some(i);
        }
        i += 1;
    }
    None
}

fn first_colon(value: &str) -> (r: Option<usize>)
    ensures
        match r {
            Some(i) => spec_first_colon(value@, 0) == Some(i as int),
            None => spec_first_colon(value@, 0) is None,
        },
{
    let n = value.unicode_len();
    let mut i: usize = 0;
    while i < n
        invariant
            n == value@.len(),
            i <= n,
            spec_first_colon(value@, 0) == spec_first_colon(value@, i as int),
        decreases n - i,
    {
        let c = value.get_char(i);
        if c == ':' {
            return Some(i);
        }
        i += 1;
    }
    None
}

fn lower(value: &str) -> (r: String)
    ensures
        r@ == spec_lower(value@),
{
    let n = value.unicode_len();
    let mut out = String::new();
    let mut i: usize = 0;
    while i < n
        invariant
            n == value@.len(),
            i <= n,
            out@ == spec_lower(value@.subrange(0, i as int)),
        decreases n - i,
    {
        let ghost pre = value@.subrange(0, i as int);
        let c = value.get_char(i);
        let lc = if 'A' <= c && c <= 'Z' {
            ((c as u8) + 0x20) as char
        } else {
            c
        };
        push_char(&mut out, lc);
        proof {
            let post = value@.subrange(0, i + 1 as int);
            assert(post.drop_last() =~= pre);
            assert(post.last() == c);
        }
        i += 1;
    }
    proof {
        assert(value@.subrange(0, n as int) =~= value@);
    }
    out
}

/// The view of a scheme allow-list.
pub open spec fn protocols_view(ps: &Option<Vec<String>>) -> Option<Seq<Seq<char>>> {
    match ps {
        Some(v) => Some(v@.map_values(|s: String| s@)),
        None => None,
    }
}

/// Sanitize a URL against an optional scheme allow-list; `None` allows
/// every scheme.
pub fn sanitize_uri(value: &str, protocols: &Option<Vec<String>>) -> (r: String)
    ensures
        r@ == spec_sanitize(value@, protocols_view(protocols)),
{
    let normalized = normalize_uri(value);
    let cleaned = encode(normalized.as_str());
    match protocols {
        None => cleaned,
        Some(ps) => {
            let colon = first_colon(cleaned.as_str());
            match colon {
                None => cleaned,
                Some(ci) => {
                    let stop = first_stop(cleaned.as_str());
                    let scheme_ends = match stop {
                        None => true,
                        Some(si) => ci < si,
                    };
                    if !scheme_ends {
                        cleaned
                    } else {
                        proof {
                            assert(ci as int <= cleaned@.len()) by {
                                assert(spec_first_colon(cleaned@, 0) == Some(ci as int));
                                lemma_first_colon_in_range(cleaned@, 0);
                            }
                        }
                        let scheme = lower(cleaned.as_str().substring_char(0, ci));
                        let mut listed = false;
                        let mut j: usize = 0;
                        let ghost psv = ps@.map_values(|s: String| s@);
                        while j < ps.len()
                            invariant
                                j <= ps.len(),
                                psv == ps@.map_values(|s: String| s@),
                                listed ==> psv.contains(scheme@),
                                !listed ==> forall|k: int| 0 <= k < j ==> psv[k] != scheme@,
                            decreases ps.len() - j,
                        {
                            if str_eq(scheme.as_str(), ps[j].as_str()) {
                                listed = true;
                                proof {
                                    assert(psv[j as int] == scheme@);
                                }
                            }
                            j += 1;
                        }
                        if listed {
                            cleaned
                        } else {
                            proof {
                                assert(!psv.contains(scheme@)) by {
                                    assert(forall|k: int|
                                        0 <= k < psv.len() ==> psv[k] != scheme@);
                                }
                            }
                            String::new()
                        }
                    }
                },
            }
        },
    }
}

/// A found colon lies inside the string.
pub proof fn lemma_first_colon_in_range(s: Seq<char>, i: int)
    requires
        0 <= i,
        spec_first_colon(s, i) is Some,
    ensures
        i <= spec_first_colon(s, i)->0 < s.len(),
    decreases s.len() - i,
{
    if i >= s.len() {
    } else if s[i] == ':' {
    } else {
        lemma_first_colon_in_range(s, i + 1);
    }
}

} // verus!
