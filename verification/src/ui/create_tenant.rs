use vstd::prelude::*;

use crate::common::domain::{slug_char, valid_slug};
use crate::storage::proof_store::strip_end;
use crate::text::{
    ascii_lower, char_ascii_lower, char_is_ascii_alnum, char_is_ascii_lower, chars_of, find_char,
    find_from, is_ascii_alnum, is_ascii_lower, lemma_find_from, parse_in_range, parse_signed,
    slice_chars, string_from_chars,
};
use crate::ui::api::byte_len;
use vstd::utf8::{
    char_is_scalar, encode_scalar, encode_utf8, has_width_1_encoding, has_width_2_encoding,
    has_width_3_encoding, is_ascii_chars, is_ascii_chars_encode_utf8, leading_byte_width_2,
    leading_byte_width_3, leading_byte_width_4,
};

verus! {

/// Why a slug typed into the form is not acceptable, in words.
#[derive(Debug, Clone, PartialEq, Eq)]
pub struct SlugIssue(pub &'static str);

pub open spec fn slug_byte_ok(b: u8) -> bool {
    (97 <= b <= 122) || (48 <= b <= 57) || b == 95
}

/// The first problem with a slug, judged on its UTF-8 bytes: missing, too
/// short, too long, not starting with a lowercase letter, or holding other
/// bytes than lowercase letters, digits and `_`.
pub open spec fn slug_issue(b: Seq<u8>) -> Option<Seq<char>> {
    if b.len() == 0 {
        Some("Slug is required."@)
    } else if b.len() < 3 {
        Some("Slug must be at least 3 characters."@)
    } else if b.len() > 41 {
        Some("Slug must be 41 characters or fewer."@)
    } else if !(97 <= b[0] <= 122) {
        Some("Slug must start with a lowercase letter."@)
    } else if exists|i: int| 0 <= i < b.len() && !slug_byte_ok(#[trigger] b[i]) {
        Some("Slug may only contain lowercase letters, digits and underscore."@)
    } else {
        None
    }
}

pub fn validate_slug(s: &str) -> (r: Result<(), SlugIssue>)
    ensures
        match r {
            Ok(()) => slug_issue(vstd::utf8::encode_utf8(s@)) is None,
            Err(SlugIssue(m)) => slug_issue(vstd::utf8::encode_utf8(s@)) == Some(m@),
        },
        r is Ok <==> valid_slug(s@),
{
    proof {
        lemma_slug_issue_iff_valid(s@);
    }
    let b = s.as_bytes();
    if b.len() == 0 {
        return Err(SlugIssue("Slug is required."));
    }
    if b.len() < 3 {
        return Err(SlugIssue("Slug must be at least 3 characters."));
    }
    if b.len() > 41 {
        return Err(SlugIssue("Slug must be 41 characters or fewer."));
    }
    if !(97 <= b[0] && b[0] <= 122) {
        return Err(SlugIssue("Slug must start with a lowercase letter."));
    }
    let mut i: usize = 0;
    while i < b.len()
        invariant
            i <= b.len(),
            b@ == vstd::utf8::encode_utf8(s@),
            3 <= b.len() <= 41,
            97 <= b@[0] <= 122,
            forall|j: int| 0 <= j < i ==> slug_byte_ok(#[trigger] b@[j]),
        decreases b.len() - i,
    {
        let c = b[i];
        if !((97 <= c && c <= 122) || (48 <= c && c <= 57) || c == 95) {
            assert(!slug_byte_ok(b@[i as int]));
            assert(slug_issue(b@) is Some);
            proof {
                lemma_slug_issue_iff_valid(s@);
            }
            return Err(SlugIssue("Slug may only contain lowercase letters, digits and underscore."));
        }
        i += 1;
    }
    Ok(())
}

proof fn lemma_char_below_128(ch: char, u: u32)
    requires
        u == ch as u32,
        u <= 0x7F,
    ensures
        '\0' <= ch <= '\u{7f}',
{
    assert(ch as int == u as int);
}

/// Text whose UTF-8 bytes are all below 128 is ASCII.
proof fn lemma_ascii_bytes_ascii_chars(s: Seq<char>)
    requires
        forall|i: int| 0 <= i < encode_utf8(s).len() ==> #[trigger] encode_utf8(s)[i] < 128,
    ensures
        is_ascii_chars(s),
    decreases s.len(),
{
    if s.len() > 0 {
        let c = s[0] as u32;
        let e = encode_scalar(c);
        let t = s.drop_first();
        assert(encode_utf8(s) == e + encode_utf8(t));
        char_is_scalar(s[0]);
        assert(encode_utf8(s)[0] == e[0]);
        if !has_width_1_encoding(c) {
            if has_width_2_encoding(c) {
                assert(leading_byte_width_2(c) >= 0xC0) by (bit_vector);
            } else if has_width_3_encoding(c) {
                assert(leading_byte_width_3(c) >= 0xC0) by (bit_vector);
            } else {
                assert(leading_byte_width_4(c) >= 0xC0) by (bit_vector);
            }
        }
        assert forall|i: int| 0 <= i < encode_utf8(t).len() implies #[trigger] encode_utf8(t)[i]
            < 128 by {
            assert(encode_utf8(s)[i + e.len()] == encode_utf8(t)[i]);
        }
        lemma_ascii_bytes_ascii_chars(t);
        assert forall|i: int| 0 <= i < s.len() implies '\0' <= #[trigger] s[i] <= '\u{7f}' by {
            if i > 0 {
                assert(s[i] == t[i - 1]);
            } else {
                lemma_char_below_128(s[0], c);
            }
        }
    }
}

/// Law: the form's byte check accepts exactly the valid tenant slugs, so
/// `validate_slug`, `is_valid_slug` and `TenantSlug::new` agree on every
/// string.
pub proof fn lemma_slug_issue_iff_valid(s: Seq<char>)
    ensures
        slug_issue(encode_utf8(s)) is None <==> valid_slug(s),
{
    let b = encode_utf8(s);
    if slug_issue(b) is None {
        assert forall|i: int| 0 <= i < b.len() implies #[trigger] b[i] < 128 by {
            assert(slug_byte_ok(b[i]));
        }
        lemma_ascii_bytes_ascii_chars(s);
        is_ascii_chars_encode_utf8(s);
        assert(s[0] as u8 == b[0]);
        assert forall|i: int| 0 <= i < s.len() implies slug_char(#[trigger] s[i]) by {
            assert(slug_byte_ok(b[i]));
            assert(s[i] as u8 == b[i]);
        }
    }
    if valid_slug(s) {
        assert(is_ascii_chars(s)) by {
            assert forall|i: int| 0 <= i < s.len() implies '\0' <= #[trigger] s[i] <= '\u{7f}' by {
                assert(slug_char(s[i]));
            }
        }
        is_ascii_chars_encode_utf8(s);
        assert(s[0] as u8 == b[0]);
        assert forall|i: int| 0 <= i < b.len() implies slug_byte_ok(#[trigger] b[i]) by {
            assert(slug_char(s[i]));
            assert(s[i] as u8 == b[i]);
        }
    }
}

/// `s` padded on the right with `0` to two characters (`{:0<2}`).
pub open spec fn pad_two(s: Seq<char>) -> Seq<char> {
    if s.len() >= 2 {
        s
    } else if s.len() == 1 {
        s + seq!['0']
    } else {
        seq!['0', '0']
    }
}

/// A money amount typed in major units (`25`, `25.50`, `.5`) as cents. A
/// leading `-` is refused as negative; the whole part and the fraction (at
/// most two bytes, padded with `0` to two digits) are each read as `i64`
/// numbers; the total `whole * 100 + fraction` must fit in `i64` and must
/// not be below zero. Empty means zero.
pub open spec fn dues_cents(s: Seq<char>) -> Result<int, Seq<char>> {
    if s.len() == 0 {
        Ok(0)
    } else if s[0] == '-' {
        Err("Dues amount cannot be negative."@)
    } else {
        let k = find_from(s, '.', 0);
        let whole = if k < 0 { s } else { s.subrange(0, k) };
        let frac = if k < 0 { Seq::<char>::empty() } else { s.subrange(k + 1, s.len() as int) };
        if byte_len(frac) > 2 {
            Err("Dues amount supports at most 2 decimal places."@)
        } else {
            let w = if whole.len() == 0 {
                Some(0int)
            } else {
                parse_in_range(whole, true, i64::MIN as int, i64::MAX as int)
            };
            let f = parse_in_range(pad_two(frac), true, i64::MIN as int, i64::MAX as int);
            match (w, f) {
                (Some(w), Some(f)) => if !(i64::MIN <= w * 100 <= i64::MAX) || !(i64::MIN <= w * 100
                    + f <= i64::MAX) {
                    Err("Dues amount is too large."@)
                } else if w * 100 + f < 0 {
                    Err("Dues amount cannot be negative."@)
                } else {
                    Ok(w * 100 + f)
                },
                _ => Err("Dues amount must be a number."@),
            }
        }
    }
}

pub fn parse_dues_to_cents(s: &str) -> (r: Result<i64, String>)
    ensures
        match (r, dues_cents(s@)) {
            (Ok(c), Ok(d)) => c == d,
            (Err(m), Err(e)) => m@ == e,
            _ => false,
        },
        r matches Ok(c) ==> c >= 0,
{
    let v = chars_of(s);
    if v.len() == 0 {
        return Ok(0);
    }
    if v[0] == '-' {
        return Err("Dues amount cannot be negative.".to_string());
    }
    proof {
        lemma_find_from(v@, '.', 0);
    }
    let (whole, frac) = match find_char(&v, '.') {
        Some(k) => (slice_chars(&v, 0, k), slice_chars(&v, k + 1, v.len())),
        None => {
            let e: Vec<char> = Vec::new();
            (slice_chars(&v, 0, v.len()), e)
        },
    };
    proof {
        assert(v@.subrange(0, v@.len() as int) =~= v@);
    }
    let fs = string_from_chars(&frac);
    if fs.as_str().len() > 2 {
        return Err("Dues amount supports at most 2 decimal places.".to_string());
    }
    let w: Option<i64> = if whole.len() == 0 {
        Some(0)
    } else {
        parse_signed(&whole, 0, whole.len(), i64::MIN, i64::MAX)
    };
    let ghost f0 = frac@;
    let mut fp = frac;
    if fp.len() == 0 {
        fp.push('0');
        fp.push('0');
    } else if fp.len() == 1 {
        fp.push('0');
    }
    proof {
        assert(whole@.subrange(0, whole@.len() as int) =~= whole@);
        assert(fp@.subrange(0, fp@.len() as int) =~= fp@);
        assert(fp@ =~= pad_two(f0));
    }
    let f = parse_signed(&fp, 0, fp.len(), i64::MIN, i64::MAX);
    match (w, f) {
        (Some(w), Some(f)) => match w.checked_mul(100) {
            Some(m) => match m.checked_add(f) {
                Some(t) => if t < 0 {
                    Err("Dues amount cannot be negative.".to_string())
                } else {
                    Ok(t)
                },
                None => Err("Dues amount is too large.".to_string()),
            },
            None => Err("Dues amount is too large.".to_string()),
        },
        _ => Err("Dues amount must be a number.".to_string()),
    }
}

/// First pass of `slugify`: ASCII letters and digits kept (lowercased);
/// every run of other characters after some output becomes one `_`. Also
/// gives whether the output so far ends in such a `_`.
pub open spec fn slug_pass(s: Seq<char>) -> (Seq<char>, bool)
    decreases s.len(),
{
    if s.len() == 0 {
        (Seq::empty(), false)
    } else {
        let (o, d) = slug_pass(s.drop_last());
        let c = s.last();
        if is_ascii_alnum(c) {
            (o.push(ascii_lower(c)), false)
        } else if !d && o.len() > 0 {
            (o.push('_'), true)
        } else {
            (o, d)
        }
    }
}

/// `s` from its first ASCII lowercase letter on.
pub open spec fn from_first_lower(s: Seq<char>) -> Seq<char>
    decreases s.len(),
{
    if s.len() == 0 || is_ascii_lower(s[0]) {
        s
    } else {
        from_first_lower(s.drop_first())
    }
}

/// A slug suggested from a display name: letters and digits lowercased,
/// runs of anything else as one `_`, no trailing `_`, starting at the
/// first lowercase letter, at most 41 characters.
pub open spec fn slugify_spec(name: Seq<char>) -> Seq<char> {
    let t = from_first_lower(strip_end(slug_pass(name).0, '_'));
    if t.len() > 41 {
        t.take(41)
    } else {
        t
    }
}

pub fn slugify(name: &str) -> (r: String)
    ensures
        r@ == slugify_spec(name@),
{
    let v = chars_of(name);
    let mut out: Vec<char> = Vec::new();
    let mut prev = false;
    let mut i: usize = 0;
    while i < v.len()
        invariant
            i <= v.len(),
            v@ == name@,
            (out@, prev) == slug_pass(v@.take(i as int)),
        decreases v.len() - i,
    {
        proof {
            assert(v@.take(i + 1).drop_last() =~= v@.take(i as int));
        }
        let c = v[i];
        if char_is_ascii_alnum(c) {
            out.push(char_ascii_lower(c));
            prev = false;
        } else if !prev && out.len() > 0 {
            out.push('_');
            prev = true;
        }
        i += 1;
    }
    proof {
        assert(v@.take(v.len() as int) =~= v@);
    }
    let ghost o = out@;
    let mut b: usize = out.len();
    proof {
        assert(o.subrange(0, o.len() as int) =~= o);
    }
    while b > 0 && out[b - 1] == '_'
        invariant
            b <= out.len(),
            out@ == o,
            strip_end(o, '_') == strip_end(o.subrange(0, b as int), '_'),
        decreases b,
    {
        proof {
            assert(o.subrange(0, b as int).drop_last() =~= o.subrange(0, b - 1));
        }
        b -= 1;
    }
    let ghost t0 = o.subrange(0, b as int);
    let mut a: usize = 0;
    proof {
        assert(t0.subrange(0, t0.len() as int) =~= t0);
    }
    while a < b && !char_is_ascii_lower(out[a])
        invariant
            a <= b <= out.len(),
            out@ == o,
            t0 == o.subrange(0, b as int),
            from_first_lower(strip_end(o, '_')) == from_first_lower(o.subrange(a as int, b as int)),
        decreases b - a,
    {
        proof {
            assert(o.subrange(a as int, b as int).drop_first() =~= o.subrange(a + 1, b as int));
        }
        a += 1;
    }
    let hi = if b - a > 41 { a + 41 } else { b };
    let w = slice_chars(&out, a, hi);
    proof {
        let t = o.subrange(a as int, b as int);
        assert(from_first_lower(t) == t);
        if t.len() > 41 {
            assert(w@ =~= t.take(41));
        } else {
            assert(w@ =~= t);
        }
    }
    string_from_chars(&w)
}

proof fn lemma_slug_pass_chars(s: Seq<char>)
    ensures
        forall|i: int| 0 <= i < slug_pass(s).0.len() ==> slug_char(#[trigger] slug_pass(s).0[i]),
    decreases s.len(),
{
    if s.len() > 0 {
        lemma_slug_pass_chars(s.drop_last());
        let o = slug_pass(s.drop_last()).0;
        assert forall|i: int| 0 <= i < slug_pass(s).0.len() implies slug_char(#[trigger] slug_pass(s).0[i]) by {
            if i < o.len() {
                assert(slug_pass(s).0[i] == o[i]);
            } else {
                let c = s.last();
                if is_ascii_alnum(c) {
                    assert(slug_pass(s).0[i] == ascii_lower(c));
                    if crate::text::is_ascii_upper(c) {
                        assert((c as u32) + 32 <= 'z' as u32);
                    }
                }
            }
        }
    }
}

proof fn lemma_strip_end_chars(s: Seq<char>, c: char)
    ensures
        exists|b: int| 0 <= b <= s.len() && strip_end(s, c) == #[trigger] s.subrange(0, b),
    decreases s.len(),
{
    if s.len() > 0 && s.last() == c {
        lemma_strip_end_chars(s.drop_last(), c);
        let b = choose|b: int| 0 <= b <= s.drop_last().len() && strip_end(s.drop_last(), c)
            == #[trigger] s.drop_last().subrange(0, b);
        assert(s.drop_last().subrange(0, b) =~= s.subrange(0, b));
    } else {
        assert(s.subrange(0, s.len() as int) =~= s);
    }
}

proof fn lemma_from_first_lower(s: Seq<char>)
    ensures
        exists|a: int| 0 <= a <= s.len() && from_first_lower(s) == #[trigger] s.subrange(a, s.len() as int),
        from_first_lower(s).len() > 0 ==> is_ascii_lower(from_first_lower(s)[0]),
    decreases s.len(),
{
    if s.len() == 0 || is_ascii_lower(s[0]) {
        assert(s.subrange(0, s.len() as int) =~= s);
    } else {
        lemma_from_first_lower(s.drop_first());
        let a = choose|a: int| 0 <= a <= s.drop_first().len() && from_first_lower(s.drop_first())
            == #[trigger] s.drop_first().subrange(a, s.drop_first().len() as int);
        assert(s.drop_first().subrange(a, s.drop_first().len() as int) =~= s.subrange(a + 1, s.len() as int));
    }
}

/// Law: a slug suggested from a display name, once it has at least three
/// characters, is a valid tenant slug.
pub proof fn lemma_slugify_valid(name: Seq<char>)
    requires
        slugify_spec(name).len() >= 3,
    ensures
        valid_slug(slugify_spec(name)),
{
    let o = slug_pass(name).0;
    lemma_slug_pass_chars(name);
    lemma_strip_end_chars(o, '_');
    let t1 = strip_end(o, '_');
    let b = choose|b: int| 0 <= b <= o.len() && t1 == #[trigger] o.subrange(0, b);
    lemma_from_first_lower(t1);
    let t = from_first_lower(t1);
    let a = choose|a: int| 0 <= a <= t1.len() && t == #[trigger] t1.subrange(a, t1.len() as int);
    let r = slugify_spec(name);
    assert forall|i: int| 0 <= i < r.len() implies slug_char(#[trigger] r[i]) by {
        assert(r[i] == t[i]);
        assert(t[i] == t1[a + i]);
        assert(t1[a + i] == o[a + i]);
    }
    assert(r[0] == t[0]);
}

} // verus!
