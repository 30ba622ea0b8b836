//! Character-level helpers shared by the parsers and formatters of the
//! library: strings are handled as sequences of `char`.
use vstd::prelude::*;

verus! {

// ───────────────────────── character classes ─────────────────────────

pub open spec fn is_digit(c: char) -> bool {
    '0' <= c && c <= '9'
}

pub open spec fn is_ascii_lower(c: char) -> bool {
    'a' <= c && c <= 'z'
}

pub open spec fn is_ascii_upper(c: char) -> bool {
    'A' <= c && c <= 'Z'
}

pub open spec fn is_ascii_alnum(c: char) -> bool {
    is_digit(c) || is_ascii_lower(c) || is_ascii_upper(c)
}

/// The Unicode `White_Space` property (what `char::is_whitespace` and
/// `str::trim` test for).
pub open spec fn is_white_space(c: char) -> bool {
    ||| ('\u{9}' <= c && c <= '\u{d}')
    ||| c == ' '
    ||| c == '\u{85}'
    ||| c == '\u{a0}'
    ||| c == '\u{1680}'
    ||| ('\u{2000}' <= c && c <= '\u{200a}')
    ||| c == '\u{2028}'
    ||| c == '\u{2029}'
    ||| c == '\u{202f}'
    ||| c == '\u{205f}'
    ||| c == '\u{3000}'
}

pub fn char_is_digit(c: char) -> (b: bool)
    ensures
        b == is_digit(c),
{
    '0' <= c && c <= '9'
}

pub fn char_is_ascii_lower(c: char) -> (b: bool)
    ensures
        b == is_ascii_lower(c),
{
    'a' <= c && c <= 'z'
}

pub fn char_is_ascii_alnum(c: char) -> (b: bool)
    ensures
        b == is_ascii_alnum(c),
{
    ('0' <= c && c <= '9') || ('a' <= c && c <= 'z') || ('A' <= c && c <= 'Z')
}

pub fn char_is_white_space(c: char) -> (b: bool)
    ensures
        b == is_white_space(c),
{
    ('\u{9}' <= c && c <= '\u{d}') || c == ' ' || c == '\u{85}' || c == '\u{a0}' || c
        == '\u{1680}' || ('\u{2000}' <= c && c <= '\u{200a}') || c == '\u{2028}' || c
        == '\u{2029}' || c == '\u{202f}' || c == '\u{205f}' || c == '\u{3000}'
}

/// ASCII lowercase of one character; other characters are unchanged.
pub open spec fn ascii_lower(c: char) -> char {
    if is_ascii_upper(c) {
        ((c as u32) + 32) as char
    } else {
        c
    }
}

/// ASCII lowercase of one character.
pub fn char_ascii_lower(c: char) -> (r: char)
    ensures
        r == ascii_lower(c),
{
    if 'A' <= c && c <= 'Z' {
        let b: u8 = c as u8;
        let l: u8 = b + 32;
        proof {
            assert((c as u32) < 128);
            assert(b as u32 == c as u32);
        }
        l as char
    } else {
        c
    }
}

// ───────────────────────── strings as char vectors ─────────────────────────

/// The characters of `s`, in order.
pub fn chars_of(s: &str) -> (v: Vec<char>)
    ensures
        v@ == s@,
{
    let mut v: Vec<char> = Vec::new();
    for c in it: s.chars()
        invariant
            v@ == it.seq().take(it.index() as int),
    {
        v.push(c);
    }
    v
}

/// Append one character to a string (std's `String::push`).
#[verifier::external_body]
pub(crate) fn push_char(s: &mut String, c: char)
    ensures
        final(s)@ == old(s)@.push(c),
{
    s.push(c);
}

/// A string holding exactly the characters of `v`.
pub fn string_from_chars(v: &Vec<char>) -> (s: String)
    ensures
        s@ == v@,
{
    let mut s = String::new();
    let mut i: usize = 0;
    while i < v.len()
        invariant
            i <= v.len(),
            s@ == v@.take(i as int),
        decreases v.len() - i,
    {
        push_char(&mut s, v[i]);
        proof {
            assert(v@.take(i + 1) == v@.take(i as int).push(v@[i as int]));
        }
        i += 1;
    }
    proof {
        assert(v@.take(v.len() as int) == v@);
    }
    s
}

/// Append the characters of `s` to `v`.
pub fn push_str(v: &mut Vec<char>, s: &str)
    ensures
        final(v)@ == old(v)@ + s@,
{
    let w = chars_of(s);
    push_all(v, &w);
}

/// Append all of `w` to `v`.
pub fn push_all(v: &mut Vec<char>, w: &Vec<char>)
    ensures
        final(v)@ == old(v)@ + w@,
{
    let ghost v0 = v@;
    let mut i: usize = 0;
    while i < w.len()
        invariant
            i <= w.len(),
            v@ == v0 + w@.take(i as int),
        decreases w.len() - i,
    {
        v.push(w[i]);
        proof {
            assert(w@.take(i + 1) == w@.take(i as int).push(w@[i as int]));
        }
        i += 1;
    }
    proof {
        assert(w@.take(w.len() as int) == w@);
    }
}

/// Whether two character sequences are equal.
pub fn chars_eq(a: &Vec<char>, b: &Vec<char>) -> (r: bool)
    ensures
        r == (a@ == b@),
{
    if a.len() != b.len() {
        return false;
    }
    let mut i: usize = 0;
    while i < a.len()
        invariant
            a.len() == b.len(),
            i <= a.len(),
            forall|j: int| 0 <= j < i ==> a@[j] == b@[j],
        decreases a.len() - i,
    {
        if a[i] != b[i] {
            return false;
        }
        i += 1;
    }
    proof {
        assert(a@ =~= b@);
    }
    true
}

/// Whether `v` equals the characters of the literal or slice `s`.
pub fn chars_eq_str(v: &Vec<char>, s: &str) -> (r: bool)
    ensures
        r == (v@ == s@),
{
    let w = chars_of(s);
    chars_eq(v, &w)
}

/// Whether `v` begins with `p`.
pub fn starts_with(v: &Vec<char>, p: &Vec<char>) -> (r: bool)
    ensures
        r == (p@.len() <= v@.len() && v@.subrange(0, p@.len() as int) == p@),
{
    if p.len() > v.len() {
        return false;
    }
    let mut i: usize = 0;
    while i < p.len()
        invariant
            p.len() <= v.len(),
            i <= p.len(),
            forall|j: int| 0 <= j < i ==> v@[j] == p@[j],
        decreases p.len() - i,
    {
        if v[i] != p[i] {
            proof {
                assert(v@.subrange(0, p@.len() as int)[i as int] != p@[i as int]);
            }
            return false;
        }
        i += 1;
    }
    proof {
        assert(v@.subrange(0, p@.len() as int) =~= p@);
    }
    true
}

/// The characters `v[lo..hi]`.
pub fn slice_chars(v: &Vec<char>, lo: usize, hi: usize) -> (w: Vec<char>)
    requires
        lo <= hi <= v.len(),
    ensures
        w@ == v@.subrange(lo as int, hi as int),
{
    let mut w: Vec<char> = Vec::new();
    let mut i = lo;
    while i < hi
        invariant
            lo <= i <= hi <= v.len(),
            w@ == v@.subrange(lo as int, i as int),
        decreases hi - i,
    {
        w.push(v[i]);
        proof {
            assert(v@.subrange(lo as int, i + 1) == v@.subrange(lo as int, i as int).push(
                v@[i as int],
            ));
        }
        i += 1;
    }
    w
}

/// Index of the first `c` in `s` at or after `i`, or -1.
pub open spec fn find_from(s: Seq<char>, c: char, i: int) -> int
    decreases s.len() - i,
{
    if i < 0 || i >= s.len() {
        -1
    } else if s[i] == c {
        i
    } else {
        find_from(s, c, i + 1)
    }
}

pub proof fn lemma_find_from(s: Seq<char>, c: char, i: int)
    requires
        0 <= i,
    ensures
        -1 <= find_from(s, c, i) < s.len(),
        find_from(s, c, i) >= 0 ==> find_from(s, c, i) >= i && s[find_from(s, c, i)] == c
            && forall|j: int| i <= j < find_from(s, c, i) ==> s[j] != c,
        find_from(s, c, i) < 0 ==> forall|j: int| i <= j < s.len() ==> s[j] != c,
    decreases s.len() - i,
{
    if i < s.len() && s[i] != c {
        lemma_find_from(s, c, i + 1);
    }
}

/// Index of the first `c` in `v`, if any.
pub fn find_char(v: &Vec<char>, c: char) -> (r: Option<usize>)
    ensures
        match r {
            Some(i) => i as int == find_from(v@, c, 0),
            None => find_from(v@, c, 0) == -1,
        },
{
    let mut i: usize = 0;
    while i < v.len()
        invariant
            i <= v.len(),
            find_from(v@, c, 0) == find_from(v@, c, i as int),
        decreases v.len() - i,
    {
        if v[i] == c {
            return Some(i);
        }
        i += 1;
    }
    None
}

// ───────────────────────── decimal numbers ─────────────────────────

pub open spec fn digit_char(d: nat) -> char {
    ((d + 48) as u8) as char
}

pub open spec fn digit_value(c: char) -> nat {
    ((c as int) - 48) as nat
}

/// Decimal representation of `n`, without leading zeros.
pub open spec fn nat_digits(n: nat) -> Seq<char>
    decreases n,
{
    if n < 10 {
        seq![digit_char(n)]
    } else {
        nat_digits(n / 10).push(digit_char(n % 10))
    }
}

/// `s` left-padded with zeros to at least `width` characters.
pub open spec fn zero_pad(s: Seq<char>, width: nat) -> Seq<char> {
    if s.len() >= width {
        s
    } else {
        Seq::new((width - s.len()) as nat, |_i: int| '0') + s
    }
}

/// `format!("{v}")` for an integer.
pub open spec fn int_str(v: int) -> Seq<char> {
    if v < 0 {
        seq!['-'] + nat_digits((-v) as nat)
    } else {
        nat_digits(v as nat)
    }
}

/// `format!("{v:0width$}")` for an integer: sign-aware zero padding.
pub open spec fn int_str_padded(v: int, width: nat) -> Seq<char> {
    if v < 0 {
        seq!['-'] + zero_pad(nat_digits((-v) as nat), (if width >= 1 { width - 1 } else { 0 }) as nat)
    } else {
        zero_pad(nat_digits(v as nat), width)
    }
}

pub open spec fn all_digits(s: Seq<char>) -> bool {
    forall|i: int| 0 <= i < s.len() ==> is_digit(#[trigger] s[i])
}

/// Value of a string of decimal digits.
pub open spec fn digits_val(s: Seq<char>) -> nat
    decreases s.len(),
{
    if s.len() == 0 {
        0
    } else {
        digits_val(s.drop_last()) * 10 + digit_value(s.last())
    }
}

/// What `str::parse` of an integer type gives, before the range check: an
/// optional `+` (or `-` for signed types) followed by at least one digit.
pub open spec fn parse_int_spec(s: Seq<char>, signed: bool) -> Option<int> {
    if s.len() == 0 {
        None
    } else if s[0] == '+' || (signed && s[0] == '-') {
        let d = s.drop_first();
        if d.len() > 0 && all_digits(d) {
            Some(if s[0] == '-' { -(digits_val(d) as int) } else { digits_val(d) as int })
        } else {
            None
        }
    } else if all_digits(s) {
        Some(digits_val(s) as int)
    } else {
        None
    }
}

pub open spec fn parse_in_range(s: Seq<char>, signed: bool, lo: int, hi: int) -> Option<int> {
    match parse_int_spec(s, signed) {
        Some(v) => if lo <= v <= hi { Some(v) } else { None },
        None => None,
    }
}

/// Digits of `n`, appended to `out`.
pub fn push_digits(out: &mut Vec<char>, n: u64)
    ensures
        final(out)@ == old(out)@ + nat_digits(n as nat),
    decreases n,
{
    if n >= 10 {
        push_digits(out, n / 10);
    }
    let d: u8 = (n % 10) as u8;
    out.push((d + 48) as char);
    proof {
        assert(nat_digits(n as nat) == if n < 10 {
            seq![digit_char(n as nat)]
        } else {
            nat_digits((n / 10) as nat).push(digit_char((n % 10) as nat))
        });
    }
}

pub proof fn lemma_nat_digits_len(n: nat)
    ensures
        nat_digits(n).len() >= 1,
        n < 10 ==> nat_digits(n).len() == 1,
        n >= 10 ==> nat_digits(n).len() == nat_digits(n / 10).len() + 1,
    decreases n,
{
    if n >= 10 {
        lemma_nat_digits_len(n / 10);
    }
}

/// `format!("{n:0width$}")` for a non-negative number, appended to `out`.
pub fn push_padded(out: &mut Vec<char>, n: u64, width: usize)
    ensures
        final(out)@ == old(out)@ + zero_pad(nat_digits(n as nat), width as nat),
{
    let mut d: Vec<char> = Vec::new();
    push_digits(&mut d, n);
    assert(d@ == nat_digits(n as nat));
    if d.len() < width {
        let pad = width - d.len();
        let ghost o = out@;
        let mut i: usize = 0;
        while i < pad
            invariant
                i <= pad,
                out@ == o + Seq::new(i as nat, |_j: int| '0'),
            decreases pad - i,
        {
            out.push('0');
            proof {
                assert(Seq::new((i + 1) as nat, |_j: int| '0') =~= Seq::new(i as nat, |_j: int| '0').push('0'));
            }
            i += 1;
        }
        push_all(out, &d);
        proof {
            assert(out@ =~= o + zero_pad(nat_digits(n as nat), width as nat));
        }
    } else {
        push_all(out, &d);
    }
}

/// `format!("{v:0width$}")` for a signed number, appended to `out`.
pub fn push_int_padded(out: &mut Vec<char>, v: i64, width: usize)
    ensures
        final(out)@ == old(out)@ + int_str_padded(v as int, width as nat),
{
    if v < 0 {
        let m: u64 = if v == i64::MIN { 9223372036854775808u64 } else { (-v) as u64 };
        let ghost o = out@;
        out.push('-');
        push_padded(out, m, if width >= 1 { width - 1 } else { 0 });
        proof {
            assert(out@ =~= o + int_str_padded(v as int, width as nat));
        }
    } else {
        push_padded(out, v as u64, width);
    }
}

/// `format!("{v}")` for a signed number, appended to `out`.
pub fn push_int(out: &mut Vec<char>, v: i64)
    ensures
        final(out)@ == old(out)@ + int_str(v as int),
{
    if v < 0 {
        let m: u64 = if v == i64::MIN { 9223372036854775808u64 } else { (-v) as u64 };
        let ghost o = out@;
        out.push('-');
        push_digits(out, m);
        proof {
            assert(out@ =~= o + int_str(v as int));
        }
    } else {
        push_digits(out, v as u64);
    }
}

/// Value of the digits `v[lo..hi]` when they are all digits, they are not
/// empty, and the value is at most `max`.
pub fn parse_digits(v: &Vec<char>, lo: usize, hi: usize, max: u64) -> (r: Option<u64>)
    requires
        lo <= hi <= v.len(),
    ensures
        ({
            let s = v@.subrange(lo as int, hi as int);
            match r {
                Some(n) => s.len() > 0 && all_digits(s) && n as nat == digits_val(s) && n <= max,
                None => !(s.len() > 0 && all_digits(s) && digits_val(s) <= max),
            }
        }),
{
    if lo == hi {
        return None;
    }
    let mut acc: u64 = 0;
    let mut i = lo;
    while i < hi
        invariant
            lo <= i <= hi <= v.len(),
            all_digits(v@.subrange(lo as int, i as int)),
            acc as nat == digits_val(v@.subrange(lo as int, i as int)),
            acc <= max,
        decreases hi - i,
    {
        let c = v[i];
        let ghost s1 = v@.subrange(lo as int, i + 1);
        proof {
            assert(s1.drop_last() =~= v@.subrange(lo as int, i as int));
            assert(s1.last() == c);
        }
        if !('0' <= c && c <= '9') {
            proof {
                assert(!all_digits(v@.subrange(lo as int, hi as int))) by {
                    assert(v@.subrange(lo as int, hi as int)[i - lo] == c);
                }
            }
            return None;
        }
        let d: u64 = (c as u32 - 48) as u64;
        if d > max || acc > (max - d) / 10 {
            proof {
                assert(digits_val(s1) == acc * 10 + d);
                assert(acc * 10 + d > max) by (nonlinear_arith)
                    requires
                        d > max || acc > (max - d) / 10,
                ;
                let whole = v@.subrange(lo as int, hi as int);
                if all_digits(whole) {
                    lemma_digits_val_prefix_mono(whole, (i + 1 - lo) as int);
                    assert(whole.subrange(0, (i + 1 - lo) as int) =~= s1);
                }
            }
            return None;
        }
        proof {
            assert(acc * 10 + d <= max) by (nonlinear_arith)
                requires
                    !(d > max || acc > (max - d) / 10),
            ;
        }
        acc = acc * 10 + d;
        i += 1;
    }
    Some(acc)
}


/// `str::parse` of a signed integer type whose range is `min..=max`, on the
/// characters `v[lo..hi]`.
pub fn parse_signed(v: &Vec<char>, lo: usize, hi: usize, min: i64, max: i64) -> (r: Option<i64>)
    requires
        lo <= hi <= v.len(),
        min <= 0 <= max,
    ensures
        match r {
            Some(x) => parse_in_range(v@.subrange(lo as int, hi as int), true, min as int, max as int)
                == Some(x as int),
            None => parse_in_range(v@.subrange(lo as int, hi as int), true, min as int, max as int)
                is None,
        },
{
    let ghost s = v@.subrange(lo as int, hi as int);
    if lo == hi {
        return None;
    }
    let c = v[lo];
    proof {
        assert(s[0] == c);
        assert(s.drop_first() =~= v@.subrange(lo + 1, hi as int));
    }
    if c == '+' {
        match parse_digits(v, lo + 1, hi, max as u64) {
            Some(n) => Some(n as i64),
            None => None,
        }
    } else if c == '-' {
        let mag: u64 = if min == i64::MIN { 9223372036854775808u64 } else { (-min) as u64 };
        match parse_digits(v, lo + 1, hi, mag) {
            Some(n) => {
                if n == 9223372036854775808u64 {
                    Some(i64::MIN)
                } else {
                    Some(-(n as i64))
                }
            },
            None => None,
        }
    } else {
        match parse_digits(v, lo, hi, max as u64) {
            Some(n) => Some(n as i64),
            None => None,
        }
    }
}

/// `str::parse` of an unsigned integer type whose maximum is `max`, on the
/// characters `v[lo..hi]`.
pub fn parse_unsigned(v: &Vec<char>, lo: usize, hi: usize, max: u64) -> (r: Option<u64>)
    requires
        lo <= hi <= v.len(),
    ensures
        match r {
            Some(x) => parse_in_range(v@.subrange(lo as int, hi as int), false, 0, max as int)
                == Some(x as int),
            None => parse_in_range(v@.subrange(lo as int, hi as int), false, 0, max as int)
                is None,
        },
{
    let ghost s = v@.subrange(lo as int, hi as int);
    if lo == hi {
        return None;
    }
    let c = v[lo];
    proof {
        assert(s[0] == c);
        assert(s.drop_first() =~= v@.subrange(lo + 1, hi as int));
    }
    if c == '+' {
        parse_digits(v, lo + 1, hi, max)
    } else {
        parse_digits(v, lo, hi, max)
    }
}

/// A longer digit prefix never has a smaller value.
pub proof fn lemma_digits_val_prefix_mono(s: Seq<char>, k: int)
    requires
        0 <= k <= s.len(),
        all_digits(s),
    ensures
        digits_val(s.subrange(0, k)) <= digits_val(s),
    decreases s.len() - k,
{
    if k < s.len() {
        lemma_digits_val_prefix_mono(s, k + 1);
        let t = s.subrange(0, k + 1);
        assert(t.drop_last() =~= s.subrange(0, k));
        assert(digits_val(t) == digits_val(s.subrange(0, k)) * 10 + digit_value(t.last()));
    } else {
        assert(s.subrange(0, k) =~= s);
    }
}

} // verus!

verus! {

// ───────────────────────── facts about decimal text ─────────────────────────

/// Lexicographic order of character sequences by code point (the order of
/// `String`'s `<`).
pub open spec fn seq_lt(a: Seq<char>, b: Seq<char>) -> bool
    decreases a.len(),
{
    if a.len() == 0 {
        b.len() > 0
    } else if b.len() == 0 {
        false
    } else if a[0] != b[0] {
        a[0] < b[0]
    } else {
        seq_lt(a.drop_first(), b.drop_first())
    }
}

pub proof fn lemma_digit_char(d: nat)
    requires
        d < 10,
    ensures
        is_digit(digit_char(d)),
        digit_value(digit_char(d)) == d,
{
}

pub proof fn lemma_nat_digits(n: nat)
    ensures
        all_digits(nat_digits(n)),
        digits_val(nat_digits(n)) == n,
        nat_digits(n).len() >= 1,
    decreases n,
{
    if n < 10 {
        lemma_digit_char(n);
        let s = nat_digits(n);
        assert(s.drop_last() =~= Seq::<char>::empty());
        assert(digits_val(s.drop_last()) == 0);
        assert(s.last() == digit_char(n));
    } else {
        lemma_nat_digits(n / 10);
        lemma_digit_char(n % 10);
        let s = nat_digits(n);
        assert(s.drop_last() =~= nat_digits(n / 10));
        assert(s.last() == digit_char((n % 10) as nat));
        assert(n == (n / 10) * 10 + n % 10);
        assert forall|i: int| 0 <= i < s.len() implies is_digit(#[trigger] s[i]) by {
            if i < s.len() - 1 {
                assert(s[i] == nat_digits(n / 10)[i]);
            }
        }
    }
}

pub proof fn lemma_nat_digits_small(n: nat)
    ensures
        n < 10 ==> nat_digits(n).len() == 1,
        n < 100 ==> nat_digits(n).len() <= 2,
        n < 1000 ==> nat_digits(n).len() <= 3,
        n < 10000 ==> nat_digits(n).len() <= 4,
{
    lemma_nat_digits_len(n);
    if n >= 10 {
        lemma_nat_digits_len(n / 10);
        if n / 10 >= 10 {
            lemma_nat_digits_len(n / 100);
            if n / 100 >= 10 {
                lemma_nat_digits_len(n / 1000);
                assert(n / 10 / 10 == n / 100);
                assert(n / 100 / 10 == n / 1000);
            }
        }
    }
}

pub proof fn lemma_zeros_val(z: Seq<char>)
    requires
        forall|i: int| 0 <= i < z.len() ==> z[i] == '0',
    ensures
        digits_val(z) == 0,
    decreases z.len(),
{
    if z.len() > 0 {
        lemma_zeros_val(z.drop_last());
    }
}

pub proof fn lemma_zero_prefix_val(z: Seq<char>, s: Seq<char>)
    requires
        forall|i: int| 0 <= i < z.len() ==> z[i] == '0',
    ensures
        digits_val(z + s) == digits_val(s),
    decreases s.len(),
{
    if s.len() == 0 {
        assert(z + s =~= z);
        lemma_zeros_val(z);
    } else {
        lemma_zero_prefix_val(z, s.drop_last());
        assert((z + s).drop_last() =~= z + s.drop_last());
    }
}

pub proof fn lemma_zero_pad(s: Seq<char>, w: nat)
    requires
        all_digits(s),
    ensures
        all_digits(zero_pad(s, w)),
        digits_val(zero_pad(s, w)) == digits_val(s),
        zero_pad(s, w).len() == if s.len() >= w { s.len() } else { w },
{
    if s.len() < w {
        let z = Seq::new((w - s.len()) as nat, |_i: int| '0');
        lemma_zero_prefix_val(z, s);
        let t = zero_pad(s, w);
        assert forall|i: int| 0 <= i < t.len() implies is_digit(#[trigger] t[i]) by {
            if i >= z.len() {
                assert(t[i] == s[i - z.len()]);
            }
        }
    }
}

/// Parsing a non-empty string of digits gives its value.
pub proof fn lemma_parse_digits(s: Seq<char>, signed: bool)
    requires
        s.len() > 0,
        all_digits(s),
    ensures
        parse_int_spec(s, signed) == Some(digits_val(s) as int),
{
    assert(is_digit(s[0]));
}

/// The first `c` at or after `i`, when the characters from `i` up to `k`
/// are not `c` and the one at `k` is.
pub proof fn lemma_find_at(s: Seq<char>, c: char, i: int, k: int)
    requires
        0 <= i <= k < s.len(),
        s[k] == c,
        forall|j: int| i <= j < k ==> s[j] != c,
    ensures
        find_from(s, c, i) == k,
    decreases k - i,
{
    if i < k {
        lemma_find_at(s, c, i + 1, k);
    }
}

/// Comparing two texts that start with parts of the same length: the first
/// parts decide unless they are equal.
pub proof fn lemma_seq_lt_concat(a1: Seq<char>, t1: Seq<char>, a2: Seq<char>, t2: Seq<char>)
    requires
        a1.len() == a2.len(),
    ensures
        seq_lt(a1 + t1, a2 + t2) == if a1 == a2 {
            seq_lt(t1, t2)
        } else {
            seq_lt(a1, a2)
        },
    decreases a1.len(),
{
    if a1.len() == 0 {
        assert(a1 + t1 =~= t1);
        assert(a2 + t2 =~= t2);
        assert(a1 =~= a2);
    } else {
        let l = a1 + t1;
        let r = a2 + t2;
        assert(l[0] == a1[0]);
        assert(r[0] == a2[0]);
        if a1[0] == a2[0] {
            assert(l.drop_first() =~= a1.drop_first() + t1);
            assert(r.drop_first() =~= a2.drop_first() + t2);
            lemma_seq_lt_concat(a1.drop_first(), t1, a2.drop_first(), t2);
            if a1.drop_first() == a2.drop_first() {
                assert(a1 =~= a2) by {
                    assert forall|i: int| 0 <= i < a1.len() implies a1[i] == a2[i] by {
                        if i > 0 {
                            assert(a1[i] == a1.drop_first()[i - 1]);
                            assert(a2[i] == a2.drop_first()[i - 1]);
                        }
                    }
                }
            } else {
                assert(a1 != a2) by {
                    if a1 == a2 {
                        assert(a1.drop_first() =~= a2.drop_first());
                    }
                }
            }
        } else {
            assert(a1 != a2);
        }
    }
}

/// Equal-length digit strings compare as text exactly as their values do.
pub proof fn lemma_digits_order(a: Seq<char>, b: Seq<char>)
    requires
        all_digits(a),
        all_digits(b),
        a.len() == b.len(),
    ensures
        seq_lt(a, b) == (digits_val(a) < digits_val(b)),
        (a == b) == (digits_val(a) == digits_val(b)),
    decreases a.len(),
{
    if a.len() == 0 {
        assert(a =~= b);
    } else {
        let a1 = a.drop_last();
        let b1 = b.drop_last();
        assert(all_digits(a1)) by {
            assert forall|i: int| 0 <= i < a1.len() implies is_digit(#[trigger] a1[i]) by {
                assert(a1[i] == a[i]);
            }
        }
        assert(all_digits(b1)) by {
            assert forall|i: int| 0 <= i < b1.len() implies is_digit(#[trigger] b1[i]) by {
                assert(b1[i] == b[i]);
            }
        }
        lemma_digits_order(a1, b1);
        let x = a.last();
        let y = b.last();
        assert(is_digit(a[a.len() - 1]));
        assert(is_digit(b[b.len() - 1]));
        assert(a =~= a1 + seq![x]);
        assert(b =~= b1 + seq![y]);
        lemma_seq_lt_concat(a1, seq![x], b1, seq![y]);
        assert(seq_lt(seq![x], seq![y]) == (x < y)) by {
            reveal_with_fuel(seq_lt, 2);
            if x == y {
                assert(seq![x].drop_first() =~= Seq::<char>::empty());
                assert(seq![y].drop_first() =~= Seq::<char>::empty());
            }
        }
        if a1 == b1 {
        } else {
            assert(a != b) by {
                if a == b {
                    assert(a1 =~= b1);
                }
            }
        }
    }
}

} // verus!

verus! {

// ───────────────────────── trimming and searching ─────────────────────────

/// `s` without leading white space.
pub open spec fn trim_start(s: Seq<char>) -> Seq<char>
    decreases s.len(),
{
    if s.len() > 0 && is_white_space(s[0]) {
        trim_start(s.drop_first())
    } else {
        s
    }
}

/// `s` without trailing white space.
pub open spec fn trim_end(s: Seq<char>) -> Seq<char>
    decreases s.len(),
{
    if s.len() > 0 && is_white_space(s.last()) {
        trim_end(s.drop_last())
    } else {
        s
    }
}

/// `str::trim`: `s` without leading and trailing white space.
pub open spec fn trim(s: Seq<char>) -> Seq<char> {
    trim_end(trim_start(s))
}

proof fn lemma_trim_start_head(s: Seq<char>)
    ensures
        trim_start(s).len() > 0 ==> !is_white_space(trim_start(s)[0]),
    decreases s.len(),
{
    if s.len() > 0 && is_white_space(s[0]) {
        lemma_trim_start_head(s.drop_first());
    }
}

proof fn lemma_trim_end_shape(s: Seq<char>)
    ensures
        trim_end(s).len() > 0 ==> !is_white_space(trim_end(s).last()),
        trim_end(s).len() > 0 ==> trim_end(s)[0] == s[0],
        trim_end(s).len() <= s.len(),
    decreases s.len(),
{
    if s.len() > 0 && is_white_space(s.last()) {
        lemma_trim_end_shape(s.drop_last());
    }
}

proof fn lemma_trim_start_noop(s: Seq<char>)
    requires
        s.len() == 0 || !is_white_space(s[0]),
    ensures
        trim_start(s) == s,
{
}

proof fn lemma_trim_end_noop(s: Seq<char>)
    requires
        s.len() == 0 || !is_white_space(s.last()),
    ensures
        trim_end(s) == s,
{
}

/// Trimming twice is trimming once.
pub proof fn lemma_trim_idempotent(s: Seq<char>)
    ensures
        trim(trim(s)) == trim(s),
{
    let a = trim_start(s);
    lemma_trim_start_head(s);
    lemma_trim_end_shape(a);
    let t = trim_end(a);
    lemma_trim_start_noop(t);
    lemma_trim_end_noop(t);
}

/// Bounds of the trimmed part of `v`.
pub fn trim_bounds(v: &Vec<char>) -> (r: (usize, usize))
    ensures
        r.0 <= r.1 <= v.len(),
        v@.subrange(r.0 as int, r.1 as int) == trim(v@),
{
    let n = v.len();
    let mut i: usize = 0;
    proof {
        assert(v@.subrange(0, n as int) =~= v@);
    }
    while i < n && char_is_white_space(v[i])
        invariant
            n == v.len(),
            i <= n,
            trim_start(v@) == trim_start(v@.subrange(i as int, n as int)),
        decreases n - i,
    {
        proof {
            let t = v@.subrange(i as int, n as int);
            assert(t.drop_first() =~= v@.subrange(i + 1, n as int));
        }
        i += 1;
    }
    proof {
        assert(v@.subrange(0, n as int) =~= v@);
    }
    let ghost start = v@.subrange(i as int, n as int);
    assert(trim_start(v@) == start);
    let mut j: usize = n;
    while j > i && char_is_white_space(v[j - 1])
        invariant
            n == v.len(),
            i <= j <= n,
            trim_end(start) == trim_end(v@.subrange(i as int, j as int)),
        decreases j - i,
    {
        proof {
            let t = v@.subrange(i as int, j as int);
            assert(t.drop_last() =~= v@.subrange(i as int, j - 1));
            assert(t.last() == v@[j - 1]);
        }
        j -= 1;
    }
    proof {
        assert(start =~= v@.subrange(i as int, n as int));
    }
    (i, j)
}

/// `s.trim()`, as characters.
pub fn trim_chars(s: &str) -> (w: Vec<char>)
    ensures
        w@ == trim(s@),
{
    let v = chars_of(s);
    let (a, b) = trim_bounds(&v);
    slice_chars(&v, a, b)
}

/// `s.trim().to_string()`.
pub fn trim_string(s: &str) -> (w: String)
    ensures
        w@ == trim(s@),
{
    let v = trim_chars(s);
    string_from_chars(&v)
}

/// Whether `p` occurs in `s` at position `i`.
pub open spec fn occurs_at(s: Seq<char>, p: Seq<char>, i: int) -> bool {
    0 <= i && i + p.len() <= s.len() && s.subrange(i, i + p.len()) == p
}

/// Index of the first occurrence of `p` in `s` at or after `i`, or -1.
pub open spec fn find_sub_from(s: Seq<char>, p: Seq<char>, i: int) -> int
    decreases s.len() + 1 - i,
{
    if i < 0 || i + p.len() > s.len() {
        -1
    } else if s.subrange(i, i + p.len()) == p {
        i
    } else {
        find_sub_from(s, p, i + 1)
    }
}

pub proof fn lemma_find_sub_from(s: Seq<char>, p: Seq<char>, i: int)
    requires
        0 <= i,
    ensures
        find_sub_from(s, p, i) >= 0 ==> find_sub_from(s, p, i) >= i && occurs_at(s, p, find_sub_from(s, p, i)),
        find_sub_from(s, p, i) < 0 ==> find_sub_from(s, p, i) == -1,
    decreases s.len() + 1 - i,
{
    if i + p.len() <= s.len() && s.subrange(i, i + p.len()) != p {
        lemma_find_sub_from(s, p, i + 1);
    }
}

/// Index of the first occurrence of `p` in `v`, if any.
pub fn find_sub(v: &Vec<char>, p: &Vec<char>) -> (r: Option<usize>)
    ensures
        match r {
            Some(i) => i as int == find_sub_from(v@, p@, 0) && occurs_at(v@, p@, i as int),
            None => find_sub_from(v@, p@, 0) == -1,
        },
{
    proof {
        lemma_find_sub_from(v@, p@, 0);
    }
    if p.len() > v.len() {
        return None;
    }
    if p.len() == 0 {
        proof {
            assert(v@.subrange(0, 0) =~= p@);
        }
        return Some(0);
    }
    let last = v.len() - p.len();
    let mut i: usize = 0;
    while i <= last
        invariant
            last == v.len() - p.len(),
            1 <= p.len() <= v.len(),
            i <= last + 1,
            find_sub_from(v@, p@, 0) == find_sub_from(v@, p@, i as int),
        decreases last + 1 - i,
    {
        let tail = slice_chars(v, i, v.len());
        if starts_with(&tail, p) {
            proof {
                assert(tail@.subrange(0, p@.len() as int) =~= v@.subrange(i as int, i + p@.len()));
            }
            return Some(i);
        }
        proof {
            assert(tail@.subrange(0, p@.len() as int) =~= v@.subrange(i as int, i + p@.len()));
        }
        i += 1;
    }
    None
}

/// Whether `s` contains `p`.
pub fn contains_str(v: &Vec<char>, p: &str) -> (b: bool)
    ensures
        b == (find_sub_from(v@, p@, 0) >= 0),
{
    let pv = chars_of(p);
    match find_sub(v, &pv) {
        Some(_) => true,
        None => false,
    }
}

// ───────────────────────── Unicode case mapping ─────────────────────────

/// What std's `str::to_lowercase` gives for `s` (Unicode lowercase mapping).
pub uninterp spec fn unicode_lowercase(s: Seq<char>) -> Seq<char>;

/// Each character of `s` in ASCII lowercase (`A`–`Z` to `a`–`z`, all
/// else kept).
pub open spec fn ascii_lower_seq(s: Seq<char>) -> Seq<char> {
    s.map_values(|c: char| ascii_lower(c))
}

/// std: `str::to_lowercase`. Its result is a function of `s` alone; the
/// Unicode tables are not written out here. The lowercase mapping std
/// documents (Unicode's) takes `A`–`Z` to `a`–`z` and leaves every other
/// ASCII character as it is, so for ASCII text that much is stated.
#[verifier::external_body]
pub(crate) fn to_lowercase(s: &str) -> (r: String)
    ensures
        r@ == unicode_lowercase(s@),
        vstd::utf8::is_ascii_chars(s@) ==> r@ == ascii_lower_seq(s@),
{
    s.to_lowercase()
}

/// What std's `char::to_uppercase` yields for `c` (Unicode uppercase mapping).
pub uninterp spec fn unicode_uppercase(c: char) -> Seq<char>;

/// std: `char::to_uppercase`, collected. Its result is a function of `c`
/// alone; the Unicode tables are not written out here.
#[verifier::external_body]
pub(crate) fn char_to_uppercase(c: char) -> (r: Vec<char>)
    ensures
        r@ == unicode_uppercase(c),
{
    c.to_uppercase().collect()
}

} // verus!

verus! {

// ───────────────────────── text order ─────────────────────────

pub proof fn lemma_seq_lt_irreflexive(a: Seq<char>)
    ensures
        !seq_lt(a, a),
    decreases a.len(),
{
    if a.len() > 0 {
        lemma_seq_lt_irreflexive(a.drop_first());
    }
}

pub proof fn lemma_seq_lt_transitive(a: Seq<char>, b: Seq<char>, c: Seq<char>)
    requires
        seq_lt(a, b),
        seq_lt(b, c),
    ensures
        seq_lt(a, c),
    decreases a.len(),
{
    if a.len() > 0 && b.len() > 0 && c.len() > 0 && a[0] == b[0] && b[0] == c[0] {
        lemma_seq_lt_transitive(a.drop_first(), b.drop_first(), c.drop_first());
    }
}

pub proof fn lemma_seq_lt_total(a: Seq<char>, b: Seq<char>)
    ensures
        a == b || seq_lt(a, b) || seq_lt(b, a),
        !(seq_lt(a, b) && seq_lt(b, a)),
    decreases a.len(),
{
    if a.len() > 0 && b.len() > 0 && a[0] == b[0] {
        lemma_seq_lt_total(a.drop_first(), b.drop_first());
        if a.drop_first() == b.drop_first() {
            assert(a =~= b) by {
                assert forall|i: int| 0 <= i < a.len() implies a[i] == b[i] by {
                    if i > 0 {
                        assert(a[i] == a.drop_first()[i - 1]);
                        assert(b[i] == b.drop_first()[i - 1]);
                    }
                }
            }
        }
    } else if a.len() == 0 && b.len() == 0 {
        assert(a =~= b);
    }
}

/// Whether `a` sorts before `b`.
pub fn chars_lt(a: &Vec<char>, b: &Vec<char>) -> (r: bool)
    ensures
        r == seq_lt(a@, b@),
{
    let mut i: usize = 0;
    proof {
        assert(a@.skip(0) =~= a@);
        assert(b@.skip(0) =~= b@);
    }
    while i < a.len() && i < b.len()
        invariant
            i <= a.len(),
            i <= b.len(),
            seq_lt(a@, b@) == seq_lt(a@.skip(i as int), b@.skip(i as int)),
        decreases a.len() - i,
    {
        let ghost sa = a@.skip(i as int);
        let ghost sb = b@.skip(i as int);
        let x = a[i];
        let y = b[i];
        assert(sa[0] == x);
        assert(sb[0] == y);
        if x != y {
            return x < y;
        }
        proof {
            assert(sa.drop_first() =~= a@.skip(i + 1));
            assert(sb.drop_first() =~= b@.skip(i + 1));
        }
        i += 1;
    }
    proof {
        assert(a@.skip(i as int).len() == 0 || b@.skip(i as int).len() == 0);
    }
    b.len() > a.len() && i == a.len()
}

// ───────────────────────── grouping by text keys ─────────────────────────

/// Sum of the amounts whose key is `k`.
pub open spec fn key_total(e: Seq<(Seq<char>, int)>, k: Seq<char>) -> int
    decreases e.len(),
{
    if e.len() == 0 {
        0
    } else {
        key_total(e.drop_last(), k) + if e.last().0 == k {
            e.last().1
        } else {
            0
        }
    }
}

pub open spec fn has_key(e: Seq<(Seq<char>, int)>, k: Seq<char>) -> bool {
    exists|i: int| 0 <= i < e.len() && #[trigger] e[i].0 == k
}

/// `g` lists each key of `e` once, in ascending text order, with the sum of
/// the amounts of that key.
pub open spec fn grouped(e: Seq<(Seq<char>, int)>, g: Seq<(Seq<char>, int)>) -> bool {
    &&& forall|i: int, j: int| 0 <= i < j < g.len() ==> seq_lt(#[trigger] g[i].0, #[trigger] g[j].0)
    &&& forall|k: Seq<char>| has_key(g, k) <==> has_key(e, k)
    &&& forall|i: int| 0 <= i < g.len() ==> #[trigger] g[i].1 == key_total(e, g[i].0)
}

pub open spec fn entries_view(v: Seq<(Vec<char>, i64)>) -> Seq<(Seq<char>, int)> {
    v.map_values(|p: (Vec<char>, i64)| (p.0@, p.1 as int))
}

pub proof fn lemma_key_total_absent(e: Seq<(Seq<char>, int)>, k: Seq<char>)
    requires
        !has_key(e, k),
    ensures
        key_total(e, k) == 0,
    decreases e.len(),
{
    if e.len() > 0 {
        assert(!has_key(e.drop_last(), k)) by {
            if has_key(e.drop_last(), k) {
                let i = choose|i: int| 0 <= i < e.drop_last().len() && #[trigger] e.drop_last()[i].0 == k;
                assert(e[i].0 == k);
            }
        }
        assert(e[e.len() - 1].0 != k);
        lemma_key_total_absent(e.drop_last(), k);
    }
}

proof fn lemma_has_key_push(e: Seq<(Seq<char>, int)>, x: (Seq<char>, int), k: Seq<char>)
    ensures
        has_key(e.push(x), k) == (has_key(e, k) || x.0 == k),
{
    let f = e.push(x);
    if has_key(e, k) {
        let j = choose|j: int| 0 <= j < e.len() && #[trigger] e[j].0 == k;
        assert(f[j].0 == k);
    }
    if x.0 == k {
        assert(f[e.len() as int].0 == k);
    }
    if has_key(f, k) {
        let j = choose|j: int| 0 <= j < f.len() && #[trigger] f[j].0 == k;
        if j < e.len() {
            assert(e[j].0 == k);
        }
    }
}

proof fn lemma_key_total_push(e: Seq<(Seq<char>, int)>, x: (Seq<char>, int), k: Seq<char>)
    ensures
        key_total(e.push(x), k) == key_total(e, k) + if x.0 == k {
            x.1
        } else {
            0
        },
{
    assert(e.push(x).drop_last() =~= e);
}

/// Adding an entry whose key already has a group at `p`.
proof fn lemma_group_update(
    e: Seq<(Seq<char>, int)>,
    g: Seq<(Seq<char>, int)>,
    x: (Seq<char>, int),
    p: int,
)
    requires
        grouped(e, g),
        0 <= p < g.len(),
        g[p].0 == x.0,
    ensures
        grouped(e.push(x), g.update(p, (x.0, g[p].1 + x.1))),
{
    let e2 = e.push(x);
    let g2 = g.update(p, (x.0, g[p].1 + x.1));
    assert forall|k: Seq<char>| has_key(g2, k) <==> has_key(e2, k) by {
        lemma_has_key_push(e, x, k);
        if has_key(g2, k) {
            let q = choose|q: int| 0 <= q < g2.len() && #[trigger] g2[q].0 == k;
            assert(g[q].0 == k);
        }
        if has_key(g, k) {
            let q = choose|q: int| 0 <= q < g.len() && #[trigger] g[q].0 == k;
            assert(g2[q].0 == k);
        }
    }
    assert forall|i: int| 0 <= i < g2.len() implies #[trigger] g2[i].1 == key_total(e2, g2[i].0) by {
        lemma_key_total_push(e, x, g2[i].0);
        if i != p {
            lemma_seq_lt_irreflexive(x.0);
            if i < p {
                assert(seq_lt(g[i].0, g[p].0));
            } else {
                assert(seq_lt(g[p].0, g[i].0));
            }
        }
    }
}

/// Adding an entry whose key has no group: it goes in at `p`, after the
/// groups below it.
proof fn lemma_group_insert(
    e: Seq<(Seq<char>, int)>,
    g: Seq<(Seq<char>, int)>,
    x: (Seq<char>, int),
    p: int,
)
    requires
        grouped(e, g),
        0 <= p <= g.len(),
        forall|i: int| 0 <= i < p ==> seq_lt(#[trigger] g[i].0, x.0),
        p < g.len() ==> seq_lt(x.0, g[p].0),
    ensures
        grouped(e.push(x), g.take(p).push(x) + g.skip(p)),
{
    let e2 = e.push(x);
    let g2 = g.take(p).push(x) + g.skip(p);
    assert(g2.len() == g.len() + 1);
    assert forall|i: int| 0 <= i < g2.len() && i != p implies #[trigger] g2[i] == g[if i < p { i } else { i - 1 }] by {}
    assert(g2[p] == x);
    // x's key is not among the groups
    assert(!has_key(g, x.0)) by {
        if has_key(g, x.0) {
            let q = choose|q: int| 0 <= q < g.len() && #[trigger] g[q].0 == x.0;
            lemma_seq_lt_irreflexive(x.0);
            if q > p {
                assert(seq_lt(g[p].0, g[q].0));
                lemma_seq_lt_transitive(x.0, g[p].0, g[q].0);
            }
        }
    }
    lemma_key_total_absent(e, x.0);
    assert forall|i: int, j: int| 0 <= i < j < g2.len() implies seq_lt(
        #[trigger] g2[i].0,
        #[trigger] g2[j].0,
    ) by {
        if j < p {
        } else if j == p {
        } else if i < p {
            lemma_seq_lt_transitive(g[i].0, x.0, g[p].0);
            if j - 1 > p {
                assert(seq_lt(g[p].0, g[j - 1].0));
                lemma_seq_lt_transitive(g[i].0, g[p].0, g[j - 1].0);
            }
        } else if i == p {
            if j - 1 > p {
                assert(seq_lt(g[p].0, g[j - 1].0));
                lemma_seq_lt_transitive(x.0, g[p].0, g[j - 1].0);
            }
        } else {
            assert(seq_lt(g[i - 1].0, g[j - 1].0));
        }
    }
    assert forall|k: Seq<char>| has_key(g2, k) <==> has_key(e2, k) by {
        lemma_has_key_push(e, x, k);
        if has_key(g2, k) {
            let q = choose|q: int| 0 <= q < g2.len() && #[trigger] g2[q].0 == k;
            if q != p {
                let q0 = if q < p { q } else { q - 1 };
                assert(g[q0].0 == k);
            }
        }
        if has_key(g, k) {
            let q = choose|q: int| 0 <= q < g.len() && #[trigger] g[q].0 == k;
            if q < p {
                assert(g2[q].0 == k);
            } else {
                assert(g2[q + 1].0 == k);
            }
        }
        if x.0 == k {
            assert(g2[p].0 == k);
        }
    }
    assert forall|i: int| 0 <= i < g2.len() implies #[trigger] g2[i].1 == key_total(e2, g2[i].0) by {
        lemma_key_total_push(e, x, g2[i].0);
        if i != p {
            let i0 = if i < p { i } else { i - 1 };
            assert(g[i0].0 != x.0) by {
                if g[i0].0 == x.0 {
                    assert(has_key(g, x.0));
                }
            }
        }
    }
}

/// Every running total of every key, taking the entries in order, fits in
/// `i64` (what adding each amount to its key's `i64` total needs).
pub open spec fn key_totals_fit(e: Seq<(Seq<char>, int)>) -> bool {
    forall|n: int, k: Seq<char>|
        0 <= n <= e.len() ==> i64::MIN <= #[trigger] key_total(e.take(n), k) <= i64::MAX
}

/// Group `(key, amount)` entries by key: one entry per key, ascending by key
/// text, with the sum of that key's amounts.
pub fn group_by_key(entries: &Vec<(Vec<char>, i64)>) -> (g: Vec<(Vec<char>, i64)>)
    requires
        key_totals_fit(entries_view(entries@)),
    ensures
        grouped(entries_view(entries@), entries_view(g@)),
{
    let ghost e = entries_view(entries@);
    let mut g: Vec<(Vec<char>, i64)> = Vec::new();
    let mut n: usize = 0;
    proof {
        assert(e.take(0) =~= Seq::<(Seq<char>, int)>::empty());
        assert(entries_view(g@) =~= Seq::<(Seq<char>, int)>::empty());
    }
    while n < entries.len()
        invariant
            n <= entries.len(),
            e == entries_view(entries@),
            key_totals_fit(e),
            grouped(e.take(n as int), entries_view(g@)),
        decreases entries.len() - n,
    {
        let ghost before = e.take(n as int);
        let ghost after = e.take(n + 1);
        let k = entries[n].0.clone();
        let a = entries[n].1;
        let ghost x = (k@, a as int);
        proof {
            assert(after =~= before.push(x));
            assert(i64::MIN <= key_total(e.take(n + 1), k@) <= i64::MAX);
        }
        let mut p: usize = 0;
        while p < g.len() && chars_lt(&g[p].0, &k)
            invariant
                p <= g.len(),
                forall|i: int| 0 <= i < p ==> seq_lt(#[trigger] entries_view(g@)[i].0, k@),
            decreases g.len() - p,
        {
            p += 1;
        }
        let ghost gv = entries_view(g@);
        if p < g.len() && chars_eq(&g[p].0, &k) {
            proof {
                lemma_key_total_push(before, x, k@);
            }
            let t = g[p].1 + a;
            let key = g[p].0.clone();
            g.set(p, (key, t));
            proof {
                lemma_group_update(before, gv, x, p as int);
                assert(entries_view(g@) =~= gv.update(p as int, (x.0, gv[p as int].1 + x.1)));
            }
        } else {
            proof {
                if p < gv.len() {
                    lemma_seq_lt_total(gv[p as int].0, k@);
                }
                lemma_group_insert(before, gv, x, p as int);
            }
            g.insert(p, (k, a));
            proof {
                assert(entries_view(g@) =~= gv.take(p as int).push(x) + gv.skip(p as int));
            }
        }
        n += 1;
    }
    proof {
        assert(e.take(entries.len() as int) =~= e);
    }
    g
}

} // verus!
