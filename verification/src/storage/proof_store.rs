use vstd::prelude::*;

use crate::storage::error::Error;
use crate::text::{
    char_is_ascii_alnum, chars_eq_str, chars_of, contains_str, find_char, find_from, find_sub_from,
    is_ascii_alnum, lemma_find_from, push_all, push_str, slice_chars, string_from_chars,
    to_lowercase, unicode_lowercase,
};

verus! {

/// Characters kept as they are in a path fragment.
pub open spec fn frag_char(c: char) -> bool {
    is_ascii_alnum(c) || c == '.' || c == '_' || c == '-'
}

/// `local@domain` becomes `local_at_domain` (at the first `@`).
pub open spec fn merge_at(s: Seq<char>) -> Seq<char> {
    let k = find_from(s, '@', 0);
    if k < 0 {
        s
    } else {
        s.subrange(0, k) + "_at_"@ + s.subrange(k + 1, s.len() as int)
    }
}

/// Keep fragment characters; every run of other characters becomes one
/// `-`. Also gives whether the text so far ends in such a replacement.
pub open spec fn collapse(s: Seq<char>) -> (Seq<char>, bool)
    decreases s.len(),
{
    if s.len() == 0 {
        (Seq::empty(), false)
    } else {
        let (o, d) = collapse(s.drop_last());
        if frag_char(s.last()) {
            (o.push(s.last()), false)
        } else if !d {
            (o.push('-'), true)
        } else {
            (o, d)
        }
    }
}

/// `s` without leading `c`s.
pub open spec fn strip_start(s: Seq<char>, c: char) -> Seq<char>
    decreases s.len(),
{
    if s.len() > 0 && s[0] == c {
        strip_start(s.drop_first(), c)
    } else {
        s
    }
}

/// `s` without trailing `c`s.
pub open spec fn strip_end(s: Seq<char>, c: char) -> Seq<char>
    decreases s.len(),
{
    if s.len() > 0 && s.last() == c {
        strip_end(s.drop_last(), c)
    } else {
        s
    }
}

/// The path fragment for an email: lowercased, `@` spelled `_at_`, runs of
/// other characters than `[A-Za-z0-9._-]` collapsed to `-`, and `-` trimmed
/// from both ends.
pub open spec fn email_frag(email: Seq<char>) -> Seq<char> {
    frag_of_lower(unicode_lowercase(email))
}

/// The path fragment built from an already lowercased email.
pub open spec fn frag_of_lower(lower: Seq<char>) -> Seq<char> {
    strip_end(strip_start(collapse(merge_at(lower)).0, '-'), '-')
}

proof fn lemma_collapse_safe(s: Seq<char>)
    ensures
        forall|i: int| 0 <= i < collapse(s).0.len() ==> frag_char(#[trigger] collapse(s).0[i]),
    decreases s.len(),
{
    if s.len() > 0 {
        lemma_collapse_safe(s.drop_last());
        let o = collapse(s.drop_last()).0;
        assert forall|i: int| 0 <= i < collapse(s).0.len() implies frag_char(#[trigger] collapse(s).0[i]) by {
            if i < o.len() {
                assert(collapse(s).0[i] == o[i]);
            }
        }
    }
}

proof fn lemma_strip_start(s: Seq<char>, c: char)
    ensures
        exists|a: int| 0 <= a <= s.len() && strip_start(s, c) == #[trigger] s.subrange(a, s.len() as int),
        strip_start(s, c).len() > 0 ==> strip_start(s, c)[0] != c,
    decreases s.len(),
{
    if s.len() > 0 && s[0] == c {
        lemma_strip_start(s.drop_first(), c);
        let a = choose|a: int| 0 <= a <= s.drop_first().len() && strip_start(s.drop_first(), c)
            == #[trigger] s.drop_first().subrange(a, s.drop_first().len() as int);
        assert(s.drop_first().subrange(a, s.drop_first().len() as int) =~= s.subrange(a + 1, s.len() as int));
    } else {
        assert(s.subrange(0, s.len() as int) =~= s);
    }
}

proof fn lemma_strip_end(s: Seq<char>, c: char)
    ensures
        exists|b: int| 0 <= b <= s.len() && strip_end(s, c) == #[trigger] s.subrange(0, b),
        strip_end(s, c).len() > 0 ==> strip_end(s, c).last() != c,
        s.len() > 0 && s[0] != c ==> strip_end(s, c).len() > 0 && strip_end(s, c)[0] == s[0],
    decreases s.len(),
{
    if s.len() > 0 && s.last() == c {
        lemma_strip_end(s.drop_last(), c);
        let b = choose|b: int| 0 <= b <= s.drop_last().len() && strip_end(s.drop_last(), c)
            == #[trigger] s.drop_last().subrange(0, b);
        assert(s.drop_last().subrange(0, b) =~= s.subrange(0, b));
    } else {
        assert(s.subrange(0, s.len() as int) =~= s);
    }
}

/// Law: a fragment holds only `[A-Za-z0-9._-]` and neither starts nor ends
/// with `-`.
pub proof fn lemma_email_frag_safe(email: Seq<char>)
    ensures
        forall|i: int| 0 <= i < email_frag(email).len() ==> frag_char(#[trigger] email_frag(email)[i]),
        email_frag(email).len() > 0 ==> email_frag(email)[0] != '-' && email_frag(email).last() != '-',
{
    let c = collapse(merge_at(unicode_lowercase(email))).0;
    lemma_collapse_safe(merge_at(unicode_lowercase(email)));
    let s1 = strip_start(c, '-');
    lemma_strip_start(c, '-');
    lemma_strip_end(s1, '-');
    let a = choose|a: int| 0 <= a <= c.len() && s1 == #[trigger] c.subrange(a, c.len() as int);
    let b = choose|b: int| 0 <= b <= s1.len() && strip_end(s1, '-') == #[trigger] s1.subrange(0, b);
    assert forall|i: int| 0 <= i < email_frag(email).len() implies frag_char(#[trigger] email_frag(email)[i]) by {
        assert(email_frag(email)[i] == c[a + i]);
    }
}

/// Filesystem-safe path fragment for an email, e.g. `alice@example.com` →
/// `alice_at_example.com`. Not reversible.
pub fn sanitize_email_frag(email: &str) -> (r: String)
    ensures
        r@ == email_frag(email@),
        vstd::utf8::is_ascii_chars(email@) ==> r@ == frag_of_lower(
            crate::text::ascii_lower_seq(email@),
        ),
{
    let lower = to_lowercase(email);
    let lv = chars_of(lower.as_str());
    proof {
        lemma_find_from(lv@, '@', 0);
    }
    let merged = match find_char(&lv, '@') {
        Some(k) => {
            let mut m = slice_chars(&lv, 0, k);
            push_str(&mut m, "_at_");
            let tail = slice_chars(&lv, k + 1, lv.len());
            push_all(&mut m, &tail);
            m
        },
        None => lv,
    };
    assert(merged@ == merge_at(unicode_lowercase(email@)));
    let mut out: Vec<char> = Vec::new();
    let mut prev_dash = false;
    let mut i: usize = 0;
    while i < merged.len()
        invariant
            i <= merged.len(),
            (out@, prev_dash) == collapse(merged@.take(i as int)),
        decreases merged.len() - i,
    {
        proof {
            assert(merged@.take(i + 1).drop_last() =~= merged@.take(i as int));
        }
        let c = merged[i];
        if char_is_ascii_alnum(c) || c == '.' || c == '_' || c == '-' {
            out.push(c);
            prev_dash = false;
        } else if !prev_dash {
            out.push('-');
            prev_dash = true;
        }
        i += 1;
    }
    proof {
        assert(merged@.take(merged.len() as int) =~= merged@);
    }
    // trim_matches('-')
    let mut a: usize = 0;
    proof {
        assert(out@.subrange(0, out@.len() as int) =~= out@);
    }
    while a < out.len() && out[a] == '-'
        invariant
            a <= out.len(),
            strip_start(out@, '-') == strip_start(out@.subrange(a as int, out@.len() as int), '-'),
        decreases out.len() - a,
    {
        proof {
            assert(out@.subrange(a as int, out@.len() as int).drop_first() =~= out@.subrange(a + 1, out@.len() as int));
        }
        a += 1;
    }
    let ghost s1 = out@.subrange(a as int, out@.len() as int);
    let mut b: usize = out.len();
    while b > a && out[b - 1] == '-'
        invariant
            a <= b <= out.len(),
            s1 == out@.subrange(a as int, out@.len() as int),
            strip_end(s1, '-') == strip_end(out@.subrange(a as int, b as int), '-'),
        decreases b - a,
    {
        proof {
            let t = out@.subrange(a as int, b as int);
            assert(t.drop_last() =~= out@.subrange(a as int, b - 1));
        }
        b -= 1;
    }
    let frag = slice_chars(&out, a, b);
    string_from_chars(&frag)
}

/// `tenants/{slug}/{email fragment}/{id}.{ext}`: keys live under the
/// tenant, so reads can be authorized by tenant from the key alone.
pub open spec fn proof_key_text(slug: Seq<char>, email: Seq<char>, id: Seq<char>, ext: Seq<char>) -> Seq<char> {
    "tenants/"@ + slug + "/"@ + email_frag(email) + "/"@ + id + "."@ + ext
}

/// The server-chosen key of an uploaded proof.
pub fn proof_key(slug: &str, user_email: &str, id: &str, ext: &str) -> (k: String)
    ensures
        k@ == proof_key_text(slug@, user_email@, id@, ext@),
{
    let frag = sanitize_email_frag(user_email);
    let mut v: Vec<char> = Vec::new();
    push_str(&mut v, "tenants/");
    push_str(&mut v, slug);
    push_str(&mut v, "/");
    push_str(&mut v, frag.as_str());
    push_str(&mut v, "/");
    push_str(&mut v, id);
    push_str(&mut v, ".");
    push_str(&mut v, ext);
    string_from_chars(&v)
}

/// uuid: `Uuid::now_v7()` as hyphenated text. Fresh on every call (time
/// and randomness); nothing about its value is stated.
#[verifier::external_body]
fn new_object_id() -> (s: String) {
    uuid::Uuid::now_v7().to_string()
}

/// A fresh key for a proof uploaded by `user_email` to tenant `slug`.
pub fn new_proof_key(slug: &str, user_email: &str, ext: &str) -> (k: String)
    ensures
        exists|id: Seq<char>| k@ == proof_key_text(slug@, user_email@, id, ext@),
{
    let id = new_object_id();
    proof_key(slug, user_email, id.as_str(), ext)
}

/// A configured bucket name is required.
pub fn check_bucket_config(bucket: &str) -> (r: Result<(), Error>)
    ensures
        match r {
            Ok(()) => bucket@.len() > 0,
            Err(Error::S3(m)) => bucket@.len() == 0 && m@ == "storage.bucket is empty"@,
            Err(_) => false,
        },
{
    if bucket.is_empty() {
        return Err(Error::S3("storage.bucket is empty".to_owned()));
    }
    Ok(())
}

/// S3 refuses an explicit `us-east-1` location constraint; every other
/// region needs one.
pub fn needs_location_constraint(region: &str) -> (b: bool)
    ensures
        b == (region@ != "us-east-1"@),
{
    let v = chars_of(region);
    !chars_eq_str(&v, "us-east-1")
}

/// Whether a bucket-creation failure only says the bucket is already
/// there (so start-up can go on).
pub fn bucket_already_exists(msg: &str) -> (b: bool)
    ensures
        b == (find_sub_from(msg@, "BucketAlreadyOwnedByYou"@, 0) >= 0 || find_sub_from(
            msg@,
            "BucketAlreadyExists"@,
            0,
        ) >= 0),
{
    let v = chars_of(msg);
    contains_str(&v, "BucketAlreadyOwnedByYou") || contains_str(&v, "BucketAlreadyExists")
}

} // verus!
