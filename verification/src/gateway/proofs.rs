use vstd::prelude::*;

use crate::gateway::http::{api_error, ApiError, BAD_REQUEST, UNSUPPORTED_MEDIA_TYPE};
use crate::text::{
    chars_eq_str, chars_of, find_char, find_from, lemma_find_from, push_str, slice_chars,
    starts_with, string_from_chars, to_lowercase, trim, trim_string, unicode_lowercase,
};

verus! {

/// Largest accepted proof upload, in bytes (10 MiB; the body is buffered
/// in memory before it is stored).
pub const MAX_PROOF_BYTES: usize = 10485760;

/// Lifetime of a presigned download URL, in seconds.
pub const PRESIGN_TTL_SECS: u64 = 300;

/// The file extension for an accepted content type.
pub open spec fn ext_of(content_type: Seq<char>) -> Option<Seq<char>> {
    if content_type == "image/jpeg"@ {
        Some("jpg"@)
    } else if content_type == "image/png"@ {
        Some("png"@)
    } else if content_type == "image/webp"@ {
        Some("webp"@)
    } else if content_type == "application/pdf"@ {
        Some("pdf"@)
    } else {
        None
    }
}

/// The extension for a content type on the allowlist (JPEG, PNG, WebP,
/// PDF); anything else is refused at upload.
pub fn ext_for(content_type: &str) -> (r: Option<&'static str>)
    ensures
        match r {
            Some(e) => ext_of(content_type@) == Some(e@),
            None => ext_of(content_type@) is None,
        },
{
    let v = chars_of(content_type);
    if chars_eq_str(&v, "image/jpeg") {
        Some("jpg")
    } else if chars_eq_str(&v, "image/png") {
        Some("png")
    } else if chars_eq_str(&v, "image/webp") {
        Some("webp")
    } else if chars_eq_str(&v, "application/pdf") {
        Some("pdf")
    } else {
        None
    }
}

/// The text before the first `;`.
pub open spec fn before_semicolon(s: Seq<char>) -> Seq<char> {
    let k = find_from(s, ';', 0);
    if k < 0 {
        s
    } else {
        s.subrange(0, k)
    }
}

/// The bare media type of a `Content-Type` header value (parameters such
/// as `charset` dropped, trimmed, lowercased); empty without a header.
pub fn bare_content_type(header: Option<&str>) -> (r: String)
    ensures
        header is None ==> r@.len() == 0,
        header is Some ==> r@ == unicode_lowercase(trim(before_semicolon(header->Some_0@))),
{
    match header {
        None => String::new(),
        Some(h) => {
            let v = chars_of(h);
            proof {
                lemma_find_from(v@, ';', 0);
            }
            let head = match find_char(&v, ';') {
                Some(k) => slice_chars(&v, 0, k),
                None => v,
            };
            let s = string_from_chars(&head);
            let t = trim_string(s.as_str());
            to_lowercase(t.as_str())
        },
    }
}

/// Check an upload: a non-empty body of an accepted type. Gives the
/// extension.
pub fn check_upload(body_len: usize, content_type: &str) -> (r: Result<&'static str, ApiError>)
    ensures
        body_len == 0 ==> r is Err && r->Err_0.status == BAD_REQUEST && r->Err_0.message@ == "empty body"@,
        body_len > 0 && ext_of(content_type@) is None ==> r is Err && r->Err_0.status
            == UNSUPPORTED_MEDIA_TYPE && r->Err_0.message@
            == "only image/jpeg, image/png, image/webp, application/pdf are accepted"@,
        body_len > 0 && ext_of(content_type@) is Some ==> r is Ok && ext_of(content_type@) == Some(
            r->Ok_0@,
        ),
{
    if body_len == 0 {
        return Err(api_error(BAD_REQUEST, "empty body"));
    }
    match ext_for(content_type) {
        Some(e) => Ok(e),
        None => Err(
            api_error(
                UNSUPPORTED_MEDIA_TYPE,
                "only image/jpeg, image/png, image/webp, application/pdf are accepted",
            ),
        ),
    }
}

/// A proof key may only be read through its own tenant: it must start
/// with `tenants/{slug}/`.
pub fn check_key_tenant(key: &str, slug: &str) -> (r: Result<(), ApiError>)
    ensures
        r is Ok <==> ({
            let p = "tenants/"@ + slug@ + "/"@;
            key@.len() >= p.len() && key@.subrange(0, p.len() as int) == p
        }),
        r is Err ==> r->Err_0.status == BAD_REQUEST && r->Err_0.message@
            == "key does not belong to this tenant"@,
{
    let mut p: Vec<char> = Vec::new();
    push_str(&mut p, "tenants/");
    push_str(&mut p, slug);
    push_str(&mut p, "/");
    let k = chars_of(key);
    if starts_with(&k, &p) {
        Ok(())
    } else {
        Err(api_error(BAD_REQUEST, "key does not belong to this tenant"))
    }
}

/// Law: every key the store hands out for tenant `slug` passes that
/// tenant's key check, so a member can always read back their venture's
/// proofs and never another venture's.
pub proof fn lemma_proof_key_in_tenant(slug: Seq<char>, email: Seq<char>, id: Seq<char>, ext: Seq<char>)
    ensures
        ({
            let k = crate::storage::proof_store::proof_key_text(slug, email, id, ext);
            let p = "tenants/"@ + slug + "/"@;
            k.len() >= p.len() && k.subrange(0, p.len() as int) == p
        }),
{
    let k = crate::storage::proof_store::proof_key_text(slug, email, id, ext);
    let p = "tenants/"@ + slug + "/"@;
    assert(k.subrange(0, p.len() as int) =~= p);
}

} // verus!

verus! {

/// The content types an upload may have, in the order the refusal message
/// names them.
pub open spec fn upload_types() -> Seq<Seq<char>> {
    seq!["image/jpeg"@, "image/png"@, "image/webp"@, "application/pdf"@]
}

/// The extension each of `upload_types` is stored under, in the same order.
pub open spec fn upload_exts() -> Seq<Seq<char>> {
    seq!["jpg"@, "png"@, "webp"@, "pdf"@]
}

/// Law: a content type is accepted exactly when it is one of the four the
/// refusal message names, each with its own extension, and the refusal
/// message lists those same four types, in order.
pub proof fn lemma_accepted_types_are_the_listed_ones(content_type: Seq<char>)
    ensures
        ext_of(content_type) is Some <==> upload_types().contains(content_type),
        forall|i: int| 0 <= i < 4 ==> ext_of(#[trigger] upload_types()[i]) == Some(upload_exts()[i]),
        "only image/jpeg, image/png, image/webp, application/pdf are accepted"@ == "only "@
            + upload_types()[0] + ", "@ + upload_types()[1] + ", "@ + upload_types()[2] + ", "@
            + upload_types()[3] + " are accepted"@,
{
    reveal_strlit("image/jpeg");
    reveal_strlit("image/png");
    reveal_strlit("image/webp");
    reveal_strlit("application/pdf");
    reveal_strlit("only image/jpeg, image/png, image/webp, application/pdf are accepted");
    reveal_strlit("only ");
    reveal_strlit(", ");
    reveal_strlit(" are accepted");
    let t = upload_types();
    assert(t[0] == "image/jpeg"@ && t[1] == "image/png"@ && t[2] == "image/webp"@ && t[3]
        == "application/pdf"@);
    assert("image/jpeg"@.len() == 10 && "image/png"@.len() == 9 && "image/webp"@.len() == 10
        && "application/pdf"@.len() == 15);
    assert("image/webp"@[6] != "image/jpeg"@[6]);
    assert("image/png"@ != "image/jpeg"@);
    assert("image/webp"@ != "image/jpeg"@ && "image/webp"@ != "image/png"@);
    assert("application/pdf"@ != "image/jpeg"@ && "application/pdf"@ != "image/png"@
        && "application/pdf"@ != "image/webp"@);
    if ext_of(content_type) is Some {
        if content_type == "image/jpeg"@ {
            assert(t[0] == content_type);
        } else if content_type == "image/png"@ {
            assert(t[1] == content_type);
        } else if content_type == "image/webp"@ {
            assert(t[2] == content_type);
        } else {
            assert(t[3] == content_type);
        }
    }
    assert("only image/jpeg, image/png, image/webp, application/pdf are accepted"@ =~= "only "@
        + t[0] + ", "@ + t[1] + ", "@ + t[2] + ", "@ + t[3] + " are accepted"@);
}

} // verus!
