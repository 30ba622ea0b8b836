use vstd::prelude::*;

use crate::text::{chars_of, push_str, string_from_chars};

verus! {

/// A failed call of the gateway, as the front end tells it.
#[derive(Debug, Clone, PartialEq, Eq)]
pub enum ApiError {
    NotSignedIn,
    Unauthorized,
    Conflict(String),
    BadRequest(String),
    Other(String),
}

pub open spec fn api_error_message(e: ApiError) -> Seq<char> {
    match e {
        ApiError::NotSignedIn => "Not signed in. Please sign in first."@,
        ApiError::Unauthorized => "Your session expired. Please sign in again."@,
        ApiError::Conflict(m) => m@,
        ApiError::BadRequest(m) => m@,
        ApiError::Other(m) => m@,
    }
}

impl ApiError {
    /// The message shown to the user.
    pub fn to_string(&self) -> (r: String)
        ensures
            r@ == api_error_message(*self),
    {
        match self {
            ApiError::NotSignedIn => "Not signed in. Please sign in first.".to_string(),
            ApiError::Unauthorized => "Your session expired. Please sign in again.".to_string(),
            ApiError::Conflict(m) => m.clone(),
            ApiError::BadRequest(m) => m.clone(),
            ApiError::Other(m) => m.clone(),
        }
    }
}

/// The claims of the stored session token that the front end shows; the
/// gateway verifies the token on every request, so these are for display
/// only. Missing claims read as empty or zero.
#[derive(Debug, Clone, PartialEq, Eq)]
pub struct UserClaims {
    pub email: String,
    pub name: String,
    pub picture: String,
    pub sub: String,
    pub iat: i64,
    pub exp: i64,
}

/// The URL of an API path on the page's origin.
pub fn api_url_for(origin: &str, path: &str) -> (r: String)
    ensures
        r@ == origin@ + path@,
{
    let mut v: Vec<char> = Vec::new();
    push_str(&mut v, origin);
    push_str(&mut v, path);
    string_from_chars(&v)
}

/// The `Authorization` header value for a stored token.
pub fn bearer_header(token: &str) -> (r: String)
    ensures
        r@ == "Bearer "@ + token@,
{
    let mut v: Vec<char> = Vec::new();
    push_str(&mut v, "Bearer ");
    push_str(&mut v, token);
    string_from_chars(&v)
}

/// The message of a failed response: the gateway's `error` text when the
/// body has one, else `HTTP <status line>`.
pub open spec fn failure_message(body_error: Option<String>, status_text: Seq<char>) -> Seq<char> {
    match body_error {
        Some(m) => m@,
        None => "HTTP "@ + status_text,
    }
}

/// The error for a non-success response: 401 means the session is gone;
/// 400 and 409 keep their kind; anything else is `Other`.
pub fn error_for_response(status: u16, body_error: Option<String>, status_text: &str) -> (e: ApiError)
    ensures
        status == 401 ==> e == ApiError::Unauthorized,
        status == 400 ==> e is BadRequest && e->BadRequest_0@ == failure_message(body_error, status_text@),
        status == 409 ==> e is Conflict && e->Conflict_0@ == failure_message(body_error, status_text@),
        status != 401 && status != 400 && status != 409 ==> e is Other && e->Other_0@
            == failure_message(body_error, status_text@),
{
    let msg = match &body_error {
        Some(m) => m.clone(),
        None => {
            let mut v: Vec<char> = Vec::new();
            push_str(&mut v, "HTTP ");
            push_str(&mut v, status_text);
            string_from_chars(&v)
        },
    };
    if status == 401 {
        ApiError::Unauthorized
    } else if status == 400 {
        ApiError::BadRequest(msg)
    } else if status == 409 {
        ApiError::Conflict(msg)
    } else {
        ApiError::Other(msg)
    }
}

/// The parts of `s` between occurrences of `c` (what `str::split` gives).
pub open spec fn split_on(s: Seq<char>, c: char) -> Seq<Seq<char>>
    decreases s.len(),
{
    if s.len() == 0 {
        seq![Seq::<char>::empty()]
    } else {
        let p = split_on(s.drop_last(), c);
        if s.last() == c {
            p.push(Seq::<char>::empty())
        } else {
            p.update(p.len() - 1, p.last().push(s.last()))
        }
    }
}

proof fn lemma_split_on_len(s: Seq<char>, c: char)
    ensures
        split_on(s, c).len() >= 1,
    decreases s.len(),
{
    if s.len() > 0 {
        lemma_split_on_len(s.drop_last(), c);
    }
}

/// The base64url alphabet's `-` and `_` as standard base64's `+` and `/`.
pub open spec fn std_b64_char(c: char) -> char {
    if c == '-' {
        '+'
    } else if c == '_' {
        '/'
    } else {
        c
    }
}

/// The byte length of a string with characters `s` (what `str::len`
/// gives).
pub open spec fn byte_len(s: Seq<char>) -> int {
    vstd::utf8::encode_utf8(s).len() as usize as int
}

/// The payload (second of exactly three `.`-separated parts) of a token,
/// in standard base64 padded with `=` to a multiple of four bytes.
pub open spec fn payload_b64(token: Seq<char>) -> Option<Seq<char>> {
    let parts = split_on(token, '.');
    if parts.len() != 3 {
        None
    } else {
        let p = parts[1].map_values(|c: char| std_b64_char(c));
        let pad = (4 - byte_len(p) % 4) % 4;
        Some(p + Seq::new(pad as nat, |i: int| '='))
    }
}

/// The base64 text of a token's claims, ready to decode; a token without
/// exactly three parts is `Other("malformed token")`.
pub fn token_payload_b64(token: &str) -> (r: Result<String, ApiError>)
    ensures
        match r {
            Ok(s) => payload_b64(token@) == Some(s@),
            Err(e) => payload_b64(token@) is None && e is Other && e->Other_0@ == "malformed token"@,
        },
{
    let v = chars_of(token);
    let mut dots: usize = 0;
    let mut mid: Vec<char> = Vec::new();
    let mut i: usize = 0;
    proof {
        assert(v@.take(0) =~= Seq::<char>::empty());
    }
    while i < v.len()
        invariant
            i <= v.len(),
            v@ == token@,
            dots <= i,
            split_on(v@.take(i as int), '.').len() == dots + 1,
            dots >= 1 ==> split_on(v@.take(i as int), '.')[1] == mid@,
            dots == 0 ==> mid@.len() == 0,
        decreases v.len() - i,
    {
        proof {
            assert(v@.take(i + 1).drop_last() =~= v@.take(i as int));
            lemma_split_on_len(v@.take(i as int), '.');
        }
        let x = v[i];
        let ghost t = v@.take(i as int);
        let ghost t1 = v@.take(i + 1);
        proof {
            assert(t1.last() == x);
        }
        if x == '.' {
            dots = dots + 1;
        } else if dots == 1 {
            mid.push(x);
        }
        proof {
            let p = split_on(t, '.');
            assert(split_on(t1, '.') == if x == '.' {
                p.push(Seq::<char>::empty())
            } else {
                p.update(p.len() - 1, p.last().push(x))
            });
            if x == '.' {
                assert(dots - 1 == 0 ==> mid@ =~= Seq::<char>::empty());
            }
        }
        i += 1;
    }
    proof {
        assert(v@.take(v.len() as int) =~= v@);
    }
    if dots != 2 {
        return Err(ApiError::Other("malformed token".to_string()));
    }
    let mut p: Vec<char> = Vec::new();
    let mut j: usize = 0;
    while j < mid.len()
        invariant
            j <= mid.len(),
            p@ == mid@.take(j as int).map_values(|c: char| std_b64_char(c)),
        decreases mid.len() - j,
    {
        let c = mid[j];
        let d = if c == '-' { '+' } else if c == '_' { '/' } else { c };
        p.push(d);
        proof {
            assert(mid@.take(j + 1) =~= mid@.take(j as int).push(c));
            assert(p@ =~= mid@.take(j + 1).map_values(|c: char| std_b64_char(c)));
        }
        j += 1;
    }
    proof {
        assert(mid@.take(mid.len() as int) =~= mid@);
    }
    let s = string_from_chars(&p);
    let l = s.as_str().len();
    let pad = (4 - l % 4) % 4;
    let mut k: usize = 0;
    let ghost p0 = p@;
    while k < pad
        invariant
            k <= pad,
            pad < 4,
            p@ == p0 + Seq::new(k as nat, |i: int| '='),
        decreases pad - k,
    {
        p.push('=');
        proof {
            assert(p@ =~= p0 + Seq::new((k + 1) as nat, |i: int| '='));
        }
        k += 1;
    }
    Ok(string_from_chars(&p))
}

} // verus!
