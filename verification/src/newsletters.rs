//! The direct publish endpoint's logic: extracting HTTP Basic credentials
//! from the request, turning the stored subscriber rows into parsed
//! addresses, and shaping the error responses. Sending the emails and
//! querying the directory stay at the edge.

use vstd::prelude::*;

use crate::authentication::Credentials;
use crate::domain::SubscriberEmail;
use crate::domain::is_valid_email;
use crate::response::HeaderPairRecord;
use crate::response::HeaderPairV;
use crate::response::HttpLikeResponse;
use crate::response::ResponseV;
use crate::response::copy_bytes;
use crate::response::str_to_bytes;

verus! {

/// The request body of a direct publish: a title and the issue's content.
pub struct BodyData {
    pub title: String,
    pub content: Content,
}

/// The two renderings of an issue's body.
pub struct Content {
    pub html: String,
    pub text: String,
}

/// Failure of the direct publish endpoint.
#[derive(Debug)]
pub enum PublishError {
    /// The caller could not be authenticated.
    AuthError(String),
    /// Anything else; never detailed to the caller.
    UnexpectedError(String),
}

/// The response each publish failure turns into: a bare `500` for unexpected
/// errors; a `401` telling the caller to authenticate, with the challenge
/// header, for authentication failures.
pub open spec fn spec_publish_error_response(e: PublishError) -> ResponseV {
    match e {
        PublishError::UnexpectedError(_) => ResponseV {
            status_code: 500,
            headers: Seq::empty(),
            body: Seq::empty(),
        },
        PublishError::AuthError(_) => ResponseV {
            status_code: 401,
            headers: seq![
                HeaderPairV {
                    name: "www-authenticate"@,
                    value: "Basic realm=\"publish\""@.map_values(|c: char| c as u8),
                },
            ],
            body: Seq::empty(),
        },
    }
}

impl PublishError {
    /// The HTTP response this error is reported as.
    pub fn error_response(&self) -> (r: HttpLikeResponse)
        ensures
            r@ == spec_publish_error_response(*self),
    {
        match self {
            PublishError::UnexpectedError(_) => {
                let r = HttpLikeResponse { status_code: 500, headers: Vec::new(), body: Vec::new() };
                proof {
                    assert(r@ =~= spec_publish_error_response(*self));
                }
                r
            },
            PublishError::AuthError(_) => {
                let challenge = "Basic realm=\"publish\"";
                proof {
                    reveal_strlit("Basic realm=\"publish\"");
                    assert(challenge.is_ascii());
                }
                let header = HeaderPairRecord {
                    name: String::from_str("www-authenticate"),
                    value: str_to_bytes(challenge),
                };
                let mut headers: Vec<HeaderPairRecord> = Vec::new();
                headers.push(header);
                let r = HttpLikeResponse { status_code: 401, headers, body: Vec::new() };
                proof {
                    assert(r@.headers =~= spec_publish_error_response(*self).headers);
                    assert(r@ =~= spec_publish_error_response(*self));
                }
                r
            },
        }
    }
}

/// Revalidates a snapshot of stored subscriber addresses, row by row: a row
/// that parses becomes a confirmed subscriber, one that does not carries its
/// error so the caller can log and skip it.
pub fn get_confirmed_subscribers(rows: Vec<String>) -> (r: Vec<Result<SubscriberEmail, String>>)
    ensures
        r@.len() == rows@.len(),
        forall|i: int|
            0 <= i < rows@.len() ==> match #[trigger] r@[i] {
                Ok(email) => is_valid_email(rows@[i]@) && email@ == rows@[i]@,
                Err(_) => !is_valid_email(rows@[i]@),
            },
{
    let n = rows.len();
    let mut out: Vec<Result<SubscriberEmail, String>> = Vec::new();
    let mut i: usize = 0;
    while i < n
        invariant
            i <= n,
            n == rows@.len(),
            out@.len() == i,
            forall|j: int|
                0 <= j < i ==> match #[trigger] out@[j] {
                    Ok(email) => is_valid_email(rows@[j]@) && email@ == rows@[j]@,
                    Err(_) => !is_valid_email(rows@[j]@),
                },
        decreases n - i,
    {
        out.push(SubscriberEmail::parse(rows[i].clone()));
        i = i + 1;
    }
    out
}

/// Whether the bytes are valid UTF-8, and the characters they decode to.
pub uninterp spec fn utf8_decode(bytes: Seq<u8>) -> Option<Seq<char>>;

/// Relies on std's `String::from_utf8`: it succeeds exactly when the bytes
/// are valid UTF-8, and the returned string holds exactly those bytes.
#[verifier::external_body]
fn string_from_utf8(bytes: Vec<u8>) -> (r: Option<String>)
    ensures
        match (r, utf8_decode(bytes@)) {
            (Some(s), Some(v)) => s@ == v,
            (None, None) => true,
            _ => false,
        },
{
    String::from_utf8(bytes).ok()
}

/// Whether the string is well-formed standard base64, and the bytes it
/// decodes to.
pub uninterp spec fn b64_decode(encoded: Seq<char>) -> Option<Seq<u8>>;

/// Relies on base64's `Engine::decode` for the `STANDARD` engine: the result
/// depends on the input characters alone.
#[verifier::external_body]
fn base64_decode_standard(encoded: &str) -> (r: Option<Vec<u8>>)
    ensures
        match (r, b64_decode(encoded@)) {
            (Some(v), Some(sv)) => v@ == sv,
            (None, None) => true,
            _ => false,
        },
{
    base64::Engine::decode(&base64::engine::general_purpose::STANDARD, encoded).ok()
}

/// Whether the credential string holds a `:` separator.
pub open spec fn spec_has_colon(s: Seq<char>) -> bool {
    exists|i: int| 0 <= i < s.len() && #[trigger] s[i] == ':'
}

/// Index of the first `:`; meaningful only when `spec_has_colon` holds, and
/// then unique.
pub open spec fn spec_first_colon(s: Seq<char>) -> int {
    choose|i: int|
        0 <= i < s.len() && #[trigger] s[i] == ':' && (forall|j: int| 0 <= j < i ==> s[j] != ':')
}

/// How HTTP Basic credential extraction ends.
pub ghost enum BasicAuthOutcome {
    /// No `Authorization` header came with the request.
    MissingHeader,
    /// The header's bytes were not valid UTF-8.
    HeaderNotUtf8,
    /// The header did not start with `Basic` and a space.
    SchemeNotBasic,
    /// The rest of the header was not valid base64.
    BadBase64,
    /// The decoded credential bytes were not valid UTF-8.
    CredentialsNotUtf8,
    /// The decoded credentials held no `:`, so no password.
    MissingPassword,
    /// Username and password, split at the first `:`.
    Parsed { username: Seq<char>, password: Seq<char> },
}

/// HTTP Basic credential extraction, start to end: decode the header as
/// UTF-8, strip the `Basic ` scheme, base64-decode the rest, decode that as
/// UTF-8, and split at the first `:`.
pub open spec fn spec_basic_authentication(header: Option<Seq<u8>>) -> BasicAuthOutcome {
    match header {
        None => BasicAuthOutcome::MissingHeader,
        Some(bytes) => match utf8_decode(bytes) {
            None => BasicAuthOutcome::HeaderNotUtf8,
            Some(h) => if !(h.len() >= 6 && h.subrange(0, 6) == "Basic "@) {
                BasicAuthOutcome::SchemeNotBasic
            } else {
                match b64_decode(h.subrange(6, h.len() as int)) {
                    None => BasicAuthOutcome::BadBase64,
                    Some(decoded) => match utf8_decode(decoded) {
                        None => BasicAuthOutcome::CredentialsNotUtf8,
                        Some(creds) => if !spec_has_colon(creds) {
                            BasicAuthOutcome::MissingPassword
                        } else {
                            let i = spec_first_colon(creds);
                            BasicAuthOutcome::Parsed {
                                username: creds.subrange(0, i),
                                password: creds.subrange(i + 1, creds.len() as int),
                            }
                        },
                    },
                }
            },
        },
    }
}

/// How an executable extraction result corresponds to the outcome of
/// `spec_basic_authentication`: parsed credentials carry the split strings;
/// each refusal carries its exact message.
pub open spec fn basic_auth_result_matches(
    r: Result<Credentials, String>,
    outcome: BasicAuthOutcome,
) -> bool {
    match (r, outcome) {
        (Ok(c), BasicAuthOutcome::Parsed { username, password }) => c.username@ == username
            && c.password@ == password,
        (Err(m), BasicAuthOutcome::MissingHeader) => m@
            == "The 'Authorization' header was missing"@,
        (Err(m), BasicAuthOutcome::HeaderNotUtf8) => m@
            == "The 'Authorization' header was not a valid UTF8 string."@,
        (Err(m), BasicAuthOutcome::SchemeNotBasic) => m@
            == "The authorization scheme was not 'Basic'."@,
        (Err(m), BasicAuthOutcome::BadBase64) => m@
            == "Failed to base64-decode 'Basic' credentials."@,
        (Err(m), BasicAuthOutcome::CredentialsNotUtf8) => m@
            == "The decoded credential string is not valid UTF8."@,
        (Err(m), BasicAuthOutcome::MissingPassword) => m@
            == "A password must be provided in 'Basic' auth."@,
        _ => false,
    }
}

/// Extracts HTTP Basic credentials from the raw bytes of the `Authorization`
/// header, if the request carried one.
pub fn basic_authentication(authorization_header: Option<&Vec<u8>>) -> (r: Result<
    Credentials,
    String,
>)
    ensures
        basic_auth_result_matches(
            r,
            spec_basic_authentication(
                match authorization_header {
                    Some(b) => Some(b@),
                    None => None,
                },
            ),
        ),
{
    let bytes = match authorization_header {
        None => {
            return Err(String::from_str("The 'Authorization' header was missing"));
        },
        Some(b) => b,
    };
    let header_value = match string_from_utf8(copy_bytes(bytes)) {
        None => {
            return Err(
                String::from_str("The 'Authorization' header was not a valid UTF8 string."),
            );
        },
        Some(s) => s,
    };
    let hs = header_value.as_str();
    let n = hs.unicode_len();
    if !starts_with_basic(hs) {
        return Err(String::from_str("The authorization scheme was not 'Basic'."));
    }
    let encoded_segment = hs.substring_char(6, n);
    let decoded_bytes = match base64_decode_standard(encoded_segment) {
        None => {
            return Err(String::from_str("Failed to base64-decode 'Basic' credentials."));
        },
        Some(d) => d,
    };
    let decoded_credentials = match string_from_utf8(decoded_bytes) {
        None => {
            return Err(String::from_str("The decoded credential string is not valid UTF8."));
        },
        Some(s) => s,
    };
    let cs = decoded_credentials.as_str();
    let m = cs.unicode_len();
    match find_first_colon(cs) {
        Some(i) => {
            let username = cs.substring_char(0, i).to_owned();
            let password = cs.substring_char(i + 1, m).to_owned();
            Ok(Credentials { username, password })
        },
        None => Err(String::from_str("A password must be provided in 'Basic' auth.")),
    }
}

/// Finds the index of the first `:` of a string, if it has one.
fn find_first_colon(s: &str) -> (r: Option<usize>)
    ensures
        match r {
            Some(i) => spec_has_colon(s@) && i < s@.len() && i == spec_first_colon(s@),
            None => !spec_has_colon(s@),
        },
{
    let m = s.unicode_len();
    let mut i: usize = 0;
    while i < m
        invariant
            i <= m,
            m == s@.len(),
            forall|j: int| 0 <= j < i ==> #[trigger] s@[j] != ':',
        decreases m - i,
    {
        if s.get_char(i) == ':' {
            proof {
                assert(spec_has_colon(s@));
                let k = spec_first_colon(s@);
                assert(0 <= k < s@.len() && s@[k] == ':' && (forall|j: int|
                    0 <= j < k ==> s@[j] != ':')) by {
                    assert(0 <= (i as int) < s@.len() && s@[i as int] == ':' && (forall|j: int|
                        0 <= j < i as int ==> s@[j] != ':'));
                }
                if k < i as int {
                    assert(s@[k] != ':');
                }
                if (i as int) < k {
                    assert(s@[i as int] != ':');
                }
                assert(k == i as int);
            }
            return Some(i);
        }
        i = i + 1;
    }
    proof {
        if spec_has_colon(s@) {
            let k = choose|k: int| 0 <= k < s@.len() && #[trigger] s@[k] == ':';
            assert(s@[k] != ':');
        }
    }
    None
}

/// Decides whether the header value starts with the `Basic ` scheme.
fn starts_with_basic(s: &str) -> (r: bool)
    ensures
        r == (s@.len() >= 6 && s@.subrange(0, 6) == "Basic "@),
{
    proof {
        reveal_strlit("Basic ");
    }
    let n = s.unicode_len();
    if n < 6 {
        return false;
    }
    let c0 = s.get_char(0) == 'B';
    let c1 = s.get_char(1) == 'a';
    let c2 = s.get_char(2) == 's';
    let c3 = s.get_char(3) == 'i';
    let c4 = s.get_char(4) == 'c';
    let c5 = s.get_char(5) == ' ';
    let r = c0 && c1 && c2 && c3 && c4 && c5;
    proof {
        if r {
            assert(s@.subrange(0, 6) =~= "Basic "@);
        } else {
            if s@.subrange(0, 6) == "Basic "@ {
                assert(s@[0] == s@.subrange(0, 6)[0] && s@.subrange(0, 6)[0] == "Basic "@[0]);
                assert(s@[1] == s@.subrange(0, 6)[1] && s@.subrange(0, 6)[1] == "Basic "@[1]);
                assert(s@[2] == s@.subrange(0, 6)[2] && s@.subrange(0, 6)[2] == "Basic "@[2]);
                assert(s@[3] == s@.subrange(0, 6)[3] && s@.subrange(0, 6)[3] == "Basic "@[3]);
                assert(s@[4] == s@.subrange(0, 6)[4] && s@.subrange(0, 6)[4] == "Basic "@[4]);
                assert(s@[5] == s@.subrange(0, 6)[5] && s@.subrange(0, 6)[5] == "Basic "@[5]);
                assert(false);
            }
        }
    }
    r
}

} // verus!
