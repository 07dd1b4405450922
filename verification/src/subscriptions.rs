//! The subscribe flow's logic: its error taxonomy, the random confirmation
//! token, the confirmation link and the bodies of the confirmation email.
//! The database writes and the send itself happen at the edge.

use vstd::prelude::*;

verus! {

/// Failure of the subscribe endpoint.
#[derive(Debug)]
pub enum SubscribeError {
    /// The submitted name or email was rejected; the caller's fault.
    ValidationError(String),
    /// Anything else; an internal error.
    UnexpectedError(String),
}

impl SubscribeError {
    /// The HTTP status the error is reported with: `400` for a rejected
    /// field, `500` otherwise.
    pub fn status_code(&self) -> (r: u16)
        ensures
            r == (match *self {
                SubscribeError::ValidationError(_) => 400u16,
                SubscribeError::UnexpectedError(_) => 500u16,
            }),
    {
        match self {
            SubscribeError::ValidationError(_) => 400,
            SubscribeError::UnexpectedError(_) => 500,
        }
    }
}

/// The characters a subscription token is drawn from.
pub open spec fn spec_is_alphanumeric_char(c: char) -> bool {
    ('0' <= c && c <= '9') || ('A' <= c && c <= 'Z') || ('a' <= c && c <= 'z')
}

/// Relies on rand's `Alphanumeric` distribution sampled from `thread_rng`:
/// each draw is one uniformly random character of `A`–`Z`, `a`–`z`, `0`–`9`.
/// Which one is random, so only membership in that set is promised.
#[verifier::external_body]
fn sample_alphanumeric() -> (r: String)
    ensures
        r@.len() == 1,
        spec_is_alphanumeric_char(r@[0]),
{
    let b: u8 = rand::Rng::sample(&mut rand::thread_rng(), rand::distributions::Alphanumeric);
    char::from(b).to_string()
}

/// Length of a subscription token, in characters.
pub const SUBSCRIPTION_TOKEN_LENGTH: usize = 25;

/// Draws a random case-sensitive subscription token of
/// [`SUBSCRIPTION_TOKEN_LENGTH`] alphanumeric characters.
pub fn generate_subscription_token() -> (r: String)
    ensures
        r@.len() == SUBSCRIPTION_TOKEN_LENGTH,
        forall|i: int| 0 <= i < r@.len() ==> spec_is_alphanumeric_char(#[trigger] r@[i]),
{
    let mut token = String::new();
    let mut i: usize = 0;
    while i < SUBSCRIPTION_TOKEN_LENGTH
        invariant
            i <= SUBSCRIPTION_TOKEN_LENGTH,
            token@.len() == i,
            forall|j: int| 0 <= j < i ==> spec_is_alphanumeric_char(#[trigger] token@[j]),
        decreases SUBSCRIPTION_TOKEN_LENGTH - i,
    {
        let c = sample_alphanumeric();
        token.append(c.as_str());
        i = i + 1;
    }
    token
}

/// The path and query a confirmation link appends to the application's base
/// URL.
pub open spec fn spec_confirm_path_prefix() -> Seq<char> {
    "/subscriptions/confirm?subscription_token="@
}

/// Builds the link a new subscriber must follow to confirm: the base URL,
/// the confirmation path, and the subscriber's token.
pub fn confirmation_link(base_url: &str, subscription_token: &str) -> (r: String)
    ensures
        r@ == base_url@ + spec_confirm_path_prefix() + subscription_token@,
{
    let r = base_url.to_owned().concat("/subscriptions/confirm?subscription_token=").concat(
        subscription_token,
    );
    proof {
        assert(r@ =~= base_url@ + spec_confirm_path_prefix() + subscription_token@);
    }
    r
}

/// The HTML body of the confirmation email, around the confirmation link.
pub fn confirmation_email_html(confirmation_link: &str) -> (r: String)
    ensures
        r@ == "Welcome to our newsletter!<br />Click <a href=\""@ + confirmation_link@
            + "\">here</a> to confirm your subscription."@,
{
    let r = String::from_str("Welcome to our newsletter!<br />Click <a href=\"").concat(
        confirmation_link,
    ).concat("\">here</a> to confirm your subscription.");
    proof {
        assert(r@ =~= "Welcome to our newsletter!<br />Click <a href=\""@ + confirmation_link@
            + "\">here</a> to confirm your subscription."@);
    }
    r
}

/// The plain-text body of the confirmation email, around the confirmation
/// link.
pub fn confirmation_email_text(confirmation_link: &str) -> (r: String)
    ensures
        r@ == "Welcome to our newsletter!\nVisit "@ + confirmation_link@
            + " to confirm your subscription."@,
{
    let r = String::from_str("Welcome to our newsletter!\nVisit ").concat(
        confirmation_link,
    ).concat(" to confirm your subscription.");
    proof {
        assert(r@ =~= "Welcome to our newsletter!\nVisit "@ + confirmation_link@
            + " to confirm your subscription."@);
    }
    r
}

/// The causes of an error, oldest last, each on its own `Caused by:` line.
pub open spec fn spec_causes_fmt(causes: Seq<Seq<char>>) -> Seq<char>
    decreases causes.len(),
{
    if causes.len() == 0 {
        Seq::empty()
    } else {
        spec_causes_fmt(causes.drop_last()) + "Caused by:\n\t"@ + causes.last() + "\n"@
    }
}

/// Formats an error and its chain of causes the way the route errors print
/// their debug form: the error's own message, a blank line, then each cause
/// on a `Caused by:` line of its own.
pub fn error_chain_fmt(error: &String, causes: &Vec<String>) -> (r: String)
    ensures
        r@ == error@ + "\n\n"@ + spec_causes_fmt(causes@.map_values(|c: String| c@)),
{
    let ghost cv = causes@.map_values(|c: String| c@);
    let mut out = error.clone();
    out.append("\n\n");
    let n = causes.len();
    let mut i: usize = 0;
    while i < n
        invariant
            i <= n,
            n == causes@.len(),
            cv == causes@.map_values(|c: String| c@),
            out@ == error@ + "\n\n"@ + spec_causes_fmt(cv.subrange(0, i as int)),
        decreases n - i,
    {
        proof {
            assert(cv.subrange(0, i + 1 as int).drop_last() =~= cv.subrange(0, i as int));
            assert(cv.subrange(0, i + 1 as int).last() == causes@[i as int]@);
        }
        out.append("Caused by:\n\t");
        out.append(causes[i].as_str());
        out.append("\n");
        proof {
            assert(out@ =~= error@ + "\n\n"@ + spec_causes_fmt(cv.subrange(0, i + 1 as int)));
        }
        i = i + 1;
    }
    proof {
        assert(cv.subrange(0, n as int) =~= cv);
    }
    out
}

} // verus!
