//! Domain value types for subscribers. Stored subscriber emails are raw
//! strings and are revalidated when they are used, so parsing returns a
//! tagged success or failure instead of assuming stored data is valid.

use vstd::prelude::*;

verus! {

/// Whether a string is a valid email address, exactly as the validator this
/// crate delegates to decides it.
pub uninterp spec fn is_valid_email(s: Seq<char>) -> bool;

/// Relies on validator's `ValidateEmail::validate_email` for `String`
/// (HTML5-form email validity): the verdict depends on the characters alone;
/// its source rejects an empty string, a string without `@`, and a string
/// whose user part (everything before the last `@`) is empty.
#[verifier::external_body]
fn validate_email(s: &String) -> (r: bool)
    ensures
        r == is_valid_email(s@),
        s@.len() == 0 ==> !r,
        (forall|i: int| 0 <= i < s@.len() ==> s@[i] != '@') ==> !r,
        (s@.len() > 0 && s@[0] == '@' && (forall|i: int| 1 <= i < s@.len() ==> s@[i] != '@'))
            ==> !r,
{
    validator::ValidateEmail::validate_email(s)
}

/// A validated subscriber email address.
#[derive(Debug)]
pub struct SubscriberEmail(String);

impl View for SubscriberEmail {
    type V = Seq<char>;

    closed spec fn view(&self) -> Seq<char> {
        self.0@
    }
}

impl SubscriberEmail {
    /// Accepts exactly the strings the email validator accepts; a rejected
    /// string comes back inside the error message.
    pub fn parse(s: String) -> (r: Result<SubscriberEmail, String>)
        ensures
            match r {
                Ok(email) => is_valid_email(s@) && email@ == s@,
                Err(m) => !is_valid_email(s@) && m@ == s@ + " is not a valid email address."@,
            },
    {
        if validate_email(&s) {
            Ok(SubscriberEmail(s))
        } else {
            Err(s.concat(" is not a valid email address."))
        }
    }

    /// The address itself.
    pub fn as_ref(&self) -> (r: &String)
        ensures
            r@ == self@,
    {
        &self.0
    }
}

/// Characters a subscriber name may not contain.
pub open spec fn spec_forbidden_name_char(c: char) -> bool {
    c == '/' || c == '(' || c == ')' || c == '"' || c == '<' || c == '>' || c == '\\' || c == '{'
        || c == '}'
}

/// The whitespace characters the name check strips.
pub open spec fn spec_name_whitespace(c: char) -> bool {
    c == ' ' || c == '\t' || c == '\n' || c == '\r'
}

/// The strings accepted as subscriber names: not whitespace only, at most 256
/// characters, and free of troublesome characters.
pub open spec fn spec_name_valid(s: Seq<char>) -> bool {
    &&& exists|i: int| 0 <= i < s.len() && !spec_name_whitespace(#[trigger] s[i])
    &&& s.len() <= 256
    &&& forall|i: int| 0 <= i < s.len() ==> !spec_forbidden_name_char(#[trigger] s[i])
}

/// A validated subscriber name.
#[derive(Debug)]
pub struct SubscriberName(String);

impl View for SubscriberName {
    type V = Seq<char>;

    closed spec fn view(&self) -> Seq<char> {
        self.0@
    }
}

impl SubscriberName {
    /// Accepts exactly the names `spec_name_valid` allows.
    pub fn parse(s: String) -> (r: Result<SubscriberName, String>)
        ensures
            match r {
                Ok(name) => spec_name_valid(s@) && name@ == s@,
                Err(m) => !spec_name_valid(s@) && m@ == s@ + " is not a valid subscriber name."@,
            },
    {
        let n = s.as_str().unicode_len();
        let mut has_content = false;
        let mut forbidden = false;
        let mut i: usize = 0;
        while i < n
            invariant
                i <= n,
                n == s@.len(),
                has_content == exists|j: int| 0 <= j < i && !spec_name_whitespace(#[trigger] s@[j]),
                forbidden == exists|j: int| 0 <= j < i && spec_forbidden_name_char(#[trigger] s@[j]),
            decreases n - i,
        {
            let c = s.as_str().get_char(i);
            if !(c == ' ' || c == '\t' || c == '\n' || c == '\r') {
                has_content = true;
            }
            if c == '/' || c == '(' || c == ')' || c == '"' || c == '<' || c == '>' || c == '\\'
                || c == '{' || c == '}' {
                forbidden = true;
            }
            i = i + 1;
        }
        if has_content && !forbidden && n <= 256 {
            proof {
                assert(forall|j: int| 0 <= j < s@.len() ==> !spec_forbidden_name_char(
                    #[trigger] s@[j],
                ));
            }
            Ok(SubscriberName(s))
        } else {
            Err(s.concat(" is not a valid subscriber name."))
        }
    }

    /// The name itself.
    pub fn as_ref(&self) -> (r: &String)
        ensures
            r@ == self@,
    {
        &self.0
    }
}

/// A subscriber as the subscribe flow accepts one: a validated email address
/// and a validated name.
pub struct NewSubscriber {
    pub email: SubscriberEmail,
    pub name: SubscriberName,
}

impl NewSubscriber {
    /// Validates raw form fields into a subscriber, name first, as the
    /// subscribe endpoint does.
    pub fn parse(email: String, name: String) -> (r: Result<NewSubscriber, String>)
        ensures
            match r {
                Ok(s) => spec_name_valid(name@) && is_valid_email(email@) && s.email@ == email@
                    && s.name@ == name@,
                Err(_) => !spec_name_valid(name@) || !is_valid_email(email@),
            },
    {
        let name = match SubscriberName::parse(name) {
            Ok(n) => n,
            Err(m) => {
                return Err(m);
            },
        };
        let email = match SubscriberEmail::parse(email) {
            Ok(e) => e,
            Err(m) => {
                return Err(m);
            },
        };
        Ok(NewSubscriber { email, name })
    }
}

} // verus!
