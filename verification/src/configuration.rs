//! Runtime-environment selection and the application settings that the core
//! logic reads. Loading settings from files and environment variables is left
//! to the binary around the library.

use vstd::prelude::*;

verus! {

/// Settings of the HTTP application itself: which host and port it serves on.
pub struct ApplicationSettings {
    pub port: u16,
    pub host: String,
}

/// Base URL that outgoing confirmation links point back to.
pub struct ApplicationBaseUrl(pub String);

/// The possible runtime environments for the application.
#[derive(Debug)]
pub enum Environment {
    Local,
    Production,
}

/// The canonical lower-case name of an environment.
pub open spec fn spec_environment_name(e: Environment) -> Seq<char> {
    match e {
        Environment::Local => "local"@,
        Environment::Production => "production"@,
    }
}

/// Code point of a character with ASCII upper-case letters folded to lower
/// case; every other character keeps its own code point.
pub open spec fn lower_code(c: char) -> u32 {
    if 65 <= c as u32 && c as u32 <= 90 {
        (c as u32 + 32) as u32
    } else {
        c as u32
    }
}

/// A string's character codes after ASCII lower-casing.
pub open spec fn lower_codes(s: Seq<char>) -> Seq<u32> {
    s.map_values(|c: char| lower_code(c))
}

impl Environment {
    pub fn as_str(&self) -> (r: &'static str)
        ensures
            r@ == spec_environment_name(*self),
    {
        match self {
            Environment::Local => "local",
            Environment::Production => "production",
        }
    }

    /// Parses an environment name, ignoring ASCII case, as the configuration
    /// loader supplies it. Every other name is rejected with a message.
    pub fn try_from_name(s: &str) -> (r: Result<Environment, String>)
        ensures
            match r {
                Ok(e) => lower_codes(s@) == lower_codes(spec_environment_name(e)),
                Err(_) => forall|e: Environment|
                    lower_codes(s@) != lower_codes(spec_environment_name(e)),
            },
    {
        if eq_ignore_ascii_case(s, "local") {
            Ok(Environment::Local)
        } else if eq_ignore_ascii_case(s, "production") {
            Ok(Environment::Production)
        } else {
            proof {
                assert forall|e: Environment| lower_codes(s@) != lower_codes(
                    spec_environment_name(e),
                ) by {
                    match e {
                        Environment::Local => {},
                        Environment::Production => {},
                    }
                }
            }
            Err(
                s.to_owned().concat(
                    " is not a supported environment. Use either `local` or `production`.",
                ),
            )
        }
    }
}

/// Compares two strings for equality up to ASCII case.
fn eq_ignore_ascii_case(s: &str, t: &str) -> (r: bool)
    ensures
        r == (lower_codes(s@) == lower_codes(t@)),
{
    let ns = s.unicode_len();
    let nt = t.unicode_len();
    if ns != nt {
        proof {
            assert(lower_codes(s@).len() != lower_codes(t@).len());
        }
        return false;
    }
    let mut i: usize = 0;
    while i < ns
        invariant
            i <= ns,
            ns == s@.len(),
            ns == t@.len(),
            forall|j: int| 0 <= j < i ==> lower_codes(s@)[j] == lower_codes(t@)[j],
        decreases ns - i,
    {
        let cs = s.get_char(i) as u32;
        let ct = t.get_char(i) as u32;
        let ls: u32 = if 65 <= cs && cs <= 90 {
            cs + 32
        } else {
            cs
        };
        let lt: u32 = if 65 <= ct && ct <= 90 {
            ct + 32
        } else {
            ct
        };
        if ls != lt {
            proof {
                assert(lower_codes(s@)[i as int] != lower_codes(t@)[i as int]);
            }
            return false;
        }
        i = i + 1;
    }
    proof {
        assert(lower_codes(s@) =~= lower_codes(t@));
    }
    true
}

} // verus!
