//! Building a greeting: a formal or casual phrase around a name, optionally
//! shouted in uppercase.

use vstd::prelude::*;
use vstd::string::StringExecFns;

verus! {

/// The uppercase form of a text, character by character per Unicode.
pub uninterp spec fn upper_of(s: Seq<char>) -> Seq<char>;

/// Relies on str::to_uppercase: the uppercase form depends on the characters
/// alone.
#[verifier::external_body]
fn to_upper(s: &str) -> (r: String)
    ensures
        r@ == upper_of(s@),
{
    s.to_uppercase()
}

/// The greeting for `name`: a formal or casual phrase, shouted when asked.
pub open spec fn spec_greeting(name: Seq<char>, shout: bool, formal: bool) -> Seq<char> {
    let phrase = if formal {
        "Good day, "@ + name + "!"@
    } else {
        "Hello, "@ + name + "!"@
    };
    if shout {
        upper_of(phrase)
    } else {
        phrase
    }
}

/// Builds the greeting for `name`.
pub fn make_greeting(name: &str, shout: bool, formal: bool) -> (greeting: String)
    ensures
        greeting@ == spec_greeting(name@, shout, formal),
{
    let mut phrase = if formal {
        String::from_str("Good day, ")
    } else {
        String::from_str("Hello, ")
    };
    phrase.append(name);
    phrase.append("!");
    if shout {
        to_upper(phrase.as_str())
    } else {
        phrase
    }
}

} // verus!
