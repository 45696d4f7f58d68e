//! The shape check for the stored API credential, and the configuration
//! file line that persists it.

use vstd::prelude::*;
use vstd::string::*;

verus! {

/// A credential is well-shaped exactly when it is 51 characters long and
/// starts with `sk-`.
pub open spec fn credential_ok(s: Seq<char>) -> bool {
    s.len() == 51 && s[0] == 's' && s[1] == 'k' && s[2] == '-'
}

/// Accepts exactly the well-shaped credentials.
pub fn validate_credential(s: &str) -> (r: bool)
    ensures
        r == credential_ok(s@),
{
    let n: usize = s.unicode_len();
    if n != 51 {
        return false;
    }
    s.get_char(0) == 's' && s.get_char(1) == 'k' && s.get_char(2) == '-'
}

/// The one-line TOML document that stores a credential.
pub open spec fn config_contents(key: Seq<char>) -> Seq<char> {
    "openai_api_key = \""@ + key + "\""@
}

/// Renders the configuration file body that persists the given credential.
pub fn config_file_contents(key: &str) -> (r: String)
    ensures
        r@ == config_contents(key@),
{
    let mut out = String::new();
    out.append("openai_api_key = \"");
    out.append(key);
    out.append("\"");
    proof {
        assert(out@ =~= config_contents(key@));
    }
    out
}

} // verus!
