use rand::Rng;
use vstd::prelude::*;

use crate::strutil::str_concat;

verus! {

/// Whether a character is an ASCII letter or digit.
pub open spec fn is_ascii_alphanumeric_char(c: char) -> bool {
    (48 <= c as u32 && c as u32 <= 57) || (65 <= c as u32 && c as u32 <= 90) || (97 <= c as u32
        && c as u32 <= 122)
}

/// Relies on rand's `Alphanumeric` distribution: every sample is an ASCII
/// letter or digit, and taking `len` samples of the endless sampling
/// iterator yields exactly `len` of them. Which characters come back depends
/// on the generator, so nothing more is claimed.
#[verifier::external_body]
fn sample_alphanumeric_chars(len: usize) -> (r: String)
    ensures
        r@.len() == len as nat,
        forall|i: int| 0 <= i < r@.len() ==> is_ascii_alphanumeric_char(#[trigger] r@[i]),
{
    rand::thread_rng()
        .sample_iter(&rand::distributions::Alphanumeric)
        .take(len)
        .map(char::from)
        .collect()
}

/// A fresh session token: the platform prefix followed by thirty random
/// ASCII letters and digits.
pub fn generate_session_token() -> (r: String)
    ensures
        r@.len() == "hxckr_"@.len() + 30,
        r@.subrange(0, "hxckr_"@.len() as int) == "hxckr_"@,
        forall|i: int|
            "hxckr_"@.len() <= i < r@.len() ==> is_ascii_alphanumeric_char(#[trigger] r@[i]),
{
    let suffix = sample_alphanumeric_chars(30);
    let r = str_concat("hxckr_", suffix.as_str());
    proof {
        assert(r@.subrange(0, "hxckr_"@.len() as int) =~= "hxckr_"@);
    }
    r
}

} // verus!
