//! Password helpers: validation of new passwords, the temporary password
//! used for resets, and the text of the reset message.
//!
//! Checking and storing passwords runs through an external tool in the
//! process around the library; what stands here is the logic that can be
//! stated exactly.

use vstd::prelude::*;

use rand::distr::SampleString;

use crate::error::PeachError;

verus! {

/// A character of the set a-z, A-Z, 0-9.
pub open spec fn is_ascii_alphanumeric_char(c: char) -> bool {
    (48 <= c as int <= 57) || (65 <= c as int <= 90) || (97 <= c as int <= 122)
}

/// Relies on rand's `Alphanumeric` distribution: `sample_string` builds a
/// string of exactly `len` characters, each drawn uniformly from the set
/// a-z, A-Z, 0-9.
#[verifier::external_body]
fn random_alphanumeric_string(len: usize) -> (r: String)
    ensures
        r@.len() == len as nat,
        forall|i: int| 0 <= i < r@.len() ==> is_ascii_alphanumeric_char(#[trigger] r@[i]),
{
    rand::distr::Alphanumeric.sample_string(&mut rand::rng(), len)
}

/// The temporary passwords handed out by a password reset: ten random
/// alphanumeric characters.
pub fn generate_temporary_password() -> (r: String)
    ensures
        r@.len() == 10,
        forall|i: int| 0 <= i < r@.len() ==> is_ascii_alphanumeric_char(#[trigger] r@[i]),
{
    random_alphanumeric_string(10)
}

/// Accepts a new password exactly when its two copies agree.
pub fn validate_new_passwords(new_password1: &str, new_password2: &str) -> (r: Result<
    (),
    PeachError,
>)
    ensures
        new_password1@ == new_password2@ <==> r is Ok,
        r is Err ==> r->Err_0 is PasswordsDoNotMatch,
{
    if crate::strutil::str_eq(new_password1, new_password2) {
        Ok(())
    } else {
        Err(PeachError::PasswordsDoNotMatch)
    }
}

/// The reset message: the temporary password, the local reset link, and —
/// where the device has a domain — the remote reset link.
pub open spec fn spec_reset_message(pw: Seq<char>, domain: Option<Seq<char>>) -> Seq<char> {
    "Your new temporary password is: "@ + pw
        + "\n\nIf you are on the same WiFi network as your PeachCloud device you can reset your password using this link: http://peach.local/reset_password"@
        + (match domain {
        Some(d) => "\n\nOr if you are on a different WiFi network, you can reset your password using the the following link: "@
            + d + "/reset_password"@,
        None => Seq::empty(),
    })
}

/// Builds the text of the password-reset message sent to the admin.
pub fn build_password_reset_message(temporary_password: &str, domain: Option<&String>) -> (r:
    String)
    ensures
        r@ == spec_reset_message(
            temporary_password@,
            match domain {
                Some(d) => Some(d@),
                None => None,
            },
        ),
{
    let mut out = String::new();
    out.append("Your new temporary password is: ");
    out.append(temporary_password);
    out.append(
        "\n\nIf you are on the same WiFi network as your PeachCloud device you can reset your password using this link: http://peach.local/reset_password",
    );
    match domain {
        Some(d) => {
            out.append(
                "\n\nOr if you are on a different WiFi network, you can reset your password using the the following link: ",
            );
            out.append(d.as_str());
            out.append("/reset_password");
        },
        None => {},
    }
    proof {
        assert(out@ =~= spec_reset_message(
            temporary_password@,
            match domain {
                Some(d) => Some(d@),
                None => None,
            },
        ));
    }
    out
}

} // verus!
