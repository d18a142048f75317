//! Tests of the password helpers.

use peach_lib::error::PeachError;
use peach_lib::password_utils::{
    build_password_reset_message, generate_temporary_password, validate_new_passwords,
};

#[test]
fn matching_passwords_validate() {
    assert!(validate_new_passwords("correct horse", "correct horse").is_ok());
}

#[test]
fn differing_passwords_do_not_validate() {
    let r = validate_new_passwords("correct horse", "correct-horse");
    assert!(matches!(r, Err(PeachError::PasswordsDoNotMatch)));
}

#[test]
fn temporary_passwords_are_ten_alphanumeric_characters() {
    let pw = generate_temporary_password();
    assert_eq!(pw.chars().count(), 10);
    assert!(pw.chars().all(|c| c.is_ascii_alphanumeric()));
}

#[test]
fn temporary_passwords_vary() {
    // Sixty-two to the tenth outcomes: two equal draws in a row mean the
    // generator handed back a constant.
    let a = generate_temporary_password();
    let b = generate_temporary_password();
    assert!(a != b || generate_temporary_password() != a);
}

#[test]
fn reset_message_without_domain_has_only_the_local_link() {
    let msg = build_password_reset_message("secret1234", None);
    assert_eq!(
        msg,
        "Your new temporary password is: secret1234\n\n\
         If you are on the same WiFi network as your PeachCloud device you can reset \
         your password using this link: http://peach.local/reset_password"
    );
}

#[test]
fn reset_message_with_domain_adds_the_remote_link() {
    let domain = String::from("https://peach.example.org");
    let msg = build_password_reset_message("secret1234", Some(&domain));
    assert!(msg.starts_with("Your new temporary password is: secret1234"));
    assert!(msg.ends_with(
        "Or if you are on a different WiFi network, you can reset your password \
         using the the following link: https://peach.example.org/reset_password"
    ));
}
