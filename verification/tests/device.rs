use msixvc::device::{credential_action, CredentialAction};

#[test]
fn credential_action_provisions_without_license() {
    assert_eq!(credential_action(false, false), CredentialAction::Provision);
    assert_eq!(credential_action(false, true), CredentialAction::Provision);
}

#[test]
fn credential_action_authenticates_without_token() {
    assert_eq!(credential_action(true, false), CredentialAction::Authenticate);
}

#[test]
fn credential_action_does_nothing_with_both() {
    assert_eq!(credential_action(true, true), CredentialAction::Nothing);
}
