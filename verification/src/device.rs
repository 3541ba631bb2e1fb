//! Decisions about the device credentials kept in the secret store.

use vstd::prelude::*;

verus! {

/// What must be done to have device credentials.
#[derive(Clone, Copy, Debug, PartialEq, Eq, Structural)]
pub enum CredentialAction {
    /// No device license is stored: provision a new device, store its license, then
    /// authenticate it and store its token.
    Provision,
    /// A license is stored but no token: authenticate the stored device and store its
    /// token.
    Authenticate,
    /// Both are stored: nothing to do.
    Nothing,
}

/// Decides what must be done, from whether a device license and a device token could be
/// read from the secret store.
pub fn credential_action(license_found: bool, token_found: bool) -> (a: CredentialAction)
    ensures
        !license_found ==> a == CredentialAction::Provision,
        license_found && !token_found ==> a == CredentialAction::Authenticate,
        license_found && token_found ==> a == CredentialAction::Nothing,
{
    if !license_found {
        CredentialAction::Provision
    } else if !token_found {
        CredentialAction::Authenticate
    } else {
        CredentialAction::Nothing
    }
}

} // verus!
