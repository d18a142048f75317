//! Typed failures of the configuration store, the dyndns engine and the
//! password helpers.
//!
//! Every operation of the library reports its failure through one of these
//! variants; the variant says which step failed and carries the diagnostic
//! text of that step as a plain string.

use vstd::prelude::*;

verus! {

/// The error taxonomy of the library.
///
/// The first group concerns the configuration store, the second the dyndns
/// registration and update engine, the last the password and sbot helpers.
#[derive(Debug)]
pub enum PeachError {
    /// The configuration file exists but could not be read.
    ReadConfigError { file: String },
    /// The configuration file's text is not a well-formed document.
    ParseConfigError { msg: String },
    /// The configuration file could not be written.
    WriteConfigError { file: String },
    /// The exclusive lock around a configuration update could not be taken
    /// or released.
    LockConfigError { file: String },
    /// A call to the remote registration service failed in transport.
    RemoteServiceError { msg: String },
    /// The remote registration succeeded but a local persistence step
    /// (key file or configuration update) failed afterwards; the caller
    /// should retry the persistence step, not the registration.
    RegistrationPersistError { msg: String },
    /// The TSIG key material could not be written to its protected path.
    SaveTsigKeyError { path: String },
    /// The device's public IP address could not be discovered.
    GetPublicIpError { msg: String },
    /// The external nameserver-update tool could not be launched.
    NsCommandError { msg: String },
    /// The external nameserver-update tool ran and rejected the update;
    /// `msg` holds the tool's diagnostic output.
    NsUpdateError { msg: String },
    /// A remote reply that should have been a boolean was something else.
    ParseBoolError { msg: String },
    /// An ssb admin id scheduled for removal is not in the configuration.
    SsbAdminIdNotFound { id: String },
    /// A supplied password is not the stored one.
    InvalidPassword,
    /// The two copies of a new password differ.
    PasswordsDoNotMatch,
    /// The password-setting helper ran and failed.
    FailedToSetNewPassword { msg: String },
    /// An sbot command ran and failed; `msg` holds its diagnostic output.
    SbotCliError { msg: String },
}

} // verus!
