//! Errors reported by the bridge.

use vstd::prelude::*;
use crate::text::{chars_of, string_of, cat, owned};

verus! {

/// Every failure the bridge reports to a caller. Variants that wrap an
/// outside failure carry its message.
#[derive(Debug, Clone, PartialEq, Eq)]
pub enum BridgeError {
    NotPaired,
    UpstreamApi(String),
    VexCli(String),
    Config(String),
    Keychain(String),
    Io(String),
    Serde(String),
    Http(String),
    /// No registered device key is available to sign a request.
    PairingKeyUnavailable,
    /// The cloud service refused the device's signed credentials.
    PairingCredentialsRejected,
    /// The project list could not be fetched after retrying.
    CloudProjectsUnavailable(String),
    /// The project service answered with something other than a project list.
    CloudProjectsInvalidResponse(String),
}

pub open spec fn spec_error_message(e: BridgeError) -> Seq<char> {
    match e {
        BridgeError::NotPaired => "bridge is not paired with architur yet \u{2014} run `vex-bridge pair`"@,
        BridgeError::UpstreamApi(s) => "the architur server returned an error: "@ + s@,
        BridgeError::VexCli(s) => "vex CLI failed: "@ + s@,
        BridgeError::Config(s) => "invalid configuration: "@ + s@,
        BridgeError::Keychain(s) => "os keychain error: "@ + s@,
        BridgeError::Io(s) => s@,
        BridgeError::Serde(s) => s@,
        BridgeError::Http(s) => s@,
        BridgeError::PairingKeyUnavailable => "no registered device key is available; pair this device again"@,
        BridgeError::PairingCredentialsRejected => "the architur server rejected this device's credentials"@,
        BridgeError::CloudProjectsUnavailable(s) => "cloud projects are unavailable: "@ + s@,
        BridgeError::CloudProjectsInvalidResponse(s) => "cloud projects response was invalid: "@ + s@,
    }
}

fn prefixed(prefix: &str, s: &String) -> (r: String)
    ensures
        r@ == prefix@ + s@,
{
    string_of(&cat(&chars_of(prefix), &chars_of(s.as_str())))
}

impl BridgeError {
    /// The human-readable message of this error.
    pub fn message(&self) -> (r: String)
        ensures
            r@ == spec_error_message(*self),
    {
        match self {
            BridgeError::NotPaired => owned("bridge is not paired with architur yet \u{2014} run `vex-bridge pair`"),
            BridgeError::UpstreamApi(s) => prefixed("the architur server returned an error: ", s),
            BridgeError::VexCli(s) => prefixed("vex CLI failed: ", s),
            BridgeError::Config(s) => prefixed("invalid configuration: ", s),
            BridgeError::Keychain(s) => prefixed("os keychain error: ", s),
            BridgeError::Io(s) => s.clone(),
            BridgeError::Serde(s) => s.clone(),
            BridgeError::Http(s) => s.clone(),
            BridgeError::PairingKeyUnavailable => owned("no registered device key is available; pair this device again"),
            BridgeError::PairingCredentialsRejected => owned("the architur server rejected this device's credentials"),
            BridgeError::CloudProjectsUnavailable(s) => prefixed("cloud projects are unavailable: ", s),
            BridgeError::CloudProjectsInvalidResponse(s) => prefixed("cloud projects response was invalid: ", s),
        }
    }
}

} // verus!
