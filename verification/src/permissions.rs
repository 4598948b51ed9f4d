//! System permission states in the words the settings and onboarding windows use.

use vstd::prelude::*;

verus! {

/// Microphone authorization as AVFoundation reports it.
#[derive(Debug, Clone, Copy, PartialEq, Eq, Structural)]
pub enum MicAuthorization {
    Authorized,
    Denied,
    /// Parental controls / MDM: the microphone is out of reach all the same.
    Restricted,
    NotDetermined,
    /// A status this app does not know, or the framework constant is missing.
    Other,
}

/// "granted" | "denied" | "not-determined" | "unknown".
pub open spec fn mic_label(status: MicAuthorization) -> Seq<char> {
    match status {
        MicAuthorization::Authorized => "granted"@,
        MicAuthorization::Denied | MicAuthorization::Restricted => "denied"@,
        MicAuthorization::NotDetermined => "not-determined"@,
        MicAuthorization::Other => "unknown"@,
    }
}

pub fn mic_status_label(status: MicAuthorization) -> (r: String)
    ensures
        r@ == mic_label(status),
{
    match status {
        MicAuthorization::Authorized => String::from_str("granted"),
        MicAuthorization::Denied | MicAuthorization::Restricted => String::from_str("denied"),
        MicAuthorization::NotDetermined => String::from_str("not-determined"),
        MicAuthorization::Other => String::from_str("unknown"),
    }
}

/// The permission prompt only comes up while the user has not decided yet; otherwise
/// the current status is the answer.
pub fn mic_needs_prompt(status: MicAuthorization) -> (r: bool)
    ensures
        r == (status == MicAuthorization::NotDetermined),
{
    match status {
        MicAuthorization::NotDetermined => true,
        _ => false,
    }
}

} // verus!
