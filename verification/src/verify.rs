//! Checking a Groq API key from the settings window: the key itself only goes into
//! the Authorization header; every outcome becomes a message for the UI.

use vstd::prelude::*;
use crate::text::{trim, trim_str, decimal, decimal_string};

verus! {

/// Result of testing the saved key: `ok` carries the state, `message` the reason.
#[derive(Debug, PartialEq, Eq)]
pub struct LoadedResult {
    pub ok: bool,
    pub message: String,
}

/// The reply to the models request: only 200 means a valid key.
pub fn key_check_status(status: u16) -> (r: Result<(), String>)
    ensures
        status == 200 ==> r is Ok,
        status != 200 ==> (r matches Err(m) && m@ == if status == 401 {
            "Invalid API key"@
        } else if status == 429 {
            "Rate limited — try again later"@
        } else {
            "Groq error "@ + decimal(status as nat)
        }),
{
    if status == 200 {
        Ok(())
    } else if status == 401 {
        Err(String::from_str("Invalid API key"))
    } else if status == 429 {
        Err(String::from_str("Rate limited — try again later"))
    } else {
        let code = decimal_string(status as u128);
        Err(String::from_str("Groq error ").concat(code.as_str()))
    }
}

/// The key typed into the settings, trimmed; a blank key is an error.
pub fn key_to_verify(key: &str) -> (r: Result<String, String>)
    ensures
        trim(key@).len() > 0 ==> (r matches Ok(k) && k@ == trim(key@)),
        trim(key@).len() == 0 ==> (r matches Err(m) && m@ == "Enter an API key first"@),
{
    let t = trim_str(key);
    if t.unicode_len() == 0 {
        Err(String::from_str("Enter an API key first"))
    } else {
        Ok(String::from_str(t))
    }
}

pub open spec fn no_saved_key(r: Result<String, LoadedResult>) -> bool {
    r matches Err(l) && !l.ok && l.message@ == "No API key saved"@
}

/// The saved key to test, trimmed; none (or a blank one) is a failed test already.
pub fn saved_key_to_test(saved: Option<String>) -> (r: Result<String, LoadedResult>)
    ensures
        match saved {
            Some(k) => if trim(k@).len() > 0 {
                r matches Ok(t) && t@ == trim(k@)
            } else {
                no_saved_key(r)
            },
            None => no_saved_key(r),
        },
{
    match saved {
        Some(k) => {
            let t = trim_str(k.as_str());
            if t.unicode_len() == 0 {
                Err(LoadedResult { ok: false, message: String::from_str("No API key saved") })
            } else {
                Ok(String::from_str(t))
            }
        },
        None => Err(LoadedResult { ok: false, message: String::from_str("No API key saved") }),
    }
}

/// The outcome of checking the saved key: valid is ok with "verified", anything
/// else is not ok with the reason.
pub fn key_test_result(check: Result<(), String>) -> (r: LoadedResult)
    ensures
        check is Ok ==> r.ok && r.message@ == "verified"@,
        check matches Err(m) ==> !r.ok && r.message == m,
{
    match check {
        Ok(()) => LoadedResult { ok: true, message: String::from_str("verified") },
        Err(message) => LoadedResult { ok: false, message },
    }
}

} // verus!
