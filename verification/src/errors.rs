use vstd::prelude::*;

verus! {

/// Every way a run of the tool can fail.
///
/// None of these are recovered from: callers surface them and stop. History
/// file trouble never appears here at all; the history store treats an
/// unreadable file as an empty set and a failed write as a skipped write.
#[derive(Debug)]
pub enum Error {
    /// The provider answered, but with an error envelope instead of results.
    /// `status` is the numeric status the provider reported (the HTTP status,
    /// or the status field of its error body when it carries one), `code` an
    /// optional provider-specific error code, and `message` the
    /// provider-supplied text.
    Provider { status: i32, code: Option<String>, message: String },
    /// The network request itself failed: no response to interpret.
    Transport { message: String },
    /// The response body did not match the expected schema.
    Decode { message: String },
    /// A well-formed record lacked the designated image variant or its URL.
    Extraction,
    /// No candidate survived history filtering, or none were returned.
    EmptyResult,
    /// No credential was found in any configuration source.
    Config,
}

/// The error body shapes the providers are known to answer with.
///
/// A non-success response carries one of these, already decoded from JSON
/// by the caller; which shape arrives depends on the provider and endpoint.
#[derive(Debug)]
pub enum ErrorEnvelope {
    /// A flat body: `{"message": ...}`.
    Flat { message: String },
    /// A nested body: `{"meta": {"status": ..., "msg": ...}}`.
    Meta { status: i32, msg: String },
    /// A coded body: `{"errorMessage": {"code": ..., "description": ...}}`.
    Coded { code: String, description: String },
}

/// What `provider_error` returns: a uniform `Error::Provider` for each
/// envelope shape. A flat envelope keeps the HTTP status; a meta envelope
/// supplies its own status; a coded envelope keeps the HTTP status and
/// carries its code along.
pub open spec fn spec_provider_error(http_status: u16, envelope: ErrorEnvelope) -> Error {
    match envelope {
        ErrorEnvelope::Flat { message } => Error::Provider {
            status: http_status as i32,
            code: None,
            message,
        },
        ErrorEnvelope::Meta { status, msg } => Error::Provider {
            status,
            code: None,
            message: msg,
        },
        ErrorEnvelope::Coded { code, description } => Error::Provider {
            status: http_status as i32,
            code: Some(code),
            message: description,
        },
    }
}

/// Turn a non-success response into the uniform provider error.
pub fn provider_error(http_status: u16, envelope: ErrorEnvelope) -> (r: Error)
    ensures
        r == spec_provider_error(http_status, envelope),
{
    match envelope {
        ErrorEnvelope::Flat { message } => Error::Provider {
            status: http_status as i32,
            code: None,
            message,
        },
        ErrorEnvelope::Meta { status, msg } => Error::Provider {
            status,
            code: None,
            message: msg,
        },
        ErrorEnvelope::Coded { code, description } => Error::Provider {
            status: http_status as i32,
            code: Some(code),
            message: description,
        },
    }
}

} // verus!
