//! The forwarding of transcription requests to a transcription service.
use vstd::prelude::*;

use crate::api::{is_failure, ApiErrorKind, ApiFailure, ForwardFailure};
use crate::url_model::{url_join, UrlView, WebUrl};

verus! {

/// The URL of a transcription service's init endpoint: `v1/init` joined
/// onto its address.
pub fn transcription_init_url(address: &WebUrl) -> (r: Result<WebUrl, ApiFailure>)
    ensures
        match url_join(address@, "v1/init"@) {
            Ok(u) => r matches Ok(v) && v@ == u,
            Err(_) => r matches Err(f) && is_failure(f, ApiErrorKind::Internal, seq!["Failed to construct transcription URL"@]),
        },
{
    match address.join("v1/init") {
        Ok(u) => Ok(u),
        Err(_) => Err(ApiFailure::with_message(ApiErrorKind::Internal, "Failed to construct transcription URL")),
    }
}

/// A success status: 200 to 299.
pub open spec fn is_success(status: u16) -> bool {
    200 <= status <= 299
}

/// What the transcription service's answer to an init request means: any
/// success status starts the transcription; any other status is the
/// service's error, passed on with the error body it sent, or an internal
/// error where the body is no error body.
pub fn transcription_init_outcome<B>(status: u16, body: Option<B>) -> (r: Result<(), ForwardFailure<B>>)
    ensures
        is_success(status) ==> r is Ok,
        !is_success(status) ==> match body {
            Some(b) => r matches Err(ForwardFailure::Remote { status: s, body: c }) && s == status && c == b,
            None => r matches Err(ForwardFailure::Api(f)) && is_failure(
                f,
                ApiErrorKind::Internal,
                seq!["Unexpected transcription service response body"@],
            ),
        },
{
    if 200 <= status && status <= 299 {
        Ok(())
    } else {
        match body {
            Some(b) => Err(ForwardFailure::Remote { status, body: b }),
            None => Err(
                ForwardFailure::Api(
                    ApiFailure::with_message(ApiErrorKind::Internal, "Unexpected transcription service response body"),
                ),
            ),
        }
    }
}

} // verus!
