//! The decisions of the request loop: when to refresh credentials, when to
//! retry, and what to answer once the retries are spent.

use vstd::prelude::*;
use crate::error::Error;
use crate::transport::response::ServiceNowResponse;
use crate::text::owned;

verus! {

/// Statuses that are worth another attempt: 429, 500, 502, 503, 504.
pub open spec fn spec_retryable_status(status: u16) -> bool {
    status == 429 || status == 500 || status == 502 || status == 503 || status == 504
}

/// Whether an HTTP status code should trigger a retry.
pub fn is_retryable_status(status: u16) -> (r: bool)
    ensures
        r == spec_retryable_status(status),
{
    status == 429 || status == 500 || status == 502 || status == 503 || status == 504
}

/// What the request loop does next.
#[derive(Debug)]
pub enum RetryAction {
    /// Stop and answer this.
    Finish(Result<ServiceNowResponse, Error>),
    /// Wait, then try again. A `retry_after` given by the instance, in seconds,
    /// replaces the computed back-off; the error is kept in case no attempt succeeds.
    Retry { retry_after: Option<u64>, error: Error },
}

/// Whether a 401 answer should first refresh the credentials; when the refresh
/// succeeds the request is sent again at once.
pub fn should_refresh(status: u16, attempt: u32, max_retries: u32) -> (r: bool)
    ensures
        r == (status == 401 && attempt < max_retries),
{
    status == 401 && attempt < max_retries
}

/// The decision after a response: success is answered at once; a rate-limit
/// error is retried while attempts remain, honouring its `Retry-After`; another
/// error is retried when the status is retryable and attempts remain; otherwise
/// the error is answered.
pub open spec fn spec_after_response(
    attempt: u32,
    max_retries: u32,
    status: u16,
    outcome: Result<ServiceNowResponse, Error>,
) -> RetryAction {
    match outcome {
        Ok(resp) => RetryAction::Finish(Ok(resp)),
        Err(Error::RateLimited { retry_after }) => if attempt < max_retries {
            RetryAction::Retry { retry_after, error: Error::RateLimited { retry_after } }
        } else {
            RetryAction::Finish(Err(Error::RateLimited { retry_after }))
        },
        Err(e) => if spec_retryable_status(status) && attempt < max_retries {
            RetryAction::Retry { retry_after: None, error: e }
        } else {
            RetryAction::Finish(Err(e))
        },
    }
}

/// The next step after a response was read and interpreted.
///
/// Success is answered at once. A rate-limit error is retried while attempts
/// remain, honouring its `Retry-After`; another error is retried when the
/// status is retryable and attempts remain; otherwise the error is answered.
pub fn after_response(
    attempt: u32,
    max_retries: u32,
    status: u16,
    outcome: Result<ServiceNowResponse, Error>,
) -> (r: RetryAction)
    ensures
        r == spec_after_response(attempt, max_retries, status, outcome),
{
    match outcome {
        Ok(resp) => RetryAction::Finish(Ok(resp)),
        Err(Error::RateLimited { retry_after }) => {
            if attempt < max_retries {
                RetryAction::Retry { retry_after, error: Error::RateLimited { retry_after } }
            } else {
                RetryAction::Finish(Err(Error::RateLimited { retry_after }))
            }
        },
        Err(e) => {
            if is_retryable_status(status) && attempt < max_retries {
                RetryAction::Retry { retry_after: None, error: e }
            } else {
                RetryAction::Finish(Err(e))
            }
        },
    }
}

/// The next step after the request could not be sent: retry while attempts remain.
pub fn after_send_error(attempt: u32, max_retries: u32, error: Error) -> (r: RetryAction)
    ensures
        attempt < max_retries ==> r == (RetryAction::Retry { retry_after: None, error }),
        attempt >= max_retries ==> r == RetryAction::Finish(Err(error)),
{
    if attempt < max_retries {
        RetryAction::Retry { retry_after: None, error }
    } else {
        RetryAction::Finish(Err(error))
    }
}

/// The answer once every attempt was spent: the last error, or a
/// "max retries exceeded" error when there was none.
pub fn exhausted(last_error: Option<Error>) -> (r: Error)
    ensures
        match last_error {
            Some(e) => r == e,
            None => r matches Error::Api { status, message, detail } && status == 0 && message@
                == "max retries exceeded"@ && detail.is_none(),
        },
{
    match last_error {
        Some(e) => e,
        None => Error::Api { status: 0, message: owned("max retries exceeded"), detail: None },
    }
}

/// No decision retries on the last attempt: at attempt `max_retries` every
/// outcome is final, and a success is final on every attempt.
pub proof fn law_last_attempt_is_final(
    attempt: u32,
    max_retries: u32,
    status: u16,
    outcome: Result<ServiceNowResponse, Error>,
)
    ensures
        attempt >= max_retries ==> spec_after_response(attempt, max_retries, status, outcome) is Finish,
        outcome is Ok ==> spec_after_response(attempt, max_retries, status, outcome) is Finish,
{
}

}
