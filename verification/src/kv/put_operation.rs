use vstd::prelude::*;

verus! {

/// What the client's put loop does next.
#[derive(Clone, Copy, Debug, PartialEq, Eq, Structural)]
pub enum PutAction {
    /// Try the put again with the corrected version already set.
    RetryWithNewVersion,
    /// Fetch the key's current version with a get, then retry.
    DoGetForVersion,
    /// The put is done.
    ReturnSuccess,
    /// The put failed for good.
    ReturnError,
    /// The request did not reach the server; retry within the budget.
    NetworkRetry,
}

/// A put response, reduced to the facts the retry logic reads.
#[derive(Clone, Copy, Debug, PartialEq, Eq, Structural)]
pub enum PutResponse {
    /// The write went through at this version.
    Success { new_version: u64 },
    /// The server holds another version; it reports which, when it can.
    VersionMismatch { actual_version: Option<u64> },
    /// A create was asked of an existing key.
    KeyAlreadyExists,
    /// An update was asked of a missing key.
    KeyNotFound,
    /// A reply without any result in it.
    NoResult,
    /// No reply at all.
    NetworkError,
}

/// The mutable state the put loop carries between attempts: the version it
/// will send next, and how many network retries happened in a row.
#[derive(Clone, Copy, Debug, PartialEq, Eq, Structural)]
pub struct PutFlowState {
    pub version: u64,
    pub network_retry_count: u32,
}

/// The action prescribed for one response, as a function of the state
/// before it.
pub open spec fn put_response_action(state: PutFlowState, response: PutResponse) -> PutAction {
    let had_network_errors = state.network_retry_count > 0;
    match response {
        PutResponse::Success { .. } => PutAction::ReturnSuccess,
        PutResponse::VersionMismatch { actual_version } => match actual_version {
            Some(_) => if had_network_errors {
                // The earlier write went through; the mismatch proves it.
                PutAction::ReturnSuccess
            } else {
                PutAction::RetryWithNewVersion
            },
            None => PutAction::ReturnError,
        },
        PutResponse::KeyAlreadyExists => PutAction::DoGetForVersion,
        PutResponse::KeyNotFound => PutAction::RetryWithNewVersion,
        PutResponse::NoResult => PutAction::ReturnError,
        PutResponse::NetworkError => PutAction::NetworkRetry,
    }
}

/// The state the loop carries into the next attempt.
pub open spec fn put_response_state(state: PutFlowState, response: PutResponse) -> PutFlowState {
    let had_network_errors = state.network_retry_count > 0;
    match response {
        PutResponse::NetworkError => state,
        PutResponse::VersionMismatch { actual_version } => match actual_version {
            Some(actual) => if had_network_errors {
                PutFlowState { network_retry_count: 0, ..state }
            } else {
                PutFlowState { version: actual, network_retry_count: 0 }
            },
            None => PutFlowState { network_retry_count: 0, ..state },
        },
        PutResponse::KeyNotFound => PutFlowState { version: 0, network_retry_count: 0 },
        _ => PutFlowState { network_retry_count: 0, ..state },
    }
}

/// One turn of the client's put protocol: reads the response, repairs the
/// version on a mismatch or a missing key, detects the write that had
/// already succeeded behind a network error, resets the retry counter on
/// any contact with the server, and says what to do next. The waiting,
/// printing, and re-sending around it belong to the driver.
pub fn handle_put_response(state: &mut PutFlowState, response: PutResponse) -> (action: PutAction)
    ensures
        action == put_response_action(*old(state), response),
        *final(state) == put_response_state(*old(state), response),
{
    let had_network_errors = state.network_retry_count > 0;
    match response {
        PutResponse::NetworkError => PutAction::NetworkRetry,
        PutResponse::Success { new_version: _ } => {
            state.network_retry_count = 0;
            PutAction::ReturnSuccess
        },
        PutResponse::VersionMismatch { actual_version } => {
            state.network_retry_count = 0;
            match actual_version {
                Some(actual) => {
                    if had_network_errors {
                        PutAction::ReturnSuccess
                    } else {
                        state.version = actual;
                        PutAction::RetryWithNewVersion
                    }
                },
                None => PutAction::ReturnError,
            }
        },
        PutResponse::KeyAlreadyExists => {
            state.network_retry_count = 0;
            PutAction::DoGetForVersion
        },
        PutResponse::KeyNotFound => {
            state.network_retry_count = 0;
            state.version = 0;
            PutAction::RetryWithNewVersion
        },
        PutResponse::NoResult => {
            state.network_retry_count = 0;
            PutAction::ReturnError
        },
    }
}

} // verus!
