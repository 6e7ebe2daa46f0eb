//! Answers to action requests.

use crate::proto::{ActionResponse, ActionStatus, Envelope, Payload};
use vstd::prelude::*;

verus! {

/// The answer in an envelope, if it holds one.
pub open spec fn answer(envelope: Envelope) -> Option<ActionResponse> {
    match envelope.payload {
        Some(Payload::ActionResponse(response)) => Some(response),
        _ => None,
    }
}

/// The envelope answers a request with data.
pub open spec fn answers_ok(envelope: Envelope, action_id: Seq<char>, data: Seq<u8>) -> bool {
    &&& envelope.is_bare()
    &&& answer(envelope) matches Some(response) && {
        &&& response.action_id@ == action_id
        &&& response.status == ActionStatus::ActionOk.spec_code()
        &&& response.data_json@ == data
        &&& response.error@ == Seq::<char>::empty()
    }
}

/// The envelope answers a request with a failure of some kind, in words.
pub open spec fn answers_failure(
    envelope: Envelope,
    action_id: Seq<char>,
    status: ActionStatus,
    error: Seq<char>,
) -> bool {
    &&& envelope.is_bare()
    &&& answer(envelope) matches Some(response) && {
        &&& response.action_id@ == action_id
        &&& response.status == status.spec_code()
        &&& response.data_json@ == Seq::<u8>::empty()
        &&& response.error@ == error
    }
}

/// The answer to a request: its data, or an error in words.
pub fn response_envelope(action_id: String, result: Result<Vec<u8>, String>) -> (envelope: Envelope)
    ensures
        result matches Ok(data) ==> answers_ok(envelope, action_id@, data@),
        result matches Err(error) ==> answers_failure(
            envelope,
            action_id@,
            ActionStatus::ActionError,
            error@,
        ),
{
    match result {
        Ok(data) => Envelope::bare(
            Payload::ActionResponse(
                ActionResponse {
                    action_id,
                    status: ActionStatus::ActionOk.code(),
                    data_json: data,
                    error: String::new(),
                },
            ),
        ),
        Err(error) => Envelope::bare(
            Payload::ActionResponse(
                ActionResponse {
                    action_id,
                    status: ActionStatus::ActionError.code(),
                    data_json: Vec::new(),
                    error,
                },
            ),
        ),
    }
}

} // verus!
