//! What a client asks of the kernel, and what it makes of the answers.

use crate::client::{reported, VynkorClient};
use crate::error::{ErrorView, VynkorError};
use crate::ids::{self, next_request_id, Sequence};
use crate::proto::{
    ActionRequest, ActionRequestChunk, ActionResponse, ActionResponseChunk, AudioStreamChunk,
    Envelope, EventAck, EventPublish, EventPublishAck, KernelCommand, KernelCommandAck, Outgoing,
    Payload, Ping, RequestView, SessionClose, Subscribe, Unsubscribe,
};
use crate::span::{self, Span, NANOS_PER_MILLI, NANOS_PER_SEC};
use vstd::prelude::*;
use vstd::slice::slice_to_vec;
use vstd::string::*;

verus! {

/// How many seconds a request waits for its answer, unless it says otherwise.
pub const DEFAULT_REQUEST_TIMEOUT_SECS: u64 = 30;

/// Nanoseconds that a request waits for its answer; 0 asks for the default.
pub open spec fn request_timeout(timeout_ms: u32) -> nat {
    if timeout_ms == 0 {
        (DEFAULT_REQUEST_TIMEOUT_SECS * NANOS_PER_SEC) as nat
    } else {
        (timeout_ms * NANOS_PER_MILLI) as nat
    }
}

/// Until when an answer may come. The view is that time.
#[derive(Clone, Copy, Debug)]
pub struct Deadline {
    at: Span,
}

impl View for Deadline {
    type V = nat;

    closed spec fn view(&self) -> nat {
        self.at@
    }
}

impl Deadline {
    /// The deadline of a request that is sent at time `now`.
    pub fn after(now: Span, timeout_ms: u32) -> (deadline: Deadline)
        requires
            now@ + request_timeout(timeout_ms) <= span::max_span(),
        ensures
            deadline@ == now@ + request_timeout(timeout_ms),
    {
        let timeout: Span = if timeout_ms == 0 {
            Span::from_secs(DEFAULT_REQUEST_TIMEOUT_SECS)
        } else {
            Span::from_millis(timeout_ms as u64)
        };
        Deadline { at: now.plus(timeout) }
    }

    /// How long there is still to wait at time `now`.
    pub fn remaining(&self, now: Span) -> (left: Result<Span, VynkorError>)
        ensures
            now@ < self@ ==> (left matches Ok(left) && left@ == self@ - now@),
            now@ >= self@ ==> (left matches Err(error) && error@ == ErrorView::Timeout),
    {
        let left: Span = self.at.since(now);
        if left.is_zero() {
            Err(VynkorError::Timeout)
        } else {
            Ok(left)
        }
    }
}

/// What a request that waits does next.
#[derive(Debug)]
pub enum Next<T> {
    /// It waits for a message, for so long.
    Wait(Span),
    /// It is over.
    Done(Result<T, VynkorError>),
}

/// What happens to a request that waits.
#[derive(Debug)]
pub enum Arrival {
    /// It was sent.
    Sent,
    /// A message came.
    Message(Envelope),
    /// A frame came that holds no message: raw binary, or a fragment of a
    /// message that lacks others.
    Other,
    /// None came for as long as it waited.
    Nothing,
}

/// The model of [`Next`].
pub enum NextView<T> {
    Wait(nat),
    Done(Result<T, ErrorView>),
}

impl<T> View for Next<T> {
    type V = NextView<T>;

    open spec fn view(&self) -> NextView<T> {
        match self {
            Next::Wait(left) => NextView::Wait(left@),
            Next::Done(Ok(value)) => NextView::Done(Ok(*value)),
            Next::Done(Err(error)) => NextView::Done(Err(error@)),
        }
    }
}

/// The next step of a request to which a message brought this much: the
/// answer, or nothing yet.
pub open spec fn settled<T>(answer: Option<Result<T, ErrorView>>, deadline: nat, now: nat) -> NextView<
    T,
> {
    match answer {
        Some(answer) => NextView::Done(answer),
        None => if now < deadline {
            NextView::Wait((deadline - now) as nat)
        } else {
            NextView::Done(Err(ErrorView::Timeout))
        },
    }
}

/// What a message that the kernel sends in place of an answer comes to.
pub open spec fn kernel_error(message: Seq<char>, details: Seq<char>) -> ErrorView {
    ErrorView::Internal("kernel error: "@ + message + " ("@ + details + ")"@)
}

/// The answer to an action that a message brings, if any. Messages about
/// other actions bring none.
pub open spec fn action_answer(action_id: Seq<char>, message: Envelope) -> Option<
    Result<ActionResponse, ErrorView>,
> {
    match message.payload {
        Some(Payload::ActionResponse(response)) => if response.action_id@ == action_id {
            Some(Ok(response))
        } else {
            None
        },
        Some(Payload::ActionStreamAbort(abort)) => if abort.action_id@ == action_id {
            Some(Err(ErrorView::Internal("stream aborted: "@ + abort.reason@)))
        } else {
            None
        },
        Some(Payload::Error(error)) => Some(Err(kernel_error(error.message@, error.details@))),
        _ => None,
    }
}

/// The answer to the publication of an event that a message brings, if any.
pub open spec fn publish_answer(message: Envelope) -> Option<Result<EventPublishAck, ErrorView>> {
    match message.payload {
        Some(Payload::EventPublishAck(ack)) => Some(Ok(ack)),
        Some(Payload::Error(error)) => Some(Err(kernel_error(error.message@, error.details@))),
        _ => None,
    }
}

/// The next step of an action after what happened.
pub open spec fn action_step(
    action_id: Seq<char>,
    deadline: nat,
    arrival: Arrival,
    now: nat,
) -> NextView<ActionResponse> {
    match arrival {
        Arrival::Sent | Arrival::Other => settled(None, deadline, now),
        Arrival::Message(message) => settled(action_answer(action_id, message), deadline, now),
        Arrival::Nothing => NextView::Done(Err(ErrorView::Timeout)),
    }
}

/// The next step of the publication of an event after what happened.
pub open spec fn publish_step(deadline: nat, arrival: Arrival, now: nat) -> NextView<
    EventPublishAck,
> {
    match arrival {
        Arrival::Sent | Arrival::Other => settled(None, deadline, now),
        Arrival::Message(message) => settled(publish_answer(message), deadline, now),
        Arrival::Nothing => NextView::Done(Err(ErrorView::Timeout)),
    }
}

fn settle<T>(answer: Option<Result<T, VynkorError>>, deadline: Deadline, now: Span) -> (next: Next<T>)
    ensures
        answer matches Some(Ok(value)) ==> next@ == NextView::Done(Ok::<T, ErrorView>(value)),
        answer matches Some(Err(error)) ==> next@ == NextView::Done(Err::<T, ErrorView>(error@)),
        answer is None ==> next@ == settled::<T>(None, deadline@, now@),
{
    match answer {
        Some(answer) => Next::Done(answer),
        None => match deadline.remaining(now) {
            Ok(left) => Next::Wait(left),
            Err(error) => Next::Done(Err(error)),
        },
    }
}

/// The next step of an action that waits for its answer. Messages that are
/// not about it are passed over.
pub fn action_next(action_id: &String, deadline: Deadline, arrival: Arrival, now: Span) -> (next: Next<
    ActionResponse,
>)
    ensures
        next@ == action_step(action_id@, deadline@, arrival, now@),
{
    let answer: Option<Result<ActionResponse, VynkorError>> = match arrival {
        Arrival::Nothing => Some(Err(VynkorError::Timeout)),
        Arrival::Sent | Arrival::Other => None,
        Arrival::Message(message) => match message.payload {
            Some(Payload::ActionResponse(response)) => if response.action_id == *action_id {
                Some(Ok(response))
            } else {
                None
            },
            Some(Payload::ActionStreamAbort(abort)) => if abort.action_id == *action_id {
                let mut text = String::from_str("stream aborted: ");
                text.append(abort.reason.as_str());
                Some(Err(VynkorError::Internal(text)))
            } else {
                None
            },
            Some(Payload::Error(error)) => Some(
                Err(
                    VynkorError::Internal(
                        reported("kernel error: ", &error.message, &error.details),
                    ),
                ),
            ),
            _ => None,
        },
    };
    settle(answer, deadline, now)
}

/// The next step of the publication of an event that waits for its answer.
pub fn publish_next(deadline: Deadline, arrival: Arrival, now: Span) -> (next: Next<
    EventPublishAck,
>)
    ensures
        next@ == publish_step(deadline@, arrival, now@),
{
    let answer: Option<Result<EventPublishAck, VynkorError>> = match arrival {
        Arrival::Nothing => Some(Err(VynkorError::Timeout)),
        Arrival::Sent | Arrival::Other => None,
        Arrival::Message(message) => match message.payload {
            Some(Payload::EventPublishAck(ack)) => Some(Ok(ack)),
            Some(Payload::Error(error)) => Some(
                Err(
                    VynkorError::Internal(
                        reported("kernel error: ", &error.message, &error.details),
                    ),
                ),
            ),
            _ => None,
        },
    };
    settle(answer, deadline, now)
}

/// The answer to a kernel command: the next message is it, or the command
/// fails.
pub fn command_reply(reply: Envelope) -> (result: Result<KernelCommandAck, VynkorError>)
    ensures
        match reply.payload {
            Some(Payload::KernelCommandAck(ack)) => result == Ok::<KernelCommandAck, VynkorError>(
                ack,
            ),
            _ => result matches Err(error) && error@ == ErrorView::Internal(
                "expected KernelCommandAck"@,
            ),
        },
{
    match reply.payload {
        Some(Payload::KernelCommandAck(ack)) => Ok(ack),
        _ => Err(VynkorError::Internal("expected KernelCommandAck".to_string())),
    }
}

/// The answer to a ping: the next message is it, or the ping fails. Returns
/// the time from `started` to `now`.
pub fn ping_reply(reply: Envelope, started: Span, now: Span) -> (latency: Result<Span, VynkorError>)
    ensures
        match reply.payload {
            Some(Payload::Pong(_)) => latency matches Ok(latency) && latency@ == if now@
                > started@ {
                (now@ - started@) as nat
            } else {
                0
            },
            _ => latency matches Err(error) && error@ == ErrorView::Internal("expected Pong"@),
        },
{
    match reply.payload {
        Some(Payload::Pong(_)) => Ok(now.since(started)),
        _ => Err(VynkorError::Internal("expected Pong".to_string())),
    }
}

/// The message asks for an action.
pub open spec fn requests_action(message: Outgoing, request: RequestView) -> bool {
    &&& message.is_for_kernel()
    &&& message.envelope.payload matches Some(Payload::ActionRequest(sent)) && sent@ == request
}

impl VynkorClient {
    /// The message that subscribes to events of these types (`*` for all).
    pub fn subscribe(&self, event_types: Vec<String>) -> (message: Outgoing)
        ensures
            message.is_for_kernel(),
            message.envelope.payload == Some(Payload::Subscribe(Subscribe { event_types })),
    {
        Outgoing::to_kernel(Payload::Subscribe(Subscribe { event_types }))
    }

    /// The message that ends the subscription to events of these types.
    pub fn unsubscribe(&self, event_types: Vec<String>) -> (message: Outgoing)
        ensures
            message.is_for_kernel(),
            message.envelope.payload == Some(Payload::Unsubscribe(Unsubscribe { event_types })),
    {
        Outgoing::to_kernel(Payload::Unsubscribe(Unsubscribe { event_types }))
    }

    /// The message that acknowledges an event, so that it is not sent again.
    pub fn ack_event(&self, event_id: &str) -> (message: Outgoing)
        ensures
            message.is_for_kernel(),
            message.envelope.payload matches Some(Payload::EventAck(ack)) && ack.event_id@
                == event_id@,
    {
        Outgoing::to_kernel(Payload::EventAck(EventAck { event_id: event_id.to_string() }))
    }

    /// The message that publishes an event.
    pub fn publish_event(&self, event_type: &str, payload_json: &[u8]) -> (message: Outgoing)
        ensures
            message.is_for_kernel(),
            message.envelope.payload matches Some(Payload::EventPublish(event))
                && event.event_type@ == event_type@ && event.payload_json@ == payload_json@,
    {
        Outgoing::to_kernel(
            Payload::EventPublish(
                EventPublish {
                    event_type: event_type.to_string(),
                    payload_json: slice_to_vec(payload_json),
                },
            ),
        )
    }

    /// The message that asks for an action, and the id that its answer will
    /// carry: made of the time of day and the next number of the sequence.
    pub fn send_action(
        &self,
        sequence: &mut Sequence,
        action: &str,
        params_json: &[u8],
        timeout_ms: u32,
        unix_millis: u64,
    ) -> (sent: (String, Outgoing))
        ensures
            final(sequence)@ == ids::successor(old(sequence)@),
            sent.0@ == ids::stamped_id("act"@, unix_millis, old(sequence)@),
            requests_action(
                sent.1,
                RequestView {
                    action_id: sent.0@,
                    action: action@,
                    params: params_json@,
                    timeout_ms,
                    streaming: false,
                    caller: Seq::empty(),
                },
            ),
    {
        let params = slice_to_vec(params_json);
        action_message(sequence, action, params, timeout_ms, false, unix_millis)
    }

    /// The message that asks for an action whose parameters follow in
    /// chunks, and the id that chunks and answer carry.
    pub fn send_action_streaming(
        &self,
        sequence: &mut Sequence,
        action: &str,
        timeout_ms: u32,
        unix_millis: u64,
    ) -> (sent: (String, Outgoing))
        ensures
            final(sequence)@ == ids::successor(old(sequence)@),
            sent.0@ == ids::stamped_id("act"@, unix_millis, old(sequence)@),
            requests_action(
                sent.1,
                RequestView {
                    action_id: sent.0@,
                    action: action@,
                    params: Seq::empty(),
                    timeout_ms,
                    streaming: true,
                    caller: Seq::empty(),
                },
            ),
    {
        action_message(sequence, action, Vec::new(), timeout_ms, true, unix_millis)
    }

    /// The message with one chunk of the parameters of an action.
    pub fn send_request_chunk(&self, action_id: &str, seq: u32, chunk: Vec<u8>, is_final: bool) -> (message:
        Outgoing)
        ensures
            message.is_for_kernel(),
            message.envelope.payload matches Some(Payload::ActionRequestChunk(sent)) && {
                &&& sent.action_id@ == action_id@
                &&& sent.seq == seq
                &&& sent.chunk@ == chunk@
                &&& sent.is_final == is_final
            },
    {
        let action_id: String = action_id.to_string();
        Outgoing::to_kernel(
            Payload::ActionRequestChunk(ActionRequestChunk { action_id, seq, chunk, is_final }),
        )
    }

    /// The message with one chunk of the answer to an action. The answer ends
    /// with an ordinary response; no chunk is marked as the last.
    pub fn send_response_chunk(&self, action_id: &str, seq: u32, chunk: Vec<u8>) -> (message:
        Outgoing)
        ensures
            message.is_for_kernel(),
            message.envelope.payload matches Some(Payload::ActionResponseChunk(sent)) && {
                &&& sent.action_id@ == action_id@
                &&& sent.seq == seq
                &&& sent.chunk@ == chunk@
            },
    {
        let action_id: String = action_id.to_string();
        Outgoing::to_kernel(
            Payload::ActionResponseChunk(ActionResponseChunk { action_id, seq, chunk }),
        )
    }

    /// The message that closes a streaming session.
    pub fn close_session(&self, action_id: &str, reason: &str) -> (message: Outgoing)
        ensures
            message.is_for_kernel(),
            message.envelope.payload matches Some(Payload::SessionClose(close))
                && close.action_id@ == action_id@ && close.reason@ == reason@,
    {
        Outgoing::to_kernel(
            Payload::SessionClose(
                SessionClose { action_id: action_id.to_string(), reason: reason.to_string() },
            ),
        )
    }

    /// The message with a command for the kernel.
    pub fn send_command(&self, command_id: &str, command: &str, params_json: &[u8]) -> (message:
        Outgoing)
        ensures
            message.is_for_kernel(),
            message.envelope.payload matches Some(Payload::KernelCommand(sent)) && {
                &&& sent.command_id@ == command_id@
                &&& sent.command@ == command@
                &&& sent.params_json@ == params_json@
            },
    {
        Outgoing::to_kernel(
            Payload::KernelCommand(
                KernelCommand {
                    command_id: command_id.to_string(),
                    command: command.to_string(),
                    params_json: slice_to_vec(params_json),
                },
            ),
        )
    }

    /// The message that pings the kernel.
    pub fn ping(&self, unix_millis: u64) -> (message: Outgoing)
        ensures
            message.is_for_kernel(),
            message.envelope.payload == Some(Payload::Ping(Ping { timestamp: unix_millis })),
    {
        Outgoing::to_kernel(Payload::Ping(Ping { timestamp: unix_millis }))
    }

    /// The message with a chunk of an audio stream for a plugin.
    pub fn send_audio_chunk(&self, target: &str, chunk: AudioStreamChunk) -> (message: Outgoing)
        ensures
            message.target@ == target@,
            message.envelope.is_bare(),
            message.envelope.payload == Some(Payload::AudioStreamChunk(chunk)),
    {
        Outgoing {
            target: target.to_string(),
            envelope: Envelope::bare(Payload::AudioStreamChunk(chunk)),
        }
    }
}

fn action_message(
    sequence: &mut Sequence,
    action: &str,
    params_json: Vec<u8>,
    timeout_ms: u32,
    streaming: bool,
    unix_millis: u64,
) -> (sent: (String, Outgoing))
    ensures
        final(sequence)@ == ids::successor(old(sequence)@),
        sent.0@ == ids::stamped_id("act"@, unix_millis, old(sequence)@),
        requests_action(
            sent.1,
            RequestView {
                action_id: sent.0@,
                action: action@,
                params: params_json@,
                timeout_ms,
                streaming,
                caller: Seq::empty(),
            },
        ),
{
    let action_id: String = next_request_id(sequence, "act", unix_millis);
    let request = ActionRequest {
        action_id: action_id.clone(),
        action: action.to_string(),
        params_json,
        timeout_ms,
        streaming,
        caller_plugin_id: String::new(),
    };
    assert(request@.caller =~= Seq::empty());
    (action_id, Outgoing::to_kernel(Payload::ActionRequest(request)))
}

/// Messages that bring no answer are passed over: until its deadline an
/// action waits on after each of them, for exactly the time that is left.
pub proof fn unrelated_messages_are_passed_over(
    action_id: Seq<char>,
    deadline: nat,
    message: Envelope,
    now: nat,
)
    requires
        action_answer(action_id, message) is None,
        now < deadline,
    ensures
        action_step(action_id, deadline, Arrival::Message(message), now) == NextView::<
            ActionResponse,
        >::Wait((deadline - now) as nat),
{
}

/// Frames that hold no message are passed over: until its deadline a request
/// waits on after each of them, for exactly the time that is left.
pub proof fn frames_without_message_are_passed_over(
    action_id: Seq<char>,
    deadline: nat,
    now: nat,
)
    requires
        now < deadline,
    ensures
        action_step(action_id, deadline, Arrival::Other, now) == NextView::<ActionResponse>::Wait(
            (deadline - now) as nat,
        ),
        publish_step(deadline, Arrival::Other, now) == NextView::<EventPublishAck>::Wait(
            (deadline - now) as nat,
        ),
{
}

/// What a request comes to whose steps are these: it goes on as long as it
/// waits, and the first step at which it is over is its end.
pub open spec fn end_of_course<T>(first: NextView<T>, later: Seq<NextView<T>>) -> NextView<T>
    decreases later.len(),
{
    if later.len() == 0 {
        first
    } else {
        let earlier = end_of_course(first, later.drop_last());
        if earlier is Wait {
            later.last()
        } else {
            earlier
        }
    }
}

/// What an action comes to that was sent at time `sent`, after all this has
/// happened to it.
pub open spec fn action_course(
    action_id: Seq<char>,
    deadline: nat,
    sent: nat,
    arrivals: Seq<(Arrival, nat)>,
) -> NextView<ActionResponse> {
    end_of_course(
        action_step(action_id, deadline, Arrival::Sent, sent),
        Seq::new(
            arrivals.len(),
            |k: int| action_step(action_id, deadline, arrivals[k].0, arrivals[k].1),
        ),
    )
}

/// What the publication of an event comes to that was sent at time `sent`,
/// after all this has happened to it.
pub open spec fn publish_course(
    deadline: nat,
    sent: nat,
    arrivals: Seq<(Arrival, nat)>,
) -> NextView<EventPublishAck> {
    end_of_course(
        publish_step(deadline, Arrival::Sent, sent),
        Seq::new(arrivals.len(), |k: int| publish_step(deadline, arrivals[k].0, arrivals[k].1)),
    )
}

/// What happens to a request brings no answer: a frame without a message, or
/// a message that `answers` finds none in.
pub open spec fn is_unrelated(arrival: Arrival, answers: spec_fn(Envelope) -> bool) -> bool {
    match arrival {
        Arrival::Sent | Arrival::Other => true,
        Arrival::Message(message) => !answers(message),
        Arrival::Nothing => false,
    }
}

/// An action gets its answer: whatever unrelated messages and frames arrive
/// before its deadline, they are discarded, and the response with its id is
/// the result.
pub proof fn the_matching_response_is_the_result(
    action_id: Seq<char>,
    deadline: nat,
    sent: nat,
    unrelated: Seq<(Arrival, nat)>,
    answer: Envelope,
    response: ActionResponse,
    now: nat,
)
    requires
        sent < deadline,
        forall|k: int|
            0 <= k < unrelated.len() ==> is_unrelated(
                (#[trigger] unrelated[k]).0,
                |message: Envelope| action_answer(action_id, message) is Some,
            ) && unrelated[k].1 < deadline,
        answer.payload == Some(Payload::ActionResponse(response)),
        response.action_id@ == action_id,
    ensures
        action_course(
            action_id,
            deadline,
            sent,
            unrelated.push((Arrival::Message(answer), now)),
        ) == NextView::Done(Ok::<ActionResponse, ErrorView>(response)),
{
    let arrivals = unrelated.push((Arrival::Message(answer), now));
    let later = Seq::new(
        arrivals.len(),
        |k: int| action_step(action_id, deadline, arrivals[k].0, arrivals[k].1),
    );
    assert forall|k: int| 0 <= k < later.len() - 1 implies #[trigger] later[k] is Wait by {
        assert(arrivals[k] == unrelated[k]);
    }
    last_step_is_the_end(action_step(action_id, deadline, Arrival::Sent, sent), later);
}

/// The publication of an event gets its answer: whatever unrelated messages
/// and frames arrive before its deadline, they are discarded, and the first
/// acknowledgement is the result.
pub proof fn the_first_acknowledgement_is_the_result(
    deadline: nat,
    sent: nat,
    unrelated: Seq<(Arrival, nat)>,
    answer: Envelope,
    ack: EventPublishAck,
    now: nat,
)
    requires
        sent < deadline,
        forall|k: int|
            0 <= k < unrelated.len() ==> is_unrelated(
                (#[trigger] unrelated[k]).0,
                |message: Envelope| publish_answer(message) is Some,
            ) && unrelated[k].1 < deadline,
        answer.payload == Some(Payload::EventPublishAck(ack)),
    ensures
        publish_course(deadline, sent, unrelated.push((Arrival::Message(answer), now)))
            == NextView::Done(Ok::<EventPublishAck, ErrorView>(ack)),
{
    let arrivals = unrelated.push((Arrival::Message(answer), now));
    let later = Seq::new(
        arrivals.len(),
        |k: int| publish_step(deadline, arrivals[k].0, arrivals[k].1),
    );
    assert forall|k: int| 0 <= k < later.len() - 1 implies #[trigger] later[k] is Wait by {
        assert(arrivals[k] == unrelated[k]);
    }
    last_step_is_the_end(publish_step(deadline, Arrival::Sent, sent), later);
}

/// Where a request waits at all steps but the last, that one is its end.
proof fn last_step_is_the_end<T>(first: NextView<T>, later: Seq<NextView<T>>)
    requires
        first is Wait,
        forall|k: int| 0 <= k < later.len() - 1 ==> #[trigger] later[k] is Wait,
    ensures
        later.len() == 0 ==> end_of_course(first, later) is Wait,
        later.len() > 0 ==> end_of_course(first, later) == later.last(),
    decreases later.len(),
{
    if later.len() > 0 {
        let earlier = later.drop_last();
        assert forall|k: int| 0 <= k < earlier.len() - 1 implies #[trigger] earlier[k] is Wait by {
            assert(earlier[k] == later[k]);
        }
        last_step_is_the_end(first, earlier);
        if earlier.len() > 0 {
            assert(earlier.last() == later[later.len() - 2]);
        }
    }
}

/// The answer to another action is no answer.
pub proof fn answers_are_matched_by_id(
    action_id: Seq<char>,
    message: Envelope,
    response: ActionResponse,
)
    requires
        message.payload == Some(Payload::ActionResponse(response)),
    ensures
        action_answer(action_id, message) == if response.action_id@ == action_id {
            Some(Ok::<ActionResponse, ErrorView>(response))
        } else {
            None
        },
{
}

/// No request waits beyond its deadline: where it waits on, the time that it
/// waits for ends at the deadline, and after that it waits no more.
pub proof fn no_wait_outlasts_the_deadline(
    action_id: Seq<char>,
    deadline: nat,
    arrival: Arrival,
    now: nat,
)
    ensures
        action_step(action_id, deadline, arrival, now) matches NextView::Wait(left) ==> now + left
            == deadline,
        publish_step(deadline, arrival, now) matches NextView::Wait(left) ==> now + left
            == deadline,
        now >= deadline ==> action_step(action_id, deadline, arrival, now) is Done,
        now >= deadline ==> publish_step(deadline, arrival, now) is Done,
{
}

} // verus!
