//! What requests come to, and what each of them sends.

use crate::client::VynkorClient;
use crate::error::VynkorError;
use crate::ids::Sequence;
use crate::proto::{
    ActionResponse, AudioStreamChunk, Envelope, EventPublishAck, KernelCommandAck, Outgoing,
    Payload,
};
use crate::requests::{
    action_next, command_reply, ping_reply, publish_next, Arrival, Deadline, Next,
};
use crate::span::Span;
use crate::text;
use vstd::prelude::*;

verus! {

/// A request waits exactly as long as its sender says, to the millisecond,
/// and for half a minute if the sender says nothing; any time on the clock
/// will do as long as the deadline is one too.
pub proof fn deadlines_follow_the_timeout(now: Span, timeout_ms: u32, deadline: Deadline)
    requires
        call_ensures(Deadline::after, (now, timeout_ms), deadline),
        now@ + 4_294_967_295_000_000 <= 18_446_744_073_709_551_615_999_999_999,
    ensures
        call_requires(Deadline::after, (now, timeout_ms)),
        timeout_ms != 0 ==> deadline@ == now@ + timeout_ms * 1_000_000,
        timeout_ms == 0 ==> deadline@ == now@ + 30_000_000_000,
{
}

/// What is left before a deadline is the time up to it; from the deadline on
/// there is nothing left.
pub proof fn remaining_time_ends_at_the_deadline(
    deadline: &Deadline,
    now: Span,
    left: Result<Span, VynkorError>,
)
    requires
        call_ensures(Deadline::remaining, (deadline, now), left),
    ensures
        call_requires(Deadline::remaining, (deadline, now)),
        match left {
            Ok(left) => left@ > 0 && now@ + left@ == deadline@,
            Err(error) => error is Timeout && now@ >= deadline@,
        },
{
}

/// What ends an action, and how: the response with its id, an abort with its
/// id, an error of the kernel, or the end of its time. Everything else is
/// passed over, and the action waits on until its deadline.
pub proof fn actions_end_with_their_answer(
    action_id: &String,
    deadline: Deadline,
    arrival: Arrival,
    now: Span,
    next: Next<ActionResponse>,
)
    requires
        call_ensures(action_next, (action_id, deadline, arrival, now), next),
    ensures
        call_requires(action_next, (action_id, deadline, arrival, now)),
        match arrival {
            Arrival::Message(message) => match message.payload {
                Some(Payload::ActionResponse(response)) => response.action_id@ == action_id@
                    ==> next == Next::Done(Ok::<ActionResponse, VynkorError>(response)),
                Some(Payload::ActionStreamAbort(abort)) => abort.action_id@ == action_id@ ==> (
                next matches Next::Done(Err(VynkorError::Internal(text))) && text@
                    == "stream aborted: "@ + abort.reason@),
                Some(Payload::Error(error)) => next matches Next::Done(
                    Err(VynkorError::Internal(text)),
                ) && text@ == "kernel error: "@ + error.message@ + " ("@ + error.details@ + ")"@,
                _ => true,
            },
            Arrival::Nothing => next matches Next::Done(Err(VynkorError::Timeout)),
            _ => true,
        },
        ({
            let unrelated = match arrival {
                Arrival::Message(message) => match message.payload {
                    Some(Payload::ActionResponse(response)) => response.action_id@ != action_id@,
                    Some(Payload::ActionStreamAbort(abort)) => abort.action_id@ != action_id@,
                    Some(Payload::Error(_)) => false,
                    _ => true,
                },
                Arrival::Nothing => false,
                Arrival::Sent => true,
                Arrival::Other => true,
            };
            &&& unrelated && now@ < deadline@ ==> (next matches Next::Wait(left) && now@ + left@
                == deadline@)
            &&& unrelated && now@ >= deadline@ ==> (next matches Next::Done(
                Err(VynkorError::Timeout),
            ))
        }),
{
}

/// What ends the publication of an event, and how: an acknowledgement, an
/// error of the kernel, or the end of its time. Everything else is passed
/// over, and the publication waits on until its deadline.
pub proof fn publications_end_with_their_answer(
    deadline: Deadline,
    arrival: Arrival,
    now: Span,
    next: Next<EventPublishAck>,
)
    requires
        call_ensures(publish_next, (deadline, arrival, now), next),
    ensures
        call_requires(publish_next, (deadline, arrival, now)),
        match arrival {
            Arrival::Message(message) => match message.payload {
                Some(Payload::EventPublishAck(ack)) => next == Next::Done(
                    Ok::<EventPublishAck, VynkorError>(ack),
                ),
                Some(Payload::Error(error)) => next matches Next::Done(
                    Err(VynkorError::Internal(text)),
                ) && text@ == "kernel error: "@ + error.message@ + " ("@ + error.details@ + ")"@,
                _ => true,
            },
            Arrival::Nothing => next matches Next::Done(Err(VynkorError::Timeout)),
            _ => true,
        },
        ({
            let unrelated = match arrival {
                Arrival::Message(message) => match message.payload {
                    Some(Payload::EventPublishAck(_)) => false,
                    Some(Payload::Error(_)) => false,
                    _ => true,
                },
                Arrival::Nothing => false,
                Arrival::Sent => true,
                Arrival::Other => true,
            };
            &&& unrelated && now@ < deadline@ ==> (next matches Next::Wait(left) && now@ + left@
                == deadline@)
            &&& unrelated && now@ >= deadline@ ==> (next matches Next::Done(
                Err(VynkorError::Timeout),
            ))
        }),
{
}

/// A command is answered by its acknowledgement, and by nothing else.
pub proof fn commands_are_answered(
    reply: Envelope,
    result: Result<KernelCommandAck, VynkorError>,
)
    requires
        call_ensures(command_reply, (reply,), result),
    ensures
        call_requires(command_reply, (reply,)),
        match reply.payload {
            Some(Payload::KernelCommandAck(ack)) => result == Ok::<KernelCommandAck, VynkorError>(
                ack,
            ),
            _ => result matches Err(VynkorError::Internal(text)) && text@
                == "expected KernelCommandAck"@,
        },
{
}

/// A ping is answered by a pong, and by nothing else; the latency is the time
/// in between.
pub proof fn pings_are_timed(
    reply: Envelope,
    started: Span,
    now: Span,
    latency: Result<Span, VynkorError>,
)
    requires
        call_ensures(ping_reply, (reply, started, now), latency),
    ensures
        call_requires(ping_reply, (reply, started, now)),
        match reply.payload {
            Some(Payload::Pong(_)) => latency matches Ok(latency) && (now@ >= started@ ==> started@
                + latency@ == now@) && (now@ < started@ ==> latency@ == 0),
            _ => latency matches Err(VynkorError::Internal(text)) && text@ == "expected Pong"@,
        },
{
}

/// An action is asked for by name, with the parameters and the timeout that
/// the caller gives, under an id that no other request has: it ends in the
/// next number of the sequence.
pub proof fn actions_are_sent_as_asked(
    client: &VynkorClient,
    sequence: &mut Sequence,
    action: &str,
    params_json: &[u8],
    timeout_ms: u32,
    unix_millis: u64,
    sent: (String, Outgoing),
)
    requires
        call_ensures(
            VynkorClient::send_action,
            (client, sequence, action, params_json, timeout_ms, unix_millis),
            sent,
        ),
    ensures
        call_requires(
            VynkorClient::send_action,
            (client, sequence, action, params_json, timeout_ms, unix_millis),
        ),
        final(sequence)@ == (old(sequence)@ + 1) % 0x1_0000_0000_0000_0000,
        sent.0@ == "act"@ + "-"@ + text::decimal(unix_millis as nat) + "-"@ + text::decimal(
            old(sequence)@ as nat,
        ),
        sent.1.target@ == "kernel"@,
        sent.1.envelope.message_id@.len() == 0,
        sent.1.envelope.timestamp == 0,
        sent.1.envelope.sender_id@.len() == 0,
        sent.1.envelope.payload matches Some(Payload::ActionRequest(request)) && {
            &&& request.action_id@ == sent.0@
            &&& request.action@ == action@
            &&& request.params_json@ == params_json@
            &&& request.timeout_ms == timeout_ms
            &&& !request.streaming
            &&& request.caller_plugin_id@.len() == 0
        },
{
}

/// A streaming action is asked for by name, without parameters, under an id
/// that no other request has.
pub proof fn streaming_actions_are_sent_as_asked(
    client: &VynkorClient,
    sequence: &mut Sequence,
    action: &str,
    timeout_ms: u32,
    unix_millis: u64,
    sent: (String, Outgoing),
)
    requires
        call_ensures(
            VynkorClient::send_action_streaming,
            (client, sequence, action, timeout_ms, unix_millis),
            sent,
        ),
    ensures
        call_requires(
            VynkorClient::send_action_streaming,
            (client, sequence, action, timeout_ms, unix_millis),
        ),
        final(sequence)@ == (old(sequence)@ + 1) % 0x1_0000_0000_0000_0000,
        sent.0@ == "act"@ + "-"@ + text::decimal(unix_millis as nat) + "-"@ + text::decimal(
            old(sequence)@ as nat,
        ),
        sent.1.target@ == "kernel"@,
        sent.1.envelope.message_id@.len() == 0,
        sent.1.envelope.timestamp == 0,
        sent.1.envelope.sender_id@.len() == 0,
        sent.1.envelope.payload matches Some(Payload::ActionRequest(request)) && {
            &&& request.action_id@ == sent.0@
            &&& request.action@ == action@
            &&& request.params_json@.len() == 0
            &&& request.timeout_ms == timeout_ms
            &&& request.streaming
            &&& request.caller_plugin_id@.len() == 0
        },
{
}

/// Events are subscribed to, given up, acknowledged and published with what
/// the caller says, and nothing of it is changed.
pub proof fn events_are_sent_as_asked(
    client: &VynkorClient,
    event_types: Vec<String>,
    event_id: &str,
    event_type: &str,
    payload_json: &[u8],
    subscribed: Outgoing,
    unsubscribed: Outgoing,
    acknowledged: Outgoing,
    published: Outgoing,
)
    requires
        call_ensures(VynkorClient::subscribe, (client, event_types), subscribed),
        call_ensures(VynkorClient::unsubscribe, (client, event_types), unsubscribed),
        call_ensures(VynkorClient::ack_event, (client, event_id), acknowledged),
        call_ensures(VynkorClient::publish_event, (client, event_type, payload_json), published),
    ensures
        call_requires(VynkorClient::subscribe, (client, event_types)),
        call_requires(VynkorClient::unsubscribe, (client, event_types)),
        call_requires(VynkorClient::ack_event, (client, event_id)),
        call_requires(VynkorClient::publish_event, (client, event_type, payload_json)),
        forall|message: Outgoing|
            message == subscribed || message == unsubscribed || message == acknowledged || message
                == published ==> {
                &&& (#[trigger] message.target)@ == "kernel"@
                &&& message.envelope.message_id@.len() == 0
                &&& message.envelope.timestamp == 0
                &&& message.envelope.sender_id@.len() == 0
            },
        subscribed.envelope.payload matches Some(Payload::Subscribe(sent)) && sent.event_types
            == event_types,
        unsubscribed.envelope.payload matches Some(Payload::Unsubscribe(sent)) && sent.event_types
            == event_types,
        acknowledged.envelope.payload matches Some(Payload::EventAck(sent)) && sent.event_id@
            == event_id@,
        published.envelope.payload matches Some(Payload::EventPublish(sent)) && sent.event_type@
            == event_type@ && sent.payload_json@ == payload_json@,
{
}

/// Chunks of a streaming session, and its end, are sent with what the caller
/// says, and nothing of it is changed.
pub proof fn sessions_are_sent_as_asked(
    client: &VynkorClient,
    action_id: &str,
    seq: u32,
    chunk: Vec<u8>,
    is_final: bool,
    reason: &str,
    request_chunk: Outgoing,
    response_chunk: Outgoing,
    closed: Outgoing,
)
    requires
        call_ensures(
            VynkorClient::send_request_chunk,
            (client, action_id, seq, chunk, is_final),
            request_chunk,
        ),
        call_ensures(
            VynkorClient::send_response_chunk,
            (client, action_id, seq, chunk),
            response_chunk,
        ),
        call_ensures(VynkorClient::close_session, (client, action_id, reason), closed),
    ensures
        call_requires(VynkorClient::send_request_chunk, (client, action_id, seq, chunk, is_final)),
        call_requires(VynkorClient::send_response_chunk, (client, action_id, seq, chunk)),
        call_requires(VynkorClient::close_session, (client, action_id, reason)),
        forall|message: Outgoing|
            message == request_chunk || message == response_chunk || message == closed ==> {
                &&& (#[trigger] message.target)@ == "kernel"@
                &&& message.envelope.message_id@.len() == 0
                &&& message.envelope.timestamp == 0
                &&& message.envelope.sender_id@.len() == 0
            },
        request_chunk.envelope.payload matches Some(Payload::ActionRequestChunk(sent)) && {
            &&& sent.action_id@ == action_id@
            &&& sent.seq == seq
            &&& sent.chunk@ == chunk@
            &&& sent.is_final == is_final
        },
        response_chunk.envelope.payload matches Some(Payload::ActionResponseChunk(sent)) && {
            &&& sent.action_id@ == action_id@
            &&& sent.seq == seq
            &&& sent.chunk@ == chunk@
        },
        closed.envelope.payload matches Some(Payload::SessionClose(sent)) && sent.action_id@
            == action_id@ && sent.reason@ == reason@,
{
}

/// Commands and pings go to the kernel, and audio to the plugin that is named,
/// with what the caller says.
pub proof fn commands_and_audio_are_sent_as_asked(
    client: &VynkorClient,
    command_id: &str,
    command: &str,
    params_json: &[u8],
    unix_millis: u64,
    target: &str,
    chunk: AudioStreamChunk,
    commanded: Outgoing,
    pinged: Outgoing,
    audio: Outgoing,
)
    requires
        call_ensures(
            VynkorClient::send_command,
            (client, command_id, command, params_json),
            commanded,
        ),
        call_ensures(VynkorClient::ping, (client, unix_millis), pinged),
        call_ensures(VynkorClient::send_audio_chunk, (client, target, chunk), audio),
    ensures
        call_requires(VynkorClient::send_command, (client, command_id, command, params_json)),
        call_requires(VynkorClient::ping, (client, unix_millis)),
        call_requires(VynkorClient::send_audio_chunk, (client, target, chunk)),
        commanded.target@ == "kernel"@,
        pinged.target@ == "kernel"@,
        audio.target@ == target@,
        forall|message: Outgoing|
            message == commanded || message == pinged || message == audio ==> {
                &&& (#[trigger] message.envelope).message_id@.len() == 0
                &&& message.envelope.timestamp == 0
                &&& message.envelope.sender_id@.len() == 0
            },
        commanded.envelope.payload matches Some(Payload::KernelCommand(sent)) && {
            &&& sent.command_id@ == command_id@
            &&& sent.command@ == command@
            &&& sent.params_json@ == params_json@
        },
        pinged.envelope.payload matches Some(Payload::Ping(sent)) && sent.timestamp == unix_millis,
        audio.envelope.payload == Some(Payload::AudioStreamChunk(chunk)),
{
}

} // verus!
