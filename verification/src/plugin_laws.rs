//! What the life of a plugin is bound to.

use crate::error::VynkorError;
use crate::plugin::{
    self, non_empty, resolve_ws_credentials, Duty, DutyView, FailureView, Happening, Sent,
    ServeError, ServeLoop, StageView, WsCredentials,
};
use crate::proto::{Envelope, Payload, PluginRegisterAck};
use vstd::prelude::*;

verus! {

/// The stage that a plugin comes to after all this has happened, each at its
/// time of day.
pub open spec fn stage_after<E>(stage: StageView<E>, course: Seq<(Happening<E>, u64)>) -> StageView<E>
    decreases course.len(),
{
    if course.len() == 0 {
        stage
    } else {
        plugin::lives(
            stage_after(stage, course.drop_last()),
            course.last().0,
            course.last().1,
        ).0
    }
}

/// Whether all this can happen to a plugin, one after the other.
pub open spec fn possible<E>(stage: StageView<E>, course: Seq<(Happening<E>, u64)>) -> bool
    decreases course.len(),
{
    course.len() > 0 ==> {
        &&& possible(stage, course.drop_last())
        &&& plugin::can_happen(stage_after(stage, course.drop_last()), course.last().0)
    }
}

/// How often the plugin is told to shut down on the way.
pub open spec fn shutdowns<E>(stage: StageView<E>, course: Seq<(Happening<E>, u64)>) -> nat
    decreases course.len(),
{
    if course.len() == 0 {
        0
    } else {
        let earlier = stage_after(stage, course.drop_last());
        let duty = plugin::lives(earlier, course.last().0, course.last().1).1;
        shutdowns(stage, course.drop_last()) + if duty is ShutDown {
            1nat
        } else {
            0
        }
    }
}

/// A plugin whose registration was accepted is told to shut down exactly
/// once before it is over, however its life goes.
pub proof fn shut_down_exactly_once<E>(course: Seq<(Happening<E>, u64)>)
    requires
        possible(StageView::<E>::Starting, course),
        stage_after(StageView::<E>::Starting, course) is Finished,
    ensures
        shutdowns(StageView::<E>::Starting, course) == 1,
{
    shutdowns_so_far(course);
}

proof fn shutdowns_so_far<E>(course: Seq<(Happening<E>, u64)>)
    requires
        possible(StageView::<E>::Starting, course),
    ensures
        ({
            let stage = stage_after(StageView::<E>::Starting, course);
            &&& !(stage is Registering)
            &&& shutdowns(StageView::<E>::Starting, course) == if stage is Aborting || stage
                is Stopping || stage is Finished {
                1nat
            } else {
                0
            }
        }),
    decreases course.len(),
{
    if course.len() > 0 {
        shutdowns_so_far(course.drop_last());
    }
}

/// A plugin whose registration fails or is not accepted is over at once: it
/// is neither started up nor shut down, and its end is a failure.
pub proof fn unregistered_plugins_never_start<E>(happening: Happening<E>, unix_millis: u64)
    requires
        happening matches Happening::Registered(answer) && !(answer matches Ok(ack)
            && ack.accepted),
    ensures
        ({
            let (stage, duty) = plugin::lives(
                StageView::<E>::Registering,
                happening,
                unix_millis,
            );
            &&& stage is Finished
            &&& duty matches DutyView::Finish(end) && end is Err
        }),
{
}

/// An event is acknowledged exactly if the plugin handled it without an
/// error; the failure of an event handler does not end the plugin.
pub proof fn events_are_acknowledged_if_handled<E>(
    event_id: Seq<char>,
    result: Result<Option<Envelope>, E>,
    unix_millis: u64,
)
    ensures
        ({
            let (stage, duty) = plugin::lives(
                StageView::<E>::HandlingEvent(event_id),
                Happening::EventHandled(result),
                unix_millis,
            );
            &&& stage is Receiving
            &&& duty matches DutyView::Receive(sent) && {
                &&& result is Ok ==> sent.len() > 0 && sent[0] == Sent::Acknowledgement(event_id)
                &&& result is Err ==> sent == Seq::<Sent>::empty()
            }
        }),
{
}

/// The failure of a message handler ends the plugin, and is how it ends
/// unless shutting down fails too, whose failure is then the end.
pub proof fn handler_failures_surface<E>(
    error: E,
    shut_down: Result<(), E>,
    before: u64,
    after: u64,
)
    ensures
        ({
            let (stage, duty) = plugin::lives(
                StageView::<E>::HandlingMessage,
                Happening::MessageHandled(Err(error)),
                before,
            );
            let (end, last) = plugin::lives(stage, Happening::ShutDown(shut_down), after);
            &&& duty is ShutDown
            &&& plugin::can_happen(stage, Happening::ShutDown(shut_down))
            &&& end is Finished
            &&& last == DutyView::<E>::Finish(
                Err(
                    FailureView::Failed(
                        match shut_down {
                            Ok(()) => error,
                            Err(other) => other,
                        },
                    ),
                ),
            )
        }),
{
}

/// A plugin that fails to start up is shut down and ends with that failure,
/// whether or not shutting down works.
pub proof fn startup_failures_surface<E>(
    error: E,
    shut_down: Result<(), E>,
    before: u64,
    after: u64,
)
    ensures
        ({
            let (stage, duty) = plugin::lives(
                StageView::<E>::Starting,
                Happening::Started(Err(error)),
                before,
            );
            let (end, last) = plugin::lives(stage, Happening::ShutDown(shut_down), after);
            &&& duty is ShutDown
            &&& end is Finished
            &&& last == DutyView::<E>::Finish(Err(FailureView::Failed(error)))
        }),
{
}

/// Pings are answered with their own time stamp and never reach the plugin.
pub proof fn pings_are_answered<E>(envelope: Envelope, unix_millis: u64)
    requires
        envelope.payload is Some,
        envelope.payload->0 is Ping,
    ensures
        plugin::lives(
            StageView::<E>::Receiving,
            Happening::Received(Ok(envelope)),
            unix_millis,
        ) == (
            StageView::<E>::Receiving,
            DutyView::<E>::Receive(
                seq![Sent::Pong(envelope.payload->0->Ping_0.timestamp, unix_millis)],
            ),
        ),
{
}

/// A shutdown request and the loss of the connection end a plugin without a
/// failure of its own.
pub proof fn shutdown_and_disconnect_end_well<E>(
    received: Result<Envelope, E>,
    before: u64,
    after: u64,
)
    requires
        received matches Ok(envelope) ==> envelope.payload matches Some(Payload::PluginShutdown(_)),
    ensures
        ({
            let (stage, duty) = plugin::lives(
                StageView::<E>::Receiving,
                Happening::Received(received),
                before,
            );
            let (end, last) = plugin::lives(stage, Happening::ShutDown(Ok(())), after);
            &&& duty is ShutDown
            &&& end is Finished
            &&& last == DutyView::<E>::Finish(Ok(()))
        }),
{
}

/// What a serving plugin gets is handed on, whole and to the right handler:
/// an event to its event handler, and every other message that is neither a
/// ping nor a shutdown request, such as a request for an action, to its
/// message handler. Pings are answered in the plugin's place, and a shutdown
/// request stops it.
pub proof fn received_messages_reach_their_handler<E>(
    serve: ServeLoop<E>,
    envelope: Envelope,
    unix_millis: u64,
    next: (ServeLoop<E>, Duty<E>),
)
    requires
        serve@ is Receiving,
        call_ensures(
            ServeLoop::<E>::step,
            (serve, Happening::Received(Ok(envelope)), unix_millis),
            next,
        ),
    ensures
        call_requires(
            ServeLoop::<E>::step,
            (serve, Happening::Received(Ok(envelope)), unix_millis),
        ),
        match envelope.payload {
            Some(Payload::Ping(ping)) => {
                &&& next.0@ is Receiving
                &&& next.1 matches Duty::Receive(messages)
                &&& messages@.len() == 1
                &&& messages@[0].target@ == "kernel"@
                &&& messages@[0].envelope.message_id@.len() == 0
                &&& messages@[0].envelope.timestamp == 0
                &&& messages@[0].envelope.sender_id@.len() == 0
                &&& messages@[0].envelope.payload matches Some(Payload::Pong(pong))
                &&& pong.original_timestamp == ping.timestamp
                &&& pong.server_timestamp == unix_millis
            },
            Some(Payload::PluginShutdown(_)) => {
                &&& next.0@ == StageView::<E>::Stopping(None)
                &&& next.1 is ShutDown
            },
            Some(Payload::Event(event)) => {
                &&& next.0@ == StageView::<E>::HandlingEvent(event.event_id@)
                &&& next.1 == Duty::<E>::HandleEvent(event)
            },
            _ => {
                &&& next.0@ is HandlingMessage
                &&& next.1 == Duty::<E>::HandleMessage(envelope)
            },
        },
{
    if let Some(Payload::Ping(ping)) = envelope.payload {
        let sent = seq![Sent::Pong(ping.timestamp, unix_millis)];
        assert(plugin::is_duty(next.1, DutyView::<E>::Receive(sent)));
        assert(plugin::is_sent(next.1->Receive_0@[0], sent[0]));
    }
}

/// A handled event is acknowledged by its own id, and the reply follows the
/// acknowledgement; an event that was not handled leads to no message at all.
/// Either way the plugin goes on.
pub proof fn handled_events_are_answered<E>(
    serve: ServeLoop<E>,
    event_id: Seq<char>,
    result: Result<Option<Envelope>, E>,
    unix_millis: u64,
    next: (ServeLoop<E>, Duty<E>),
)
    requires
        serve@ == StageView::<E>::HandlingEvent(event_id),
        call_ensures(
            ServeLoop::<E>::step,
            (serve, Happening::EventHandled(result), unix_millis),
            next,
        ),
    ensures
        call_requires(ServeLoop::<E>::step, (serve, Happening::EventHandled(result), unix_millis)),
        next.0@ is Receiving,
        next.1 is Receive,
        ({
            let messages = next.1->Receive_0@;
            match result {
                Ok(reply) => {
                    &&& messages.len() == if reply is Some {
                        2int
                    } else {
                        1
                    }
                    &&& messages[0].target@ == "kernel"@
                    &&& messages[0].envelope.message_id@.len() == 0
                    &&& messages[0].envelope.timestamp == 0
                    &&& messages[0].envelope.sender_id@.len() == 0
                    &&& messages[0].envelope.payload matches Some(Payload::EventAck(ack))
                    &&& ack.event_id@ == event_id
                    &&& reply matches Some(envelope) ==> messages[1].target@ == "kernel"@
                        && messages[1].envelope == envelope
                },
                Err(_) => messages.len() == 0,
            }
        }),
{
    if let Ok(reply) = result {
        let sent = seq![Sent::Acknowledgement(event_id)] + plugin::replies(reply);
        assert(plugin::is_duty(next.1, DutyView::<E>::Receive(sent)));
        assert(plugin::is_sent(next.1->Receive_0@[0], sent[0]));
        if reply is Some {
            assert(plugin::is_sent(next.1->Receive_0@[1], sent[1]));
        }
    }
}

/// A handled message leads to its reply, whole, and to nothing else; the
/// failure of its handler stops the plugin.
pub proof fn handled_messages_are_answered<E>(
    serve: ServeLoop<E>,
    result: Result<Option<Envelope>, E>,
    unix_millis: u64,
    next: (ServeLoop<E>, Duty<E>),
)
    requires
        serve@ is HandlingMessage,
        call_ensures(
            ServeLoop::<E>::step,
            (serve, Happening::MessageHandled(result), unix_millis),
            next,
        ),
    ensures
        call_requires(
            ServeLoop::<E>::step,
            (serve, Happening::MessageHandled(result), unix_millis),
        ),
        match result {
            Ok(Some(envelope)) => {
                &&& next.0@ is Receiving
                &&& next.1 matches Duty::Receive(messages)
                &&& messages@.len() == 1
                &&& messages@[0].target@ == "kernel"@
                &&& messages@[0].envelope == envelope
            },
            Ok(None) => {
                &&& next.0@ is Receiving
                &&& next.1 matches Duty::Receive(messages)
                &&& messages@.len() == 0
            },
            Err(error) => {
                &&& next.0@ == StageView::<E>::Stopping(Some(error))
                &&& next.1 is ShutDown
            },
        },
{
    if let Ok(reply) = result {
        let sent = plugin::replies(reply);
        assert(plugin::is_duty(next.1, DutyView::<E>::Receive(sent)));
        if reply is Some {
            assert(plugin::is_sent(next.1->Receive_0@[0], sent[0]));
        }
    }
}

/// A plugin is started up exactly if the kernel accepted it, and its end says
/// why if not: with the words of the kernel, or the failure of the
/// registration.
pub proof fn accepted_plugins_start<E>(
    serve: ServeLoop<E>,
    answer: Result<PluginRegisterAck, E>,
    unix_millis: u64,
    next: (ServeLoop<E>, Duty<E>),
)
    requires
        serve@ is Registering,
        call_ensures(
            ServeLoop::<E>::step,
            (serve, Happening::Registered(answer), unix_millis),
            next,
        ),
    ensures
        call_requires(ServeLoop::<E>::step, (serve, Happening::Registered(answer), unix_millis)),
        match answer {
            Ok(ack) => if ack.accepted {
                next.0@ is Starting && next.1 is Start
            } else {
                &&& next.0@ is Finished
                &&& next.1 matches Duty::Finish(
                    Err(ServeError::Rejected(VynkorError::PermissionDenied(reason))),
                )
                &&& reason@ == "registration rejected: "@ + ack.reject_reason@
            },
            Err(error) => {
                &&& next.0@ is Finished
                &&& next.1 == Duty::Finish(Err::<(), ServeError<E>>(ServeError::Failed(error)))
            },
        },
{
}

/// A plugin that has started up waits for messages and sends none; one that
/// has failed to, and one whose connection is gone, are shut down.
pub proof fn started_plugins_serve<E>(
    serve: ServeLoop<E>,
    happening: Happening<E>,
    unix_millis: u64,
    next: (ServeLoop<E>, Duty<E>),
)
    requires
        serve@ is Starting && happening is Started || serve@ is Receiving && (happening matches
            Happening::Received(received) && received is Err),
        call_ensures(ServeLoop::<E>::step, (serve, happening, unix_millis), next),
    ensures
        call_requires(ServeLoop::<E>::step, (serve, happening, unix_millis)),
        happening matches Happening::Started(Ok(())) ==> next.0@ is Receiving && (
        next.1 matches Duty::Receive(messages) && messages@.len() == 0),
        happening matches Happening::Started(Err(error)) ==> next.0@
            == StageView::<E>::Aborting(error) && next.1 is ShutDown,
        happening is Received ==> next.0@ == StageView::<E>::Stopping(None) && next.1 is ShutDown,
{
}

/// How a plugin ends: with the failure that kept it from starting up; else
/// with that of shutting down; else with that of the handler that stopped it;
/// else well.
pub proof fn the_first_failure_is_the_end<E>(
    serve: ServeLoop<E>,
    shut_down: Result<(), E>,
    unix_millis: u64,
    next: (ServeLoop<E>, Duty<E>),
)
    requires
        serve@ is Aborting || serve@ is Stopping,
        call_ensures(
            ServeLoop::<E>::step,
            (serve, Happening::ShutDown(shut_down), unix_millis),
            next,
        ),
    ensures
        call_requires(ServeLoop::<E>::step, (serve, Happening::ShutDown(shut_down), unix_millis)),
        next.0@ is Finished,
        serve@ matches StageView::Aborting(error) ==> next.1 == Duty::Finish(
            Err::<(), ServeError<E>>(ServeError::Failed(error)),
        ),
        serve@ matches StageView::Stopping(failure) ==> match (shut_down, failure) {
            (Err(error), _) => next.1 == Duty::Finish(
                Err::<(), ServeError<E>>(ServeError::Failed(error)),
            ),
            (Ok(()), Some(error)) => next.1 == Duty::Finish(
                Err::<(), ServeError<E>>(ServeError::Failed(error)),
            ),
            (Ok(()), None) => next.1 matches Duty::Finish(Ok(())),
        },
{
}

/// A life begins with the registration, and at every stage the plugin takes
/// what its duty leads to, whatever comes of it.
pub proof fn every_duty_can_be_answered<E>(
    fresh: ServeLoop<E>,
    serve: ServeLoop<E>,
    happening: Happening<E>,
    unix_millis: u64,
)
    requires
        call_ensures(ServeLoop::<E>::new, (), fresh),
        ({
            ||| serve@ is Registering && happening is Registered
            ||| serve@ is Starting && happening is Started
            ||| serve@ is Receiving && happening is Received
            ||| serve@ is HandlingEvent && happening is EventHandled
            ||| serve@ is HandlingMessage && happening is MessageHandled
            ||| serve@ is Aborting && happening is ShutDown
            ||| serve@ is Stopping && happening is ShutDown
        }),
    ensures
        call_requires(ServeLoop::<E>::new, ()),
        fresh@ is Registering,
        call_requires(ServeLoop::<E>::step, (serve, happening, unix_millis)),
{
}

/// Which credentials settings stand for: a full device pair that device, the
/// master secret alone that secret, nothing at all an unsecured connection;
/// and what is said about every other mixture.
pub proof fn settings_pick_the_credentials(
    device_id: Option<String>,
    device_secret: Option<String>,
    jwt_secret: Option<String>,
    picked: Result<WsCredentials, VynkorError>,
)
    requires
        call_ensures(resolve_ws_credentials, (device_id, device_secret, jwt_secret), picked),
    ensures
        call_requires(resolve_ws_credentials, (device_id, device_secret, jwt_secret)),
        device_id is Some && device_secret is Some && jwt_secret is None ==> (picked matches Ok(
            WsCredentials::Device { device_id: id, secret },
        ) && id@ == device_id->0@ && secret@ == device_secret->0@),
        device_id is None && device_secret is None && jwt_secret is Some ==> (picked matches Ok(
            WsCredentials::Shared(secret),
        ) && secret@ == jwt_secret->0@),
        device_id is None && device_secret is None && jwt_secret is None ==> (picked matches Ok(
            WsCredentials::Unsecured,
        )),
        device_id is Some && device_secret is Some && jwt_secret is Some ==> (picked matches Err(
            VynkorError::Internal(message),
        ) && message@
            == "VYN_JWT_SECRET is set alongside VYN_DEVICE_ID/VYN_DEVICE_SECRET — a paired device must not hold the host master secret; unset it"@),
        device_id is Some && device_secret is None ==> (picked matches Err(
            VynkorError::Internal(message),
        ) && message@ == "VYN_DEVICE_ID is set without VYN_DEVICE_SECRET"@),
        device_id is None && device_secret is Some ==> (picked matches Err(
            VynkorError::Internal(message),
        ) && message@ == "VYN_DEVICE_SECRET is set without VYN_DEVICE_ID"@),
{
}

/// Only empty settings count as not set.
pub proof fn empty_settings_are_unset(value: Option<String>, set: Option<String>)
    requires
        call_ensures(non_empty, (value,), set),
    ensures
        call_requires(non_empty, (value,)),
        value matches Some(text) && text@.len() > 0 ==> set == value,
        value matches Some(text) && text@.len() == 0 ==> set is None,
        value is None ==> set is None,
{
}

} // verus!
