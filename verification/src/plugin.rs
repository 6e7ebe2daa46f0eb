//! The life of a plugin on a connection, and the credentials it connects
//! with.

use crate::error::{ErrorView, VynkorError};
use crate::proto::{Envelope, Event, EventAck, Outgoing, Payload, PluginRegisterAck, Pong};
use vstd::prelude::*;
use vstd::string::*;

verus! {

/// What the frames of a WebSocket connection are tagged with.
#[derive(Debug, PartialEq, Eq)]
pub enum WsCredentials {
    /// A paired device: it registers with its id and uses its own secret.
    Device { device_id: String, secret: String },
    /// The master secret of the host.
    Shared(String),
    /// Nothing: the kernel takes plugins without authentication.
    Unsecured,
}

/// The model of [`WsCredentials`].
pub enum CredentialsView {
    Device(Seq<char>, Seq<char>),
    Shared(Seq<char>),
    Unsecured,
}

impl View for WsCredentials {
    type V = CredentialsView;

    open spec fn view(&self) -> CredentialsView {
        match self {
            WsCredentials::Device { device_id, secret } => CredentialsView::Device(
                device_id@,
                secret@,
            ),
            WsCredentials::Shared(secret) => CredentialsView::Shared(secret@),
            WsCredentials::Unsecured => CredentialsView::Unsecured,
        }
    }
}

/// The text that an optional string holds, if it is there.
pub open spec fn text_if_set(value: Option<String>) -> Option<Seq<char>> {
    match value {
        Some(text) => Some(text@),
        None => None,
    }
}

/// Which credentials these settings stand for, or what is wrong with them.
pub open spec fn credentials(
    device_id: Option<Seq<char>>,
    device_secret: Option<Seq<char>>,
    jwt_secret: Option<Seq<char>>,
) -> Result<CredentialsView, ErrorView> {
    match (device_id, device_secret, jwt_secret) {
        (Some(_), Some(_), Some(_)) => Err(
            ErrorView::Internal(
                "VYN_JWT_SECRET is set alongside VYN_DEVICE_ID/VYN_DEVICE_SECRET — a paired device must not hold the host master secret; unset it"@,
            ),
        ),
        (Some(id), Some(secret), None) => Ok(CredentialsView::Device(id, secret)),
        (Some(_), None, _) => Err(
            ErrorView::Internal("VYN_DEVICE_ID is set without VYN_DEVICE_SECRET"@),
        ),
        (None, Some(_), _) => Err(
            ErrorView::Internal("VYN_DEVICE_SECRET is set without VYN_DEVICE_ID"@),
        ),
        (None, None, Some(secret)) => Ok(CredentialsView::Shared(secret)),
        (None, None, None) => Ok(CredentialsView::Unsecured),
    }
}

/// Picks the credentials of a WebSocket connection from the settings that
/// are there. Half a device pair, or a master secret beside a device pair,
/// is a mistake and reported as one.
pub fn resolve_ws_credentials(
    device_id: Option<String>,
    device_secret: Option<String>,
    jwt_secret: Option<String>,
) -> (picked: Result<WsCredentials, VynkorError>)
    ensures
        match credentials(
            text_if_set(device_id),
            text_if_set(device_secret),
            text_if_set(jwt_secret),
        ) {
            Ok(expected) => picked matches Ok(picked) && picked@ == expected,
            Err(fault) => picked matches Err(error) && error@ == fault,
        },
{
    match (device_id, device_secret, jwt_secret) {
        // The master secret must not reach a paired device.
        (Some(_), Some(_), Some(_)) => Err(
            VynkorError::Internal(
                "VYN_JWT_SECRET is set alongside VYN_DEVICE_ID/VYN_DEVICE_SECRET — a paired device must not hold the host master secret; unset it".to_string(),
            ),
        ),
        (Some(device_id), Some(secret), None) => Ok(WsCredentials::Device { device_id, secret }),
        (Some(_), None, _) => Err(
            VynkorError::Internal("VYN_DEVICE_ID is set without VYN_DEVICE_SECRET".to_string()),
        ),
        (None, Some(_), _) => Err(
            VynkorError::Internal("VYN_DEVICE_SECRET is set without VYN_DEVICE_ID".to_string()),
        ),
        (None, None, Some(secret)) => Ok(WsCredentials::Shared(secret)),
        (None, None, None) => Ok(WsCredentials::Unsecured),
    }
}

/// A setting that is there but empty counts as not set.
pub fn non_empty(value: Option<String>) -> (set: Option<String>)
    ensures
        set == match value {
            Some(text) => if text@.len() == 0 {
                None::<String>
            } else {
                value
            },
            None => None,
        },
{
    match value {
        Some(text) => if text.as_str().is_empty() {
            None
        } else {
            Some(text)
        },
        None => None,
    }
}

/// A device pair is used as such or refused: whatever else is set, a plugin
/// that has part of one never falls back to the master secret or to none.
pub proof fn device_settings_never_fall_back(
    device_id: Option<Seq<char>>,
    device_secret: Option<Seq<char>>,
    jwt_secret: Option<Seq<char>>,
)
    requires
        device_id is Some || device_secret is Some,
    ensures
        credentials(device_id, device_secret, jwt_secret) matches Ok(picked) ==> picked is Device,
{
}

/// A plugin that connects as a device does not have the master secret.
pub proof fn devices_hold_no_master_secret(
    device_id: Option<Seq<char>>,
    device_secret: Option<Seq<char>>,
    jwt_secret: Option<Seq<char>>,
)
    requires
        credentials(device_id, device_secret, jwt_secret) matches Ok(picked) && picked is Device,
    ensures
        jwt_secret is None,
        credentials(device_id, device_secret, jwt_secret) == Ok::<CredentialsView, ErrorView>(
            CredentialsView::Device(device_id->0, device_secret->0),
        ),
{
}

/// Why a plugin stopped serving with a failure. `E` is the error of the
/// plugin's handlers and of the connection.
#[derive(Debug)]
pub enum ServeError<E> {
    /// The kernel did not accept the registration.
    Rejected(VynkorError),
    /// This failure ended it.
    Failed(E),
}

/// Where a plugin is in its life.
#[derive(Debug)]
enum Stage<E> {
    /// It waits for the answer to its registration.
    Registering,
    /// It starts up.
    Starting,
    /// It waits for a message.
    Receiving,
    /// It handles the event of that id.
    HandlingEvent(String),
    /// It handles a message.
    HandlingMessage,
    /// It shuts down because it could not start up.
    Aborting(E),
    /// It shuts down; the failure of a handler, if that is why.
    Stopping(Option<E>),
    /// It is over.
    Finished,
}

/// The model of the life of a plugin.
pub enum StageView<E> {
    Registering,
    Starting,
    Receiving,
    HandlingEvent(Seq<char>),
    HandlingMessage,
    Aborting(E),
    Stopping(Option<E>),
    Finished,
}

/// What happens to a plugin.
#[derive(Debug)]
pub enum Happening<E> {
    /// The answer to its registration came, or none.
    Registered(Result<PluginRegisterAck, E>),
    /// It has started up, or failed to.
    Started(Result<(), E>),
    /// A message came, or the connection is gone.
    Received(Result<Envelope, E>),
    /// The event was handled, perhaps with a reply.
    EventHandled(Result<Option<Envelope>, E>),
    /// The message was handled, perhaps with a reply.
    MessageHandled(Result<Option<Envelope>, E>),
    /// It has shut down, or failed to.
    ShutDown(Result<(), E>),
}

/// What is to be done next for a plugin.
#[derive(Debug)]
pub enum Duty<E> {
    /// Start it up.
    Start,
    /// Send these messages, whether that works or not, and wait for one.
    Receive(Vec<Outgoing>),
    /// Let it handle an event.
    HandleEvent(Event),
    /// Let it handle a message.
    HandleMessage(Envelope),
    /// Shut it down.
    ShutDown,
    /// Nothing: this is how it ended.
    Finish(Result<(), ServeError<E>>),
}

/// A message that is sent on behalf of a plugin.
pub enum Sent {
    /// The answer to a ping, with its time stamp and the time of day.
    Pong(u64, u64),
    /// The acknowledgement of an event.
    Acknowledgement(Seq<char>),
    /// What a handler replied.
    Reply(Envelope),
}

/// The model of [`Duty`].
pub enum DutyView<E> {
    Start,
    Receive(Seq<Sent>),
    HandleEvent(Event),
    HandleMessage(Envelope),
    ShutDown,
    Finish(Result<(), FailureView<E>>),
}

/// The model of [`ServeError`].
pub enum FailureView<E> {
    Rejected(ErrorView),
    Failed(E),
}

/// The message is that one, for the kernel.
pub open spec fn is_sent(message: Outgoing, sent: Sent) -> bool {
    &&& message.target@ == "kernel"@
    &&& match sent {
        Sent::Pong(original_timestamp, server_timestamp) => {
            &&& message.envelope.is_bare()
            &&& message.envelope.payload == Some(
                Payload::Pong(Pong { original_timestamp, server_timestamp }),
            )
        },
        Sent::Acknowledgement(event_id) => {
            &&& message.envelope.is_bare()
            &&& message.envelope.payload matches Some(Payload::EventAck(ack))
            &&& ack.event_id@ == event_id
        },
        Sent::Reply(envelope) => message.envelope == envelope,
    }
}

/// The messages are those, in that order.
pub open spec fn are_sent(messages: Seq<Outgoing>, sent: Seq<Sent>) -> bool {
    &&& messages.len() == sent.len()
    &&& forall|i: int| 0 <= i < sent.len() ==> is_sent(#[trigger] messages[i], sent[i])
}

/// What is to be done is that.
pub open spec fn is_duty<E>(duty: Duty<E>, expected: DutyView<E>) -> bool {
    match expected {
        DutyView::Start => duty is Start,
        DutyView::Receive(sent) => duty matches Duty::Receive(messages) && are_sent(
            messages@,
            sent,
        ),
        DutyView::HandleEvent(event) => duty == Duty::<E>::HandleEvent(event),
        DutyView::HandleMessage(envelope) => duty == Duty::<E>::HandleMessage(envelope),
        DutyView::ShutDown => duty is ShutDown,
        DutyView::Finish(Ok(())) => duty matches Duty::Finish(Ok(())),
        DutyView::Finish(Err(FailureView::Rejected(fault))) => duty matches Duty::Finish(
            Err(ServeError::Rejected(error)),
        ) && error@ == fault,
        DutyView::Finish(Err(FailureView::Failed(failure))) => duty matches Duty::Finish(
            Err(ServeError::Failed(error)),
        ) && error == failure,
    }
}

/// Whether this can happen to a plugin at this stage.
pub open spec fn can_happen<E>(stage: StageView<E>, happening: Happening<E>) -> bool {
    match stage {
        StageView::Registering => happening is Registered,
        StageView::Starting => happening is Started,
        StageView::Receiving => happening is Received,
        StageView::HandlingEvent(_) => happening is EventHandled,
        StageView::HandlingMessage => happening is MessageHandled,
        StageView::Aborting(_) => happening is ShutDown,
        StageView::Stopping(_) => happening is ShutDown,
        StageView::Finished => false,
    }
}

/// The reply of a handler, if there is one.
pub open spec fn replies(reply: Option<Envelope>) -> Seq<Sent> {
    match reply {
        Some(envelope) => seq![Sent::Reply(envelope)],
        None => seq![],
    }
}

/// What becomes of a message: pings are answered, a shutdown request ends
/// the loop, events and all else go to the plugin.
pub open spec fn taken_in<E>(envelope: Envelope, unix_millis: u64) -> (StageView<E>, DutyView<E>) {
    match envelope.payload {
        Some(Payload::Ping(ping)) => (
            StageView::Receiving,
            DutyView::Receive(seq![Sent::Pong(ping.timestamp, unix_millis)]),
        ),
        Some(Payload::PluginShutdown(_)) => (StageView::Stopping(None), DutyView::ShutDown),
        Some(Payload::Event(event)) => (
            StageView::HandlingEvent(event.event_id@),
            DutyView::HandleEvent(event),
        ),
        _ => (StageView::HandlingMessage, DutyView::HandleMessage(envelope)),
    }
}

/// The next stage in the life of a plugin, and what is to be done.
pub open spec fn lives<E>(stage: StageView<E>, happening: Happening<E>, unix_millis: u64) -> (
    StageView<E>,
    DutyView<E>,
) {
    match happening {
        Happening::Registered(Ok(ack)) => if ack.accepted {
            (StageView::Starting, DutyView::Start)
        } else {
            (
                StageView::Finished,
                DutyView::Finish(
                    Err(
                        FailureView::Rejected(
                            ErrorView::PermissionDenied(
                                "registration rejected: "@ + ack.reject_reason@,
                            ),
                        ),
                    ),
                ),
            )
        },
        Happening::Registered(Err(error)) => (
            StageView::Finished,
            DutyView::Finish(Err(FailureView::Failed(error))),
        ),
        Happening::Started(Ok(())) => (StageView::Receiving, DutyView::Receive(seq![])),
        Happening::Started(Err(error)) => (StageView::Aborting(error), DutyView::ShutDown),
        Happening::Received(Ok(envelope)) => taken_in(envelope, unix_millis),
        Happening::Received(Err(_)) => (StageView::Stopping(None), DutyView::ShutDown),
        Happening::EventHandled(Ok(reply)) => (
            StageView::Receiving,
            DutyView::Receive(
                seq![Sent::Acknowledgement(stage->HandlingEvent_0)] + replies(reply),
            ),
        ),
        Happening::EventHandled(Err(_)) => (StageView::Receiving, DutyView::Receive(seq![])),
        Happening::MessageHandled(Ok(reply)) => (
            StageView::Receiving,
            DutyView::Receive(replies(reply)),
        ),
        Happening::MessageHandled(Err(error)) => (
            StageView::Stopping(Some(error)),
            DutyView::ShutDown,
        ),
        Happening::ShutDown(result) => (
            StageView::Finished,
            DutyView::Finish(
                match (stage, result) {
                    (StageView::Aborting(error), _) => Err(FailureView::Failed(error)),
                    (_, Err(error)) => Err(FailureView::Failed(error)),
                    (StageView::Stopping(Some(error)), Ok(())) => Err(FailureView::Failed(error)),
                    (_, Ok(())) => Ok(()),
                },
            ),
        ),
    }
}

/// The life of a plugin from its registration on.
#[derive(Debug)]
pub struct ServeLoop<E> {
    stage: Stage<E>,
}

impl<E> View for ServeLoop<E> {
    type V = StageView<E>;

    closed spec fn view(&self) -> StageView<E> {
        match self.stage {
            Stage::Registering => StageView::Registering,
            Stage::Starting => StageView::Starting,
            Stage::Receiving => StageView::Receiving,
            Stage::HandlingEvent(event_id) => StageView::HandlingEvent(event_id@),
            Stage::HandlingMessage => StageView::HandlingMessage,
            Stage::Aborting(error) => StageView::Aborting(error),
            Stage::Stopping(error) => StageView::Stopping(error),
            Stage::Finished => StageView::Finished,
        }
    }
}

fn with_reply(messages: Vec<Outgoing>, reply: Option<Envelope>) -> (all: Vec<Outgoing>)
    ensures
        forall|sent: Seq<Sent>|
            are_sent(messages@, sent) ==> are_sent(all@, #[trigger] (sent + replies(reply))),
{
    let mut all = messages;
    match reply {
        Some(envelope) => {
            all.push(Outgoing { target: "kernel".to_string(), envelope });
            assert(forall|i: int| 0 <= i < messages@.len() ==> all@[i] == messages@[i]);
        },
        None => {},
    }
    all
}

impl<E> ServeLoop<E> {
    /// A plugin whose registration was sent.
    pub fn new() -> (serve: ServeLoop<E>)
        ensures
            serve@ == StageView::<E>::Registering,
    {
        ServeLoop { stage: Stage::Registering }
    }

    /// Takes in what happened and says what is to be done next.
    pub fn step(self, happening: Happening<E>, unix_millis: u64) -> (next: (ServeLoop<E>, Duty<E>))
        requires
            can_happen(self@, happening),
        ensures
            next.0@ == lives(self@, happening, unix_millis).0,
            is_duty(next.1, lives(self@, happening, unix_millis).1),
    {
        match happening {
            Happening::Registered(Ok(ack)) => if ack.accepted {
                (ServeLoop { stage: Stage::Starting }, Duty::Start)
            } else {
                let mut reason = String::from_str("registration rejected: ");
                reason.append(ack.reject_reason.as_str());
                (
                    ServeLoop { stage: Stage::Finished },
                    Duty::Finish(Err(ServeError::Rejected(VynkorError::PermissionDenied(reason)))),
                )
            },
            Happening::Registered(Err(error)) => (
                ServeLoop { stage: Stage::Finished },
                Duty::Finish(Err(ServeError::Failed(error))),
            ),
            Happening::Started(Ok(())) => (
                ServeLoop { stage: Stage::Receiving },
                Duty::Receive(Vec::new()),
            ),
            Happening::Started(Err(error)) => (
                ServeLoop { stage: Stage::Aborting(error) },
                Duty::ShutDown,
            ),
            Happening::Received(Ok(envelope)) => ServeLoop::take_in(envelope, unix_millis),
            Happening::Received(Err(_)) => (
                ServeLoop { stage: Stage::Stopping(None) },
                Duty::ShutDown,
            ),
            Happening::EventHandled(result) => {
                let messages: Vec<Outgoing> = match (self.stage, result) {
                    (Stage::HandlingEvent(event_id), Ok(reply)) => {
                        let mut acknowledgement: Vec<Outgoing> = Vec::new();
                        acknowledgement.push(
                            Outgoing::to_kernel(Payload::EventAck(EventAck { event_id })),
                        );
                        assert(are_sent(
                            acknowledgement@,
                            seq![Sent::Acknowledgement(event_id@)],
                        ));
                        with_reply(acknowledgement, reply)
                    },
                    // Without an acknowledgement the kernel sends the event
                    // again.
                    _ => Vec::new(),
                };
                (ServeLoop { stage: Stage::Receiving }, Duty::Receive(messages))
            },
            Happening::MessageHandled(Ok(reply)) => {
                let none: Vec<Outgoing> = Vec::new();
                assert(are_sent(none@, seq![]));
                assert(seq![] + replies(reply) =~= replies(reply));
                (ServeLoop { stage: Stage::Receiving }, Duty::Receive(with_reply(none, reply)))
            },
            Happening::MessageHandled(Err(error)) => (
                ServeLoop { stage: Stage::Stopping(Some(error)) },
                Duty::ShutDown,
            ),
            Happening::ShutDown(result) => {
                let end: Result<(), ServeError<E>> = match (self.stage, result) {
                    (Stage::Aborting(error), _) => Err(ServeError::Failed(error)),
                    (_, Err(error)) => Err(ServeError::Failed(error)),
                    (Stage::Stopping(Some(error)), Ok(())) => Err(ServeError::Failed(error)),
                    (_, Ok(())) => Ok(()),
                };
                (ServeLoop { stage: Stage::Finished }, Duty::Finish(end))
            },
        }
    }

    fn take_in(envelope: Envelope, unix_millis: u64) -> (next: (ServeLoop<E>, Duty<E>))
        ensures
            next.0@ == taken_in::<E>(envelope, unix_millis).0,
            is_duty(next.1, taken_in::<E>(envelope, unix_millis).1),
    {
        match envelope.payload {
            Some(Payload::Ping(ping)) => {
                let mut messages: Vec<Outgoing> = Vec::new();
                messages.push(
                    Outgoing::to_kernel(
                        Payload::Pong(
                            Pong {
                                original_timestamp: ping.timestamp,
                                server_timestamp: unix_millis,
                            },
                        ),
                    ),
                );
                (ServeLoop { stage: Stage::Receiving }, Duty::Receive(messages))
            },
            Some(Payload::PluginShutdown(_)) => (
                ServeLoop { stage: Stage::Stopping(None) },
                Duty::ShutDown,
            ),
            Some(Payload::Event(event)) => {
                let event_id: String = event.event_id.clone();
                (ServeLoop { stage: Stage::HandlingEvent(event_id) }, Duty::HandleEvent(event))
            },
            _ => (ServeLoop { stage: Stage::HandlingMessage }, Duty::HandleMessage(envelope)),
        }
    }
}

} // verus!
