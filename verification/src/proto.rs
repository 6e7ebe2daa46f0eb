//! The messages of the Vynkor protocol.

use vstd::prelude::*;

verus! {

/// Every message travels in an envelope.
#[derive(Debug)]
pub struct Envelope {
    pub message_id: String,
    pub timestamp: u64,
    pub sender_id: String,
    pub payload: Option<Payload>,
}

/// The message in an envelope.
#[derive(Debug)]
pub enum Payload {
    PluginRegister(PluginRegister),
    PluginRegisterAck(PluginRegisterAck),
    PluginShutdown(PluginShutdown),
    ActionRequest(ActionRequest),
    ActionResponse(ActionResponse),
    ActionRequestChunk(ActionRequestChunk),
    ActionResponseChunk(ActionResponseChunk),
    ActionStreamAbort(ActionStreamAbort),
    SessionClose(SessionClose),
    KernelCommand(KernelCommand),
    KernelCommandAck(KernelCommandAck),
    Event(Event),
    EventAck(EventAck),
    Subscribe(Subscribe),
    Unsubscribe(Unsubscribe),
    EventPublish(EventPublish),
    EventPublishAck(EventPublishAck),
    AudioStreamChunk(AudioStreamChunk),
    Ping(Ping),
    Pong(Pong),
    Error(ErrorMessage),
}

/// A plugin asks to be registered.
#[derive(Debug)]
pub struct PluginRegister {
    pub plugin_id: String,
    pub version: String,
    pub description: String,
    pub manifest: Option<PluginManifest>,
    pub jwt_token: String,
    /// The paired device that the plugin runs on; empty for local plugins.
    pub device_id: String,
    /// Code of the operating system family; 0 when unspecified.
    pub os: i32,
    pub arch: String,
    pub os_version: String,
    pub capabilities: Vec<String>,
    pub protocol_version: String,
    pub user_id: String,
}

/// The kernel's answer to a registration.
#[derive(Debug)]
pub struct PluginRegisterAck {
    pub accepted: bool,
    pub reject_reason: String,
    pub granted_permissions: Vec<String>,
    /// Fresh for each registration on secured kernels, empty on others.
    pub session_nonce: Vec<u8>,
}

/// The kernel asks a plugin to end.
#[derive(Debug)]
pub struct PluginShutdown {
    pub reason: String,
    pub grace_seconds: u32,
}

/// What a plugin declares it can do.
#[derive(Debug)]
pub struct PluginManifest {
    pub permissions: Vec<String>,
    pub actions: Vec<String>,
    pub events: Vec<String>,
    pub ipc_targets: Vec<String>,
    pub platforms: Vec<String>,
    pub action_specs: Vec<ActionSpec>,
}

/// The description of one action.
#[derive(Debug)]
pub struct ActionSpec {
    pub name: String,
    pub description: String,
    /// JSON Schema of the parameters.
    pub params_schema: String,
    /// Code of an [`ActionRisk`].
    pub risk: i32,
    pub requires_confirmation: bool,
}

/// How risky an action is.
#[derive(Clone, Copy, Debug, PartialEq, Eq, Structural)]
pub enum ActionRisk {
    Unknown,
    Low,
    Medium,
    High,
    Critical,
}

/// A request to perform an action.
#[derive(Debug)]
pub struct ActionRequest {
    pub action_id: String,
    pub action: String,
    pub params_json: Vec<u8>,
    /// How long the requester waits, in milliseconds; 0 for the default.
    pub timeout_ms: u32,
    pub streaming: bool,
    /// Who asks. The kernel stamps it on requests that it forwards; a value
    /// set by the requester is overwritten.
    pub caller_plugin_id: String,
}

/// The model of an [`ActionRequest`].
#[verifier::ext_equal]
pub struct RequestView {
    pub action_id: Seq<char>,
    pub action: Seq<char>,
    pub params: Seq<u8>,
    pub timeout_ms: u32,
    pub streaming: bool,
    pub caller: Seq<char>,
}

impl View for ActionRequest {
    type V = RequestView;

    open spec fn view(&self) -> RequestView {
        RequestView {
            action_id: self.action_id@,
            action: self.action@,
            params: self.params_json@,
            timeout_ms: self.timeout_ms,
            streaming: self.streaming,
            caller: self.caller_plugin_id@,
        }
    }
}

/// The answer to a request.
#[derive(Debug)]
pub struct ActionResponse {
    pub action_id: String,
    /// Code of an [`ActionStatus`].
    pub status: i32,
    pub data_json: Vec<u8>,
    pub error: String,
}

/// How a request ended.
#[derive(Clone, Copy, Debug, PartialEq, Eq, Structural)]
pub enum ActionStatus {
    ActionUnknown,
    ActionOk,
    ActionError,
    ActionTimeout,
    ActionPermissionDeny,
    ActionNotFound,
    ActionQuotaExceeded,
    ActionStreamBackpressure,
}

/// A part of the body of a streaming request.
#[derive(Debug)]
pub struct ActionRequestChunk {
    pub action_id: String,
    pub seq: u32,
    pub chunk: Vec<u8>,
    /// Set on the last part.
    pub is_final: bool,
}

/// A part of the body of a streaming response.
#[derive(Debug)]
pub struct ActionResponseChunk {
    pub action_id: String,
    pub seq: u32,
    pub chunk: Vec<u8>,
}

/// The kernel has cut off a stream.
#[derive(Debug)]
pub struct ActionStreamAbort {
    pub action_id: String,
    pub reason: String,
}

/// A peer closes a streaming session.
#[derive(Debug)]
pub struct SessionClose {
    pub action_id: String,
    pub reason: String,
}

/// A command to the kernel.
#[derive(Debug)]
pub struct KernelCommand {
    pub command_id: String,
    pub command: String,
    pub params_json: Vec<u8>,
}

/// The answer to a command.
#[derive(Debug)]
pub struct KernelCommandAck {
    pub command_id: String,
    pub status: i32,
    pub data_json: Vec<u8>,
    pub error: String,
}

/// An event that the kernel delivers.
#[derive(Debug)]
pub struct Event {
    pub event_id: String,
    pub event_type: String,
    pub payload_json: Vec<u8>,
    pub retry_count: u32,
}

/// An event was handled.
#[derive(Debug)]
pub struct EventAck {
    pub event_id: String,
}

/// A wish for events of these types; `"*"` stands for all.
#[derive(Debug)]
pub struct Subscribe {
    pub event_types: Vec<String>,
}

/// The end of such a wish.
#[derive(Debug)]
pub struct Unsubscribe {
    pub event_types: Vec<String>,
}

/// An event for the kernel to deliver.
#[derive(Debug)]
pub struct EventPublish {
    pub event_type: String,
    pub payload_json: Vec<u8>,
}

/// The answer to a published event.
#[derive(Debug)]
pub struct EventPublishAck {
    pub event_id: String,
    pub status: i32,
    pub error: String,
}

/// A part of an audio stream between plugins.
#[derive(Debug)]
pub struct AudioStreamChunk {
    pub stream_id: u32,
    pub codec: i32,
    pub sample_rate: u32,
    pub channels: u32,
    pub data: Vec<u8>,
    pub end_of_stream: bool,
}

/// A sign of life is asked for.
#[derive(Debug)]
pub struct Ping {
    pub timestamp: u64,
}

/// The sign of life.
#[derive(Debug)]
pub struct Pong {
    pub original_timestamp: u64,
    pub server_timestamp: u64,
}

/// The kernel reports an error.
#[derive(Debug)]
pub struct ErrorMessage {
    pub code: i32,
    pub message: String,
    pub details: String,
}

impl Envelope {
    /// The envelope holds nothing but its message.
    pub open spec fn is_bare(self) -> bool {
        &&& self.message_id@ == Seq::<char>::empty()
        &&& self.timestamp == 0
        &&& self.sender_id@ == Seq::<char>::empty()
    }

    /// An envelope that holds nothing but a message.
    pub fn bare(payload: Payload) -> (envelope: Envelope)
        ensures
            envelope.is_bare(),
            envelope.payload == Some(payload),
    {
        Envelope {
            message_id: String::new(),
            timestamp: 0,
            sender_id: String::new(),
            payload: Some(payload),
        }
    }
}

/// A message and the name of its receiver: `kernel`, or the id of a plugin.
#[derive(Debug)]
pub struct Outgoing {
    pub target: String,
    pub envelope: Envelope,
}

impl Outgoing {
    /// A message for the kernel with nothing but its payload.
    pub open spec fn is_for_kernel(self) -> bool {
        &&& self.target@ == "kernel"@
        &&& self.envelope.is_bare()
    }

    /// A message for the kernel.
    pub fn to_kernel(payload: Payload) -> (outgoing: Outgoing)
        ensures
            outgoing.is_for_kernel(),
            outgoing.envelope.payload == Some(payload),
    {
        Outgoing { target: "kernel".to_string(), envelope: Envelope::bare(payload) }
    }
}

impl ActionRisk {
    /// The number that stands for a risk on the wire.
    pub open spec fn spec_code(self) -> i32 {
        match self {
            ActionRisk::Unknown => 0,
            ActionRisk::Low => 1,
            ActionRisk::Medium => 2,
            ActionRisk::High => 3,
            ActionRisk::Critical => 4,
        }
    }

    /// The number that stands for the risk on the wire.
    #[verifier::when_used_as_spec(spec_code)]
    pub fn code(self) -> (code: i32)
        ensures
            code == self.spec_code(),
    {
        match self {
            ActionRisk::Unknown => 0,
            ActionRisk::Low => 1,
            ActionRisk::Medium => 2,
            ActionRisk::High => 3,
            ActionRisk::Critical => 4,
        }
    }
}

impl ActionStatus {
    /// The number that stands for a status on the wire.
    pub open spec fn spec_code(self) -> i32 {
        match self {
            ActionStatus::ActionUnknown => 0,
            ActionStatus::ActionOk => 1,
            ActionStatus::ActionError => 2,
            ActionStatus::ActionTimeout => 3,
            ActionStatus::ActionPermissionDeny => 4,
            ActionStatus::ActionNotFound => 5,
            ActionStatus::ActionQuotaExceeded => 6,
            ActionStatus::ActionStreamBackpressure => 7,
        }
    }

    /// The number that stands for the status on the wire.
    #[verifier::when_used_as_spec(spec_code)]
    pub fn code(self) -> (code: i32)
        ensures
            code == self.spec_code(),
    {
        match self {
            ActionStatus::ActionUnknown => 0,
            ActionStatus::ActionOk => 1,
            ActionStatus::ActionError => 2,
            ActionStatus::ActionTimeout => 3,
            ActionStatus::ActionPermissionDeny => 4,
            ActionStatus::ActionNotFound => 5,
            ActionStatus::ActionQuotaExceeded => 6,
            ActionStatus::ActionStreamBackpressure => 7,
        }
    }
}

impl Default for PluginManifest {
    /// A manifest that declares nothing.
    fn default() -> (manifest: PluginManifest)
        ensures
            manifest.permissions@.len() == 0,
            manifest.actions@.len() == 0,
            manifest.events@.len() == 0,
            manifest.ipc_targets@.len() == 0,
            manifest.platforms@.len() == 0,
            manifest.action_specs@.len() == 0,
    {
        PluginManifest {
            permissions: Vec::new(),
            actions: Vec::new(),
            events: Vec::new(),
            ipc_targets: Vec::new(),
            platforms: Vec::new(),
            action_specs: Vec::new(),
        }
    }
}

} // verus!
