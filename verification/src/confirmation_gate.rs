//! Confirmation of high-risk operations.
//!
//! A gate splits one risky operation in two actions. `request_<op>` may be
//! called by anyone: its parameters are stored and nothing runs.
//! `confirm_<op>` may be called by the callers on its list alone: it
//! runs the operation with the parameters that were stored.

use crate::client::VynkorClient;
use crate::concurrent::{self, response_envelope};
use crate::error::{ErrorView, VynkorError};
use crate::ids::{self, stamp, Sequence};
use crate::json::{
    self, insert_natural, insert_text, new_object, object_text, string_member, Document, Lookup,
    Member,
};
use crate::proto::{
    ActionRequest, ActionResponse, ActionRisk, ActionSpec, ActionStatus, Envelope, Outgoing,
    Payload, RequestView,
};
use crate::requests;
use crate::span::{self, Span, NANOS_PER_SEC};
use crate::text::{self, begins_with, chars_of, join};
use vstd::prelude::*;
use vstd::string::*;

verus! {

/// How many seconds a request waits for its confirmation, unless the
/// caller says otherwise.
pub const DEFAULT_PENDING_TTL_SECS: u64 = 300;

/// A stored request that waits for its confirmation.
#[derive(Clone, Debug)]
pub struct PendingAction {
    /// The name of the action that stored it.
    pub action: String,
    /// The parameters of the request: the operation runs with these, and not
    /// with anything that the confirming caller sends.
    pub params: Vec<u8>,
    /// Who requested it.
    pub caller_plugin_id: String,
    /// When it was stored.
    pub created_at: Span,
}

/// The model of a stored request.
#[verifier::ext_equal]
pub struct PendingView {
    pub action: Seq<char>,
    pub params: Seq<u8>,
    pub caller: Seq<char>,
    pub created_at: nat,
}

impl View for PendingAction {
    type V = PendingView;

    open spec fn view(&self) -> PendingView {
        PendingView {
            action: self.action@,
            params: self.params@,
            caller: self.caller_plugin_id@,
            created_at: self.created_at@,
        }
    }
}

/// A gate in front of one operation.
pub struct ConfirmationGate {
    op: String,
    description: String,
    params_schema: String,
    risk: ActionRisk,
    confirm_callers: Vec<String>,
    pending_ttl: Span,
    pending: Vec<(String, PendingAction)>,
}

/// The model of a gate.
#[verifier::ext_equal]
pub struct GateView {
    pub op: Seq<char>,
    pub description: Seq<char>,
    pub params_schema: Seq<char>,
    pub risk: ActionRisk,
    /// Who may confirm: ids, and patterns that end in `.*`.
    pub confirm_callers: Seq<Seq<char>>,
    /// Nanoseconds that a request waits for its confirmation.
    pub pending_ttl: nat,
    /// The stored requests, by their ids.
    pub pending: Map<Seq<char>, PendingView>,
}

/// Entries as a map; of two entries with one id the later counts.
spec fn entry_map(entries: Seq<(String, PendingAction)>) -> Map<Seq<char>, PendingView>
    decreases entries.len(),
{
    if entries.len() == 0 {
        Map::empty()
    } else {
        entry_map(entries.drop_last()).insert(entries.last().0@, entries.last().1@)
    }
}

/// No id occurs twice.
spec fn distinct(entries: Seq<(String, PendingAction)>) -> bool {
    forall|i: int, j: int|
        0 <= i < j < entries.len() ==> (#[trigger] entries[i]).0@ != (#[trigger] entries[j]).0@
}

impl View for ConfirmationGate {
    type V = GateView;

    closed spec fn view(&self) -> GateView {
        GateView {
            op: self.op@,
            description: self.description@,
            params_schema: self.params_schema@,
            risk: self.risk,
            confirm_callers: text::views(self.confirm_callers@),
            pending_ttl: self.pending_ttl@,
            pending: entry_map(self.pending@),
        }
    }
}

/// A character that an operation's name may hold.
pub open spec fn is_op_char(c: char) -> bool {
    ||| 'a' <= c <= 'z'
    ||| 'A' <= c <= 'Z'
    ||| '0' <= c <= '9'
    ||| c == '-'
    ||| c == '_'
}

/// What is wrong with an operation's name, if anything is.
pub open spec fn op_fault(op: Seq<char>) -> Option<Seq<char>> {
    if op.len() == 0 {
        Some("operation name must not be empty"@)
    } else if !(forall|i: int| 0 <= i < op.len() ==> is_op_char(#[trigger] op[i])) {
        Some("operation name may only contain ASCII alphanumerics, '-' and '_'"@)
    } else if "request_"@.is_prefix_of(op) || "confirm_"@.is_prefix_of(op) {
        Some(
            "operation name must not start with request_/confirm_"@
                + " (would collide with the "@ + "gate's own action names)"@,
        )
    } else {
        None
    }
}

/// What keeps a gate from being made, if anything does.
pub open spec fn gate_fault(
    op: Seq<char>,
    description: Seq<char>,
    confirm_callers: Seq<Seq<char>>,
) -> Option<Seq<char>> {
    if op_fault(op) is Some {
        op_fault(op)
    } else if description.len() == 0 {
        Some("description must not be empty"@)
    } else if confirm_callers.len() == 0 {
        Some("confirm_callers must name at least one caller allowed to confirm"@)
    } else {
        None
    }
}

/// Checks the name of an operation.
pub fn validate_op(op: &str) -> (checked: Result<(), String>)
    ensures
        match op_fault(op@) {
            None => checked is Ok,
            Some(fault) => checked matches Err(error) && error@ == fault,
        },
{
    if op.is_empty() {
        return Err("operation name must not be empty".to_string());
    }
    let chars: Vec<char> = chars_of(op);
    let mut i: usize = 0;
    while i < chars.len()
        invariant
            i <= chars@.len(),
            chars@ == op@,
            forall|j: int| 0 <= j < i ==> is_op_char(#[trigger] op@[j]),
        decreases chars@.len() - i,
    {
        let c: char = chars[i];
        let allowed: bool = ('a' <= c && c <= 'z') || ('A' <= c && c <= 'Z') || ('0' <= c && c
            <= '9') || c == '-' || c == '_';
        if !allowed {
            assert(!is_op_char(op@[i as int]));
            return Err(
                "operation name may only contain ASCII alphanumerics, '-' and '_'".to_string(),
            );
        }
        i = i + 1;
    }
    let request: Vec<char> = chars_of("request_");
    let confirm: Vec<char> = chars_of("confirm_");
    assert("request_"@.take("request_"@.len() as int) =~= "request_"@);
    assert("confirm_"@.take("confirm_"@.len() as int) =~= "confirm_"@);
    if begins_with(&chars, &request, request.len()) || begins_with(
        &chars,
        &confirm,
        confirm.len(),
    ) {
        let mut fault = String::from_str("operation name must not start with request_/confirm_");
        fault.append(" (would collide with the ");
        fault.append("gate's own action names)");
        return Err(fault);
    }
    Ok(())
}

/// The texts that a slice of string slices holds.
pub open spec fn slice_views(texts: Seq<&str>) -> Seq<Seq<char>> {
    texts.map_values(|text: &str| text@)
}

impl ConfirmationGate {
    /// No id is stored twice.
    pub closed spec fn wf(self) -> bool {
        distinct(self.pending@)
    }

    /// Makes a gate for one operation. The description and the JSON Schema
    /// of the parameters describe it to callers; only the callers on the
    /// list may confirm.
    pub fn new(
        op: &str,
        description: &str,
        params_schema: &str,
        risk: ActionRisk,
        confirm_callers: &[&str],
    ) -> (gate: Result<ConfirmationGate, String>)
        ensures
            match gate_fault(op@, description@, slice_views(confirm_callers@)) {
                Some(fault) => gate matches Err(error) && error@ == fault,
                None => gate matches Ok(gate) && gate.wf() && gate@ == (GateView {
                    op: op@,
                    description: description@,
                    params_schema: params_schema@,
                    risk,
                    confirm_callers: slice_views(confirm_callers@),
                    pending_ttl: (DEFAULT_PENDING_TTL_SECS * NANOS_PER_SEC) as nat,
                    pending: Map::empty(),
                }),
            },
    {
        match validate_op(op) {
            Ok(()) => {},
            Err(error) => return Err(error),
        }
        if description.is_empty() {
            return Err("description must not be empty".to_string());
        }
        if confirm_callers.len() == 0 {
            return Err(
                "confirm_callers must name at least one caller allowed to confirm".to_string(),
            );
        }
        let mut callers: Vec<String> = Vec::new();
        let mut i: usize = 0;
        while i < confirm_callers.len()
            invariant
                i <= confirm_callers@.len(),
                callers@.len() == i,
                forall|j: int|
                    0 <= j < i ==> (#[trigger] callers@[j])@ == confirm_callers@[j]@,
            decreases confirm_callers@.len() - i,
        {
            callers.push(confirm_callers[i].to_string());
            i = i + 1;
        }
        let gate = ConfirmationGate {
            op: op.to_string(),
            description: description.to_string(),
            params_schema: params_schema.to_string(),
            risk,
            confirm_callers: callers,
            pending_ttl: Span::from_secs(DEFAULT_PENDING_TTL_SECS),
            pending: Vec::new(),
        };
        assert(text::views(callers@) =~= slice_views(confirm_callers@));
        Ok(gate)
    }
}

/// The name of the action that requests an operation.
pub open spec fn request_name(op: Seq<char>) -> Seq<char> {
    "request_"@ + op
}

/// The name of the action that confirms an operation.
pub open spec fn confirm_name(op: Seq<char>) -> Seq<char> {
    "confirm_"@ + op
}

/// Whether an entry of the list admits a caller: an entry `prefix.*` admits
/// every id that begins with `prefix.`, any other entry the id that it is.
pub open spec fn admits(entry: Seq<char>, caller: Seq<char>) -> bool {
    if ".*"@.is_suffix_of(entry) {
        entry.drop_last().is_prefix_of(caller)
    } else {
        caller == entry
    }
}

/// Whether a list admits a caller.
pub open spec fn admitted(entries: Seq<Seq<char>>, caller: Seq<char>) -> bool {
    exists|i: int| 0 <= i < entries.len() && admits(#[trigger] entries[i], caller)
}

/// What the description of an action must be.
pub open spec fn describes(
    described: ActionSpec,
    name: Seq<char>,
    description: Seq<char>,
    params_schema: Seq<char>,
    risk: ActionRisk,
    requires_confirmation: bool,
) -> bool {
    &&& described.name@ == name
    &&& described.description@ == description
    &&& described.params_schema@ == params_schema
    &&& described.risk == risk.spec_code()
    &&& described.requires_confirmation == requires_confirmation
}

/// The name of the action that requests an operation.
pub fn request_action(op: &str) -> (name: String)
    ensures
        name@ == request_name(op@),
{
    let mut name = String::from_str("request_");
    name.append(op);
    name
}

/// The name of the action that confirms an operation.
pub fn confirm_action(op: &str) -> (name: String)
    ensures
        name@ == confirm_name(op@),
{
    let mut name = String::from_str("confirm_");
    name.append(op);
    name
}

fn entry_admits(entry: &Vec<char>, caller: &Vec<char>) -> (admitted: bool)
    ensures
        admitted == admits(entry@, caller@),
{
    proof {
        reveal_strlit(".*");
        assert(".*"@ =~= seq!['.', '*']);
    }
    let n: usize = entry.len();
    if n >= 2 && entry[n - 2] == '.' && entry[n - 1] == '*' {
        assert(".*"@ =~= entry@.subrange(n - 2, n as int));
        assert(entry@.drop_last() =~= entry@.take(n - 1));
        return begins_with(caller, entry, n - 1);
    }
    assert(!".*"@.is_suffix_of(entry@)) by {
        if ".*"@.is_suffix_of(entry@) {
            let end = entry@.subrange(n - 2, n as int);
            assert(end[0] == entry@[n - 2] && end[1] == entry@[n - 1]);
            assert(".*"@[0] == end[0] && ".*"@[1] == end[1]);
        }
    }
    assert(entry@.take(n as int) =~= entry@);
    let equal: bool = caller.len() == n && begins_with(caller, entry, n);
    assert(equal ==> caller@ =~= entry@);
    equal
}

impl ConfirmationGate {
    /// Sets how long a request waits for its confirmation.
    pub fn with_pending_ttl(self, ttl: Span) -> (gate: ConfirmationGate)
        ensures
            gate@ == (GateView { pending_ttl: ttl@, ..self@ }),
            self.wf() ==> gate.wf(),
    {
        let mut gate = self;
        gate.pending_ttl = ttl;
        gate
    }

    /// The name of the operation.
    pub fn op(&self) -> (op: &str)
        ensures
            op@ == self@.op,
    {
        self.op.as_str()
    }

    /// What to merge in the manifest of the plugin: the names of the two
    /// actions, and their descriptions.
    pub fn manifest_entries(&self) -> (entries: (Vec<String>, Vec<ActionSpec>))
        ensures
            text::views(entries.0@) == seq![request_name(self@.op), confirm_name(self@.op)],
            entries.1@.len() == 2,
            describes(
                entries.1@[0],
                request_name(self@.op),
                self@.description
                    + " — requests execution; the operation only runs after an approved caller confirms (requires_confirmation)."@,
                self@.params_schema,
                self@.risk,
                true,
            ),
            describes(
                entries.1@[1],
                confirm_name(self@.op),
                self@.description
                    + " — executes a previously requested operation; only approved callers may invoke."@,
                "{\"type\":\"object\",\"properties\":{\"pending_id\":{\"type\":\"string\"}},\"required\":[\"pending_id\"]}"@,
                self@.risk,
                false,
            ),
    {
        let request = request_action(self.op.as_str());
        let confirm = confirm_action(self.op.as_str());
        let mut actions: Vec<String> = Vec::new();
        actions.push(request.clone());
        actions.push(confirm.clone());
        let mut request_description = self.description.clone();
        request_description.append(
            " — requests execution; the operation only runs after an approved caller confirms (requires_confirmation).",
        );
        let mut confirm_description = self.description.clone();
        confirm_description.append(
            " — executes a previously requested operation; only approved callers may invoke.",
        );
        let mut specs: Vec<ActionSpec> = Vec::new();
        specs.push(
            ActionSpec {
                name: request,
                description: request_description,
                params_schema: self.params_schema.clone(),
                risk: self.risk.code(),
                requires_confirmation: true,
            },
        );
        specs.push(
            ActionSpec {
                name: confirm,
                description: confirm_description,
                params_schema: "{\"type\":\"object\",\"properties\":{\"pending_id\":{\"type\":\"string\"}},\"required\":[\"pending_id\"]}".to_string(),
                risk: self.risk.code(),
                requires_confirmation: false,
            },
        );
        assert(text::views(actions@) =~= seq![request_name(self@.op), confirm_name(self@.op)]);
        (actions, specs)
    }

    /// Whether a caller is on the list of those who may confirm.
    pub fn may_confirm(&self, caller_plugin_id: &str) -> (may: bool)
        ensures
            may == admitted(self@.confirm_callers, caller_plugin_id@),
    {
        let caller: Vec<char> = chars_of(caller_plugin_id);
        let mut i: usize = 0;
        while i < self.confirm_callers.len()
            invariant
                i <= self.confirm_callers@.len(),
                caller@ == caller_plugin_id@,
                forall|j: int|
                    0 <= j < i ==> !admits(#[trigger] self@.confirm_callers[j], caller@),
            decreases self.confirm_callers@.len() - i,
        {
            let entry: Vec<char> = chars_of(self.confirm_callers[i].as_str());
            assert(self@.confirm_callers[i as int] == entry@);
            if entry_admits(&entry, &caller) {
                return true;
            }
            i = i + 1;
        }
        false
    }

    /// How many requests are stored.
    pub fn pending_count(&self) -> (count: usize)
        requires
            self.wf(),
        ensures
            count == self@.pending.len(),
    {
        proof {
            entries_counted(self.pending@);
        }
        self.pending.len()
    }
}

/// Looking up an entry by its id finds it.
proof fn entry_found(entries: Seq<(String, PendingAction)>)
    requires
        distinct(entries),
    ensures
        forall|id: Seq<char>| #[trigger]
            entry_map(entries).contains_key(id) <==> exists|i: int|
                0 <= i < entries.len() && (#[trigger] entries[i]).0@ == id,
        forall|i: int|
            0 <= i < entries.len() ==> entry_map(entries)[(#[trigger] entries[i]).0@]
                == entries[i].1@,
    decreases entries.len(),
{
    if entries.len() > 0 {
        let rest = entries.drop_last();
        entry_found(rest);
        assert forall|id: Seq<char>| #[trigger]
            entry_map(entries).contains_key(id) <==> exists|i: int|
                0 <= i < entries.len() && (#[trigger] entries[i]).0@ == id by {
            if entry_map(rest).contains_key(id) {
                let i = choose|i: int| 0 <= i < rest.len() && (#[trigger] rest[i]).0@ == id;
                assert(entries[i].0@ == id);
            }
            if entries.last().0@ == id {
                assert(entries[entries.len() - 1].0@ == id);
            }
            if exists|i: int| 0 <= i < entries.len() && (#[trigger] entries[i]).0@ == id {
                let i = choose|i: int| 0 <= i < entries.len() && (#[trigger] entries[i]).0@ == id;
                if i < rest.len() {
                    assert(rest[i].0@ == id);
                }
            }
        }
        assert forall|i: int| 0 <= i < entries.len() implies entry_map(entries)[(
        #[trigger] entries[i]).0@] == entries[i].1@ by {
            if i < rest.len() {
                assert(rest[i] == entries[i]);
                assert(entries[entries.len() - 1] == entries.last());
            }
        }
    }
}

/// There are as many stored requests as entries.
proof fn entries_counted(entries: Seq<(String, PendingAction)>)
    requires
        distinct(entries),
    ensures
        entry_map(entries).dom().finite(),
        entry_map(entries).len() == entries.len(),
    decreases entries.len(),
{
    if entries.len() > 0 {
        let rest = entries.drop_last();
        entries_counted(rest);
        entry_found(rest);
        let id = entries.last().0@;
        assert(!entry_map(rest).contains_key(id)) by {
            if entry_map(rest).contains_key(id) {
                let i = choose|i: int| 0 <= i < rest.len() && (#[trigger] rest[i]).0@ == id;
                assert(entries[i].0@ != entries[entries.len() - 1].0@);
            }
        }
    }
}

/// Taking out an entry takes its id out of the map.
proof fn entry_removed(entries: Seq<(String, PendingAction)>, i: int)
    requires
        distinct(entries),
        0 <= i < entries.len(),
    ensures
        distinct(entries.remove(i)),
        entry_map(entries.remove(i)) == entry_map(entries).remove(entries[i].0@),
{
    let rest = entries.remove(i);
    assert forall|a: int, b: int| 0 <= a < b < rest.len() implies (#[trigger] rest[a]).0@ != (
    #[trigger] rest[b]).0@ by {
        let x = if a < i { a } else { a + 1 };
        let y = if b < i { b } else { b + 1 };
        assert(rest[a] == entries[x] && rest[b] == entries[y]);
    }
    entry_found(entries);
    entry_found(rest);
    let removed = entry_map(entries).remove(entries[i].0@);
    assert forall|id: Seq<char>| #[trigger]
        entry_map(rest).contains_key(id) <==> removed.contains_key(id) by {
        if entry_map(rest).contains_key(id) {
            let a = choose|a: int| 0 <= a < rest.len() && (#[trigger] rest[a]).0@ == id;
            let x = if a < i { a } else { a + 1 };
            assert(rest[a] == entries[x]);
            assert(entries[x].0@ == id && entries[x].0@ != entries[i].0@);
        }
        if removed.contains_key(id) {
            let x = choose|x: int| 0 <= x < entries.len() && (#[trigger] entries[x]).0@ == id;
            let a = if x < i { x } else { x - 1 };
            assert(rest[a] == entries[x]);
        }
    }
    assert forall|id: Seq<char>| entry_map(rest).contains_key(id) implies #[trigger] entry_map(
        rest,
    )[id] == removed[id] by {
        let a = choose|a: int| 0 <= a < rest.len() && (#[trigger] rest[a]).0@ == id;
        let x = if a < i { a } else { a + 1 };
        assert(rest[a] == entries[x]);
    }
    assert(entry_map(rest) =~= removed);
}

/// The stored requests that still wait at time `now`.
pub open spec fn live_pending(gate: GateView, now: nat) -> Map<Seq<char>, PendingView> {
    Map::new(
        |id: Seq<char>|
            gate.pending.contains_key(id) && span::younger_than(
                gate.pending[id].created_at,
                gate.pending_ttl,
                now,
            ),
        |id: Seq<char>| gate.pending[id],
    )
}

/// What a request stores.
pub open spec fn stored(request: RequestView, now: nat) -> PendingView {
    PendingView {
        action: request.action,
        params: request.params,
        caller: request.caller,
        created_at: now,
    }
}

/// What is said about an id under which nothing is stored.
pub open spec fn unknown_id(op: Seq<char>, id: Seq<char>) -> Seq<char> {
    "no pending "@ + op + " request with id "@ + id
}

impl ConfirmationGate {
    /// Forgets the requests that have waited too long.
    fn sweep_expired(&mut self, now: Span)
        requires
            old(self).wf(),
        ensures
            final(self).wf(),
            final(self)@ == (GateView { pending: live_pending(old(self)@, now@), ..old(self)@ }),
    {
        let ttl: Span = self.pending_ttl;
        let ghost before = self@;
        let mut i: usize = 0;
        while i < self.pending.len()
            invariant
                i <= self.pending@.len(),
                self.wf(),
                ttl@ == before.pending_ttl,
                self@ == (GateView { pending: self@.pending, ..before }),
                forall|id: Seq<char>| #[trigger]
                    self@.pending.contains_key(id) ==> before.pending.contains_key(id)
                        && self@.pending[id] == before.pending[id],
                forall|id: Seq<char>| #[trigger]
                    live_pending(before, now@).contains_key(id) ==> self@.pending.contains_key(id),
                forall|j: int|
                    0 <= j < i ==> span::younger_than(
                        (#[trigger] self.pending@[j]).1@.created_at,
                        ttl@,
                        now@,
                    ),
            decreases self.pending@.len() - i,
        {
            proof {
                entry_found(self.pending@);
                entry_removed(self.pending@, i as int);
            }
            if self.pending[i].1.created_at.is_younger_than(ttl, now) {
                i = i + 1;
            } else {
                let ghost entries = self.pending@;
                let ghost gone = entries[i as int].0@;
                assert(!live_pending(before, now@).contains_key(gone)) by {
                    assert(self@.pending.contains_key(gone));
                    assert(self@.pending[gone] == entries[i as int].1@);
                }
                self.pending.remove(i);
                assert(self@.pending == entry_map(entries).remove(gone));
            }
        }
        proof {
            entry_found(self.pending@);
            assert forall|id: Seq<char>| #[trigger] self@.pending.contains_key(id) implies
                live_pending(before, now@).contains_key(id) by {
                let j = choose|j: int|
                    0 <= j < self.pending@.len() && (#[trigger] self.pending@[j]).0@ == id;
                assert(self@.pending[id] == self.pending@[j].1@);
            }
            assert(self@.pending =~= live_pending(before, now@));
        }
    }

    /// The place of the entry with that id.
    fn position_of(&self, id: &String) -> (position: Option<usize>)
        requires
            self.wf(),
        ensures
            match position {
                Some(i) => i < self.pending@.len() && self.pending@[i as int].0@ == id@,
                None => !self@.pending.contains_key(id@),
            },
    {
        let mut i: usize = 0;
        while i < self.pending.len()
            invariant
                i <= self.pending@.len(),
                forall|j: int| 0 <= j < i ==> (#[trigger] self.pending@[j]).0@ != id@,
            decreases self.pending@.len() - i,
        {
            if self.pending[i].0 == *id {
                return Some(i);
            }
            i = i + 1;
        }
        proof {
            entry_found(self.pending@);
        }
        None
    }

    /// Stores a request and returns the id that it can be confirmed by. The
    /// id is made of the time of day and the next number of the sequence.
    pub fn store_request(
        &mut self,
        request: &ActionRequest,
        sequence: &mut Sequence,
        now: Span,
        unix_millis: u64,
    ) -> (id: String)
        requires
            old(self).wf(),
        ensures
            final(self).wf(),
            id@ == ids::stamped_id("pending"@, unix_millis, old(sequence)@),
            final(sequence)@ == ids::successor(old(sequence)@),
            final(self)@ == (GateView {
                pending: live_pending(old(self)@, now@).insert(id@, stored(request@, now@)),
                ..old(self)@
            }),
    {
        self.sweep_expired(now);
        let ghost live = self@.pending;
        let n: u64 = sequence.next_seq();
        let id: String = stamp("pending", unix_millis, n);
        let entry = PendingAction {
            action: request.action.clone(),
            params: request.params_json.clone(),
            caller_plugin_id: request.caller_plugin_id.clone(),
            created_at: now,
        };
        assert(entry@ =~= stored(request@, now@));
        match self.position_of(&id) {
            Some(i) => {
                proof {
                    entry_removed(self.pending@, i as int);
                }
                self.pending.remove(i);
            },
            None => {},
        }
        proof {
            entry_found(self.pending@);
            assert(self@.pending =~= live.remove(id@));
        }
        let ghost entries = self.pending@;
        self.pending.push((id.clone(), entry));
        proof {
            assert(self.pending@.drop_last() =~= entries);
            assert forall|a: int, b: int| 0 <= a < b < self.pending@.len() implies (
            #[trigger] self.pending@[a]).0@ != (#[trigger] self.pending@[b]).0@ by {
                assert(self.pending@[a] == entries[a]);
                if b == entries.len() {
                    assert(entry_map(entries).contains_key(entries[a].0@));
                } else {
                    assert(self.pending@[b] == entries[b]);
                }
            }
            assert(self@.pending =~= live.insert(id@, stored(request@, now@)));
        }
        id
    }

    /// Takes out the request that is stored under an id.
    pub fn take_pending(&mut self, pending_id: &String, now: Span) -> (taken: Result<
        PendingAction,
        String,
    >)
        requires
            old(self).wf(),
        ensures
            final(self).wf(),
            ({
                let live = live_pending(old(self)@, now@);
                if live.contains_key(pending_id@) {
                    &&& taken matches Ok(action) && action@ == live[pending_id@]
                    &&& final(self)@ == (GateView {
                        pending: live.remove(pending_id@),
                        ..old(self)@
                    })
                } else {
                    &&& taken matches Err(error) && error@ == unknown_id(
                        old(self)@.op,
                        pending_id@,
                    )
                    &&& final(self)@ == (GateView { pending: live, ..old(self)@ })
                }
            }),
    {
        self.sweep_expired(now);
        match self.position_of(pending_id) {
            Some(i) => {
                proof {
                    entry_found(self.pending@);
                    entry_removed(self.pending@, i as int);
                }
                let entry = self.pending.remove(i);
                Ok(entry.1)
            },
            None => {
                let mut error = String::from_str("no pending ");
                error.append(self.op.as_str());
                error.append(" request with id ");
                error.append(pending_id.as_str());
                Err(error)
            },
        }
    }
}

/// What a gate makes of a request.
pub enum Decision {
    /// Its parameters are stored under this id, and nothing runs.
    Stored(Seq<char>),
    /// It fails, with this status and these words, and nothing runs.
    Refused(ActionStatus, Seq<char>),
    /// The operation runs with these parameters.
    Execute(Seq<u8>),
}

/// What is said to a caller that may not confirm.
pub open spec fn denial(gate: GateView, caller: Seq<char>) -> Seq<char> {
    "permission denied: caller "@ + caller + " may not confirm "@ + gate.op
        + " (approved callers: "@ + text::joined(gate.confirm_callers, ", "@) + ")"@
}

/// The id that the parameters of a confirmation name, or what is wrong with
/// them.
pub open spec fn named_id(params: Seq<u8>) -> Result<Seq<char>, Seq<char>> {
    match json::lookup(params, "pending_id"@) {
        Lookup::Malformed(error) => Err("invalid confirm params: "@ + error),
        Lookup::Missing => Err("confirm params must include a string pending_id"@),
        Lookup::Found(id) => Ok(id),
    }
}

/// What is stored after a confirmation that names `id`, and what becomes of
/// it.
pub open spec fn confirmation(
    gate: GateView,
    caller: Seq<char>,
    id: Result<Seq<char>, Seq<char>>,
    now: nat,
) -> (Map<Seq<char>, PendingView>, Decision) {
    if !admitted(gate.confirm_callers, caller) {
        (gate.pending, Decision::Refused(ActionStatus::ActionError, denial(gate, caller)))
    } else {
        match id {
            Err(error) => (gate.pending, Decision::Refused(ActionStatus::ActionError, error)),
            Ok(id) => {
                let live = live_pending(gate, now);
                if live.contains_key(id) {
                    (live.remove(id), Decision::Execute(live[id].params))
                } else {
                    (
                        live,
                        Decision::Refused(ActionStatus::ActionError, unknown_id(gate.op, id)),
                    )
                }
            },
        }
    }
}

/// What is stored after a request, and what becomes of it. A request that is
/// stored gets the id `fresh`.
pub open spec fn decide(gate: GateView, request: RequestView, now: nat, fresh: Seq<char>) -> (
    Map<Seq<char>, PendingView>,
    Decision,
) {
    if request.action == request_name(gate.op) {
        (live_pending(gate, now).insert(fresh, stored(request, now)), Decision::Stored(fresh))
    } else if request.action == confirm_name(gate.op) {
        confirmation(gate, request.caller, named_id(request.params), now)
    } else {
        (gate.pending, Decision::Refused(ActionStatus::ActionNotFound, "unknown action"@))
    }
}

/// What a gate hands back: an answer to send, or an operation to run.
#[derive(Debug)]
pub enum Routed {
    /// The answer.
    Reply(Envelope),
    /// The operation is to run with these parameters; what comes of it is
    /// the answer to the request of that id.
    Execute { action_id: String, params: Vec<u8> },
}

/// The members of the answer to a request that was stored.
pub open spec fn pending_notice(id: Seq<char>, action: Seq<char>, ttl: nat) -> Map<
    Seq<char>,
    Member,
> {
    json::no_members().insert("pending_id"@, Member::Text(id)).insert(
        "action"@,
        Member::Text(action),
    ).insert("ttl_secs"@, Member::Natural((ttl / NANOS_PER_SEC as nat) as u64))
}

/// What is handed back is what was decided.
pub open spec fn carries(
    routed: Routed,
    request: RequestView,
    ttl: nat,
    decision: Decision,
) -> bool {
    match decision {
        Decision::Stored(id) => {
            let data = json::json_text(pending_notice(id, request.action, ttl));
            &&& routed matches Routed::Reply(envelope) && concurrent::answers_ok(
                envelope,
                request.action_id,
                data,
            )
            &&& json::json_document(data) == Document::Object(
                pending_notice(id, request.action, ttl),
            )
            &&& json::lookup(data, "pending_id"@) == Lookup::Found(id)
            &&& json::lookup(data, "action"@) == Lookup::Found(request.action)
        },
        Decision::Refused(status, error) => routed matches Routed::Reply(envelope)
            && concurrent::answers_failure(envelope, request.action_id, status, error),
        Decision::Execute(stored_params) => routed matches Routed::Execute { action_id, params }
            && action_id@ == request.action_id && params@ == stored_params,
    }
}

/// Reads the id that the parameters of a confirmation name.
pub fn parse_pending_id(params_json: &[u8]) -> (id: Result<String, String>)
    ensures
        id matches Ok(text) ==> named_id(params_json@) == Ok::<Seq<char>, Seq<char>>(text@),
        id matches Err(error) ==> named_id(params_json@) == Err::<Seq<char>, Seq<char>>(error@),
{
    match string_member(params_json, "pending_id") {
        Ok(Some(id)) => Ok(id),
        Ok(None) => Err("confirm params must include a string pending_id".to_string()),
        Err(fault) => {
            let mut error = String::from_str("invalid confirm params: ");
            error.append(fault.as_str());
            Err(error)
        },
    }
}

/// The answer to a request for an action that there is not.
pub fn not_found(action_id: String) -> (envelope: Envelope)
    ensures
        concurrent::answers_failure(
            envelope,
            action_id@,
            ActionStatus::ActionNotFound,
            "unknown action"@,
        ),
{
    Envelope::bare(
        Payload::ActionResponse(
            ActionResponse {
                action_id,
                status: ActionStatus::ActionNotFound.code(),
                data_json: Vec::new(),
                error: "unknown action".to_string(),
            },
        ),
    )
}

/// The answer to a request that was stored.
fn notice(action_id: String, id: &String, action: &String, ttl: Span) -> (envelope: Envelope)
    ensures
        ({
            let told = pending_notice(id@, action@, ttl@);
            let data = json::json_text(told);
            &&& concurrent::answers_ok(envelope, action_id@, data)
            &&& json::json_document(data) == Document::Object(told)
            &&& json::lookup(data, "pending_id"@) == Lookup::Found(id@)
            &&& json::lookup(data, "action"@) == Lookup::Found(action@)
        }),
{
    proof {
        reveal_strlit("pending_id");
        reveal_strlit("action");
        reveal_strlit("ttl_secs");
        assert("pending_id"@.len() == 10 && "action"@.len() == 6 && "ttl_secs"@.len() == 8);
    }
    let mut object = new_object();
    insert_text(&mut object, "pending_id", id.as_str());
    insert_text(&mut object, "action", action.as_str());
    insert_natural(&mut object, "ttl_secs", ttl.as_secs());
    match object_text(&object) {
        Ok(data) => response_envelope(action_id, Ok(data)),
        Err(_) => response_envelope(action_id, Ok(Vec::new())),
    }
}

impl ConfirmationGate {
    /// What is said to a caller that may not confirm.
    fn denial_text(&self, caller: &String) -> (text: String)
        ensures
            text@ == denial(self@, caller@),
    {
        let mut text = String::from_str("permission denied: caller ");
        text.append(caller.as_str());
        text.append(" may not confirm ");
        text.append(self.op.as_str());
        text.append(" (approved callers: ");
        let callers: String = join(&self.confirm_callers, ", ");
        text.append(callers.as_str());
        text.append(")");
        text
    }

    /// Answers a confirmation by the id that its parameters name, or by what
    /// is wrong with them. A caller that is not on the list is refused before
    /// anything is looked up.
    pub fn confirm(
        &mut self,
        request: ActionRequest,
        pending_id: Result<String, String>,
        now: Span,
    ) -> (routed: Routed)
        requires
            old(self).wf(),
        ensures
            final(self).wf(),
            ({
                let id: Result<Seq<char>, Seq<char>> = match pending_id {
                    Ok(id) => Ok(id@),
                    Err(error) => Err(error@),
                };
                let after = confirmation(old(self)@, request@.caller, id, now@);
                &&& final(self)@ == (GateView { pending: after.0, ..old(self)@ })
                &&& carries(routed, request@, old(self)@.pending_ttl, after.1)
            }),
    {
        let action_id: String = request.action_id;
        if !self.may_confirm(request.caller_plugin_id.as_str()) {
            let error: String = self.denial_text(&request.caller_plugin_id);
            return Routed::Reply(response_envelope(action_id, Err(error)));
        }
        match pending_id {
            Err(error) => Routed::Reply(response_envelope(action_id, Err(error))),
            Ok(id) => match self.take_pending(&id, now) {
                Err(error) => Routed::Reply(response_envelope(action_id, Err(error))),
                Ok(pending) => Routed::Execute { action_id, params: pending.params },
            },
        }
    }

    /// Takes in one request. `request_<op>` stores it, whoever calls.
    /// `confirm_<op>` from a caller on the list runs the operation with the
    /// parameters that are stored under the id that it names. Any other
    /// action is unknown.
    pub fn route(
        &mut self,
        request: ActionRequest,
        sequence: &mut Sequence,
        now: Span,
        unix_millis: u64,
    ) -> (routed: Routed)
        requires
            old(self).wf(),
        ensures
            final(self).wf(),
            ({
                let fresh = ids::stamped_id("pending"@, unix_millis, old(sequence)@);
                let after = decide(old(self)@, request@, now@, fresh);
                &&& final(self)@ == (GateView { pending: after.0, ..old(self)@ })
                &&& carries(routed, request@, old(self)@.pending_ttl, after.1)
                &&& final(sequence)@ == if after.1 is Stored {
                    ids::successor(old(sequence)@)
                } else {
                    old(sequence)@
                }
            }),
    {
        if request.action == request_action(self.op.as_str()) {
            let id: String = self.store_request(&request, sequence, now, unix_millis);
            Routed::Reply(notice(request.action_id, &id, &request.action, self.pending_ttl))
        } else if request.action == confirm_action(self.op.as_str()) {
            let pending_id = parse_pending_id(request.params_json.as_slice());
            self.confirm(request, pending_id, now)
        } else {
            Routed::Reply(not_found(request.action_id))
        }
    }
}

/// The two actions of an operation have different names.
pub proof fn names_differ(op: Seq<char>)
    ensures
        request_name(op) != confirm_name(op),
{
    reveal_strlit("request_");
    reveal_strlit("confirm_");
    assert(request_name(op)[0] == 'r');
    assert(confirm_name(op)[0] == 'c');
}

/// The members of the parameters of a confirmation.
pub open spec fn confirm_members(id: Seq<char>) -> Map<Seq<char>, Member> {
    json::no_members().insert("pending_id"@, Member::Text(id))
}

/// What the answer to a request for an operation comes to: the id that a
/// gate stored it under, or why there is none.
pub open spec fn pending_id_answer(
    op: Seq<char>,
    status: i32,
    error: Seq<char>,
    found: Lookup,
) -> Result<Seq<char>, ErrorView> {
    if status != ActionStatus::ActionOk.spec_code() {
        Err(ErrorView::Internal("request_"@ + op + " failed: "@ + error))
    } else {
        match found {
            Lookup::Malformed(fault) => Err(
                ErrorView::Internal("invalid pending response: "@ + fault),
            ),
            Lookup::Missing => Err(ErrorView::Internal("pending response missing pending_id"@)),
            Lookup::Found(id) => Ok(id),
        }
    }
}

/// For the requesting side: the message that asks a plugin for an operation
/// behind a gate, and the id that its answer will carry.
pub fn send_confirmation_request(
    client: &VynkorClient,
    sequence: &mut Sequence,
    op: &str,
    params_json: &[u8],
    unix_millis: u64,
) -> (sent: (String, Outgoing))
    ensures
        final(sequence)@ == ids::successor(old(sequence)@),
        sent.0@ == ids::stamped_id("act"@, unix_millis, old(sequence)@),
        requests::requests_action(
            sent.1,
            RequestView {
                action_id: sent.0@,
                action: request_name(op@),
                params: params_json@,
                timeout_ms: 0,
                streaming: false,
                caller: Seq::empty(),
            },
        ),
{
    let action: String = request_action(op);
    client.send_action(sequence, action.as_str(), params_json, 0, unix_millis)
}

/// For the requesting side: the id that the request was stored under,
/// from the status and the error of its answer and from what its data hold
/// as `pending_id`.
pub fn stored_as(op: &str, status: i32, error: &String, found: Result<Option<String>, String>) -> (id:
    Result<String, VynkorError>)
    ensures
        match pending_id_answer(
            op@,
            status,
            error@,
            match found {
                Ok(Some(id)) => Lookup::Found(id@),
                Ok(None) => Lookup::Missing,
                Err(fault) => Lookup::Malformed(fault@),
            },
        ) {
            Ok(expected) => id matches Ok(id) && id@ == expected,
            Err(fault) => id matches Err(error) && error@ == fault,
        },
{
    if status != ActionStatus::ActionOk.code() {
        let mut text = String::from_str("request_");
        text.append(op);
        text.append(" failed: ");
        text.append(error.as_str());
        return Err(VynkorError::Internal(text));
    }
    match found {
        Ok(Some(id)) => Ok(id),
        Ok(None) => Err(
            VynkorError::Internal("pending response missing pending_id".to_string()),
        ),
        Err(fault) => {
            let mut text = String::from_str("invalid pending response: ");
            text.append(fault.as_str());
            Err(VynkorError::Internal(text))
        },
    }
}

/// For the requesting side: the id that the request was stored under,
/// from its answer.
pub fn confirmation_request_reply(op: &str, response: &ActionResponse) -> (id: Result<
    String,
    VynkorError,
>)
    ensures
        match pending_id_answer(
            op@,
            response.status,
            response.error@,
            json::lookup(response.data_json@, "pending_id"@),
        ) {
            Ok(expected) => id matches Ok(id) && id@ == expected,
            Err(fault) => id matches Err(error) && error@ == fault,
        },
{
    let found = string_member(response.data_json.as_slice(), "pending_id");
    stored_as(op, response.status, &response.error, found)
}

/// For the confirming side: the message that confirms a stored request, and
/// the id that its answer will carry. The answer is handed on as it is: a
/// caller that may not confirm finds the refusal in its status and error.
pub fn send_confirmation(
    client: &VynkorClient,
    sequence: &mut Sequence,
    op: &str,
    pending_id: &str,
    unix_millis: u64,
) -> (sent: (String, Outgoing))
    ensures
        final(sequence)@ == ids::successor(old(sequence)@),
        sent.0@ == ids::stamped_id("act"@, unix_millis, old(sequence)@),
        requests::requests_action(
            sent.1,
            RequestView {
                action_id: sent.0@,
                action: confirm_name(op@),
                params: json::json_text(confirm_members(pending_id@)),
                timeout_ms: 0,
                streaming: false,
                caller: Seq::empty(),
            },
        ),
        named_id(json::json_text(confirm_members(pending_id@))) == Ok::<Seq<char>, Seq<char>>(
            pending_id@,
        ),
        json::json_document(json::json_text(confirm_members(pending_id@))) == Document::Object(
            confirm_members(pending_id@),
        ),
{
    let action: String = confirm_action(op);
    let mut object = new_object();
    insert_text(&mut object, "pending_id", pending_id);
    let params: Vec<u8> = match object_text(&object) {
        Ok(params) => params,
        Err(_) => Vec::new(),
    };
    client.send_action(sequence, action.as_str(), params.as_slice(), 0, unix_millis)
}

} // verus!
