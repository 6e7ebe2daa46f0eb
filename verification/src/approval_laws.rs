//! What a confirmation gate does, call by call.

use crate::client::VynkorClient;
use crate::confirmation_gate::{
    confirm_action, confirmation_request_reply, not_found, parse_pending_id, request_action,
    send_confirmation, send_confirmation_request, stored_as, validate_op, ConfirmationGate,
    GateView, PendingAction, PendingView, Routed,
};
use crate::error::VynkorError;
use crate::ids::Sequence;
use crate::json::{self, Document, Member};
use crate::proto::{
    ActionRequest, ActionResponse, ActionRisk, ActionSpec, Envelope, Outgoing, Payload,
};
use crate::span::Span;
use crate::text;
use vstd::prelude::*;
use vstd::string::*;

verus! {

/// The entry is a pattern: it ends in a dot and a star.
pub open spec fn is_pattern(entry: Seq<char>) -> bool {
    entry.len() >= 2 && entry[entry.len() - 2] == '.' && entry[entry.len() - 1] == '*'
}

/// The caller is under the pattern: its id begins with the pattern up to its
/// star.
pub open spec fn is_under(pattern: Seq<char>, caller: Seq<char>) -> bool {
    &&& caller.len() >= pattern.len() - 1
    &&& forall|i: int| 0 <= i < pattern.len() - 1 ==> #[trigger] caller[i] == pattern[i]
}

/// Who may confirm: whoever stands on the list, with whatever characters in
/// the id, and whoever is under a pattern on it; nobody else.
pub proof fn listed_callers_may_confirm(gate: &ConfirmationGate, caller: &str, may: bool)
    requires
        call_ensures(ConfirmationGate::may_confirm, (gate, caller), may),
    ensures
        call_requires(ConfirmationGate::may_confirm, (gate, caller)),
        may <==> exists|i: int|
            0 <= i < gate@.confirm_callers.len() && {
                let entry = #[trigger] gate@.confirm_callers[i];
                if is_pattern(entry) {
                    is_under(entry, caller@)
                } else {
                    caller@ == entry
                }
            },
{
    assert forall|i: int| 0 <= i < gate@.confirm_callers.len() implies ({
        let entry = #[trigger] gate@.confirm_callers[i];
        crate::confirmation_gate::admits(entry, caller@) == if is_pattern(entry) {
            is_under(entry, caller@)
        } else {
            caller@ == entry
        }
    }) by {
        entries_admit_as_they_say(gate@.confirm_callers[i], caller@);
    }
}

/// What one entry of the list admits: a pattern every id under it, any other
/// entry the id that it is and no other.
pub proof fn entries_admit_as_they_say(entry: Seq<char>, caller: Seq<char>)
    ensures
        !is_pattern(entry) ==> (crate::confirmation_gate::admits(entry, caller) <==> caller
            == entry),
        is_pattern(entry) ==> (crate::confirmation_gate::admits(entry, caller) <==> is_under(
            entry,
            caller,
        )),
{
    reveal_strlit(".*");
    let n = entry.len() as int;
    assert(".*"@.is_suffix_of(entry) <==> is_pattern(entry)) by {
        if is_pattern(entry) {
            assert(".*"@ =~= entry.subrange(n - 2, n));
        }
        if ".*"@.is_suffix_of(entry) {
            let end = entry.subrange(n - 2, n);
            assert(end[0] == entry[n - 2] && end[1] == entry[n - 1]);
            assert(".*"@[0] == end[0] && ".*"@[1] == end[1]);
        }
    }
    if is_pattern(entry) {
        let prefix = entry.drop_last();
        if is_under(entry, caller) {
            assert(prefix =~= caller.subrange(0, prefix.len() as int));
        }
        if prefix.is_prefix_of(caller) {
            assert forall|i: int| 0 <= i < n - 1 implies #[trigger] caller[i] == entry[i] by {
                assert(caller.subrange(0, prefix.len() as int)[i] == prefix[i]);
            }
        }
    }
}

/// A gate lets those confirm whom it was made for: every caller that is named
/// in full, and every caller under a pattern.
pub proof fn gates_admit_whom_they_were_made_for(
    op: &str,
    description: &str,
    params_schema: &str,
    risk: ActionRisk,
    confirm_callers: &[&str],
    made: Result<ConfirmationGate, String>,
    caller: &str,
    may: bool,
    i: int,
)
    requires
        call_ensures(
            ConfirmationGate::new,
            (op, description, params_schema, risk, confirm_callers),
            made,
        ),
        made is Ok,
        call_ensures(ConfirmationGate::may_confirm, (&made->Ok_0, caller), may),
        0 <= i < confirm_callers@.len(),
        confirm_callers@[i]@ == caller@ && !is_pattern(caller@) || is_pattern(
            confirm_callers@[i]@,
        ) && is_under(confirm_callers@[i]@, caller@),
    ensures
        may,
{
    listed_callers_may_confirm(&made->Ok_0, caller, may);
    assert(made->Ok_0@.confirm_callers[i] == confirm_callers@[i]@);
}

/// The character may stand in the name of an operation.
pub open spec fn may_stand_in_op(c: char) -> bool {
    'a' <= c <= 'z' || 'A' <= c <= 'Z' || '0' <= c <= '9' || c == '-' || c == '_'
}

/// The text begins with these characters.
pub open spec fn begins(text: Seq<char>, with: Seq<char>) -> bool {
    &&& text.len() >= with.len()
    &&& forall|i: int| 0 <= i < with.len() ==> #[trigger] text[i] == with[i]
}

/// Which names an operation may have: letters, digits, dashes and underscores,
/// at least one, and not the beginning of an action's name. What is wrong is
/// told.
pub proof fn operations_are_named(op: &str, checked: Result<(), String>)
    requires
        call_ensures(validate_op, (op,), checked),
    ensures
        call_requires(validate_op, (op,)),
        checked is Ok <==> {
            &&& op@.len() > 0
            &&& forall|i: int| 0 <= i < op@.len() ==> may_stand_in_op(#[trigger] op@[i])
            &&& !begins(op@, "request_"@)
            &&& !begins(op@, "confirm_"@)
        },
        op@.len() == 0 ==> (checked matches Err(error) && error@
            == "operation name must not be empty"@),
        (exists|i: int| 0 <= i < op@.len() && !may_stand_in_op(#[trigger] op@[i])) ==> (
        checked matches Err(error) && error@
            == "operation name may only contain ASCII alphanumerics, '-' and '_'"@),
        op@.len() > 0 && (forall|i: int|
            0 <= i < op@.len() ==> may_stand_in_op(#[trigger] op@[i])) && (begins(
            op@,
            "request_"@,
        ) || begins(op@, "confirm_"@)) ==> (checked matches Err(error) && error@
            == "operation name must not start with request_/confirm_"@
            + " (would collide with the "@ + "gate's own action names)"@),
{
    prefixes_begin("request_"@, op@);
    prefixes_begin("confirm_"@, op@);
    assert forall|c: char| may_stand_in_op(c) == #[trigger] crate::confirmation_gate::is_op_char(
        c,
    ) by {}
    if exists|i: int| 0 <= i < op@.len() && !may_stand_in_op(#[trigger] op@[i]) {
        let i = choose|i: int| 0 <= i < op@.len() && !may_stand_in_op(#[trigger] op@[i]);
        assert(!crate::confirmation_gate::is_op_char(op@[i]));
    }
}

proof fn prefixes_begin(with: Seq<char>, text: Seq<char>)
    ensures
        with.is_prefix_of(text) <==> begins(text, with),
{
    if begins(text, with) {
        assert(with =~= text.subrange(0, with.len() as int));
    }
    if with.is_prefix_of(text) {
        assert forall|i: int| 0 <= i < with.len() implies #[trigger] text[i] == with[i] by {
            assert(text.subrange(0, with.len() as int)[i] == with[i]);
        }
    }
}

/// A gate is made exactly if the operation has a proper name and a description
/// and somebody may confirm it. It then holds what it was made with, nothing
/// is stored, and requests wait five minutes; another time can be set, which
/// changes nothing else.
pub proof fn gates_hold_what_they_were_made_with(
    op: &str,
    description: &str,
    params_schema: &str,
    risk: ActionRisk,
    confirm_callers: &[&str],
    checked: Result<(), String>,
    made: Result<ConfirmationGate, String>,
    ttl: Span,
    changed: ConfirmationGate,
    name: &str,
    count: usize,
)
    requires
        call_ensures(validate_op, (op,), checked),
        call_ensures(
            ConfirmationGate::new,
            (op, description, params_schema, risk, confirm_callers),
            made,
        ),
        made is Ok ==> {
            &&& call_ensures(ConfirmationGate::with_pending_ttl, (made->Ok_0, ttl), changed)
            &&& call_ensures(ConfirmationGate::op, (&made->Ok_0,), name)
            &&& call_ensures(ConfirmationGate::pending_count, (&made->Ok_0,), count)
        },
    ensures
        call_requires(validate_op, (op,)),
        call_requires(
            ConfirmationGate::new,
            (op, description, params_schema, risk, confirm_callers),
        ),
        made is Ok <==> checked is Ok && description@.len() > 0 && confirm_callers@.len() > 0,
        checked matches Err(fault) ==> (made matches Err(error) && error@ == fault@),
        checked is Ok && description@.len() == 0 ==> (made matches Err(error) && error@
            == "description must not be empty"@),
        checked is Ok && description@.len() > 0 && confirm_callers@.len() == 0 ==> (
        made matches Err(error) && error@
            == "confirm_callers must name at least one caller allowed to confirm"@),
        made matches Ok(gate) ==> {
            &&& gate.wf()
            &&& gate@.op == op@
            &&& gate@.description == description@
            &&& gate@.params_schema == params_schema@
            &&& gate@.risk == risk
            &&& gate@.confirm_callers.len() == confirm_callers@.len()
            &&& forall|i: int|
                0 <= i < confirm_callers@.len() ==> #[trigger] gate@.confirm_callers[i]
                    == confirm_callers@[i]@
            &&& gate@.pending_ttl == 300_000_000_000
            &&& forall|id: Seq<char>| !#[trigger] gate@.pending.contains_key(id)
            &&& name@ == op@
            &&& count == 0
            &&& changed.wf()
            &&& changed@ == (GateView { pending_ttl: ttl@, ..gate@ })
        },
{
}

/// The two actions of an operation are named after it, and the manifest
/// describes both: the request with the parameters of the operation and as one
/// that needs a confirmation, the confirmation with its `pending_id`, both
/// with the risk of the operation.
pub proof fn manifests_describe_both_actions(
    gate: &ConfirmationGate,
    op: &str,
    request: String,
    confirm: String,
    entries: (Vec<String>, Vec<ActionSpec>),
)
    requires
        call_ensures(request_action, (op,), request),
        call_ensures(confirm_action, (op,), confirm),
        call_ensures(ConfirmationGate::manifest_entries, (gate,), entries),
    ensures
        call_requires(request_action, (op,)),
        call_requires(confirm_action, (op,)),
        call_requires(ConfirmationGate::manifest_entries, (gate,)),
        request@ == "request_"@ + op@,
        confirm@ == "confirm_"@ + op@,
        entries.0@.len() == 2,
        entries.0@[0]@ == "request_"@ + gate@.op,
        entries.0@[1]@ == "confirm_"@ + gate@.op,
        entries.1@.len() == 2,
        ({
            let asked = entries.1@[0];
            &&& asked.name@ == "request_"@ + gate@.op
            &&& asked.description@ == gate@.description
                + " — requests execution; the operation only runs after an approved caller confirms (requires_confirmation)."@
            &&& asked.params_schema@ == gate@.params_schema
            &&& asked.requires_confirmation
        }),
        ({
            let confirmed = entries.1@[1];
            &&& confirmed.name@ == "confirm_"@ + gate@.op
            &&& confirmed.description@ == gate@.description
                + " — executes a previously requested operation; only approved callers may invoke."@
            &&& confirmed.params_schema@
                == "{\"type\":\"object\",\"properties\":{\"pending_id\":{\"type\":\"string\"}},\"required\":[\"pending_id\"]}"@
            &&& !confirmed.requires_confirmation
        }),
        forall|k: int|
            0 <= k < 2 ==> match gate@.risk {
                ActionRisk::Unknown => (#[trigger] entries.1@[k]).risk == 0,
                ActionRisk::Low => entries.1@[k].risk == 1,
                ActionRisk::Medium => entries.1@[k].risk == 2,
                ActionRisk::High => entries.1@[k].risk == 3,
                ActionRisk::Critical => entries.1@[k].risk == 4,
            },
{
    let names = text::views(entries.0@);
    let expected = seq![
        crate::confirmation_gate::request_name(gate@.op),
        crate::confirmation_gate::confirm_name(gate@.op),
    ];
    assert(expected.len() == 2 && names == expected);
    assert(names.len() == 2 && entries.0@.len() == 2);
    assert(names[0] == entries.0@[0]@ && names[1] == entries.0@[1]@);
}

/// The request still waits: less than its time has passed.
pub open spec fn still_waits(pending: PendingView, ttl: nat, now: nat) -> bool {
    0 < ttl && now < pending.created_at + ttl
}

/// Nothing of a gate has changed but what is stored.
pub open spec fn same_settings(a: GateView, b: GateView) -> bool {
    &&& a.op == b.op
    &&& a.description == b.description
    &&& a.params_schema == b.params_schema
    &&& a.risk == b.risk
    &&& a.confirm_callers == b.confirm_callers
    &&& a.pending_ttl == b.pending_ttl
}

/// The id of the request that is stored next.
pub open spec fn next_id(unix_millis: u64, n: u64) -> Seq<char> {
    "pending"@ + "-"@ + text::decimal(unix_millis as nat) + "-"@ + text::decimal(n as nat)
}

/// Beside `id`, everything that still waits is stored as it was, and nothing
/// else is.
pub open spec fn is_swept_but_for(
    before: Map<Seq<char>, PendingView>,
    after: Map<Seq<char>, PendingView>,
    ttl: nat,
    now: nat,
    id: Seq<char>,
) -> bool {
    forall|other: Seq<char>|
        other != id ==> {
            &&& #[trigger] after.contains_key(other) <==> before.contains_key(other)
                && still_waits(before[other], ttl, now)
            &&& after.contains_key(other) ==> after[other] == before[other]
        }
}

/// A stored request is kept as it was sent, with who sent it and when, under
/// its id; those that have waited too long go, all others stay.
pub proof fn requests_are_kept_as_sent(
    gate: &mut ConfirmationGate,
    request: &ActionRequest,
    sequence: &mut Sequence,
    now: Span,
    unix_millis: u64,
    id: String,
)
    requires
        old(gate).wf(),
        call_ensures(
            ConfirmationGate::store_request,
            (gate, request, sequence, now, unix_millis),
            id,
        ),
    ensures
        call_requires(
            ConfirmationGate::store_request,
            (gate, request, sequence, now, unix_millis),
        ),
        final(gate).wf(),
        same_settings(final(gate)@, old(gate)@),
        id@ == next_id(unix_millis, old(sequence)@),
        final(sequence)@ == (old(sequence)@ + 1) % 0x1_0000_0000_0000_0000,
        final(gate)@.pending.contains_key(id@),
        final(gate)@.pending[id@].action == request.action@,
        final(gate)@.pending[id@].params == request.params_json@,
        final(gate)@.pending[id@].caller == request.caller_plugin_id@,
        final(gate)@.pending[id@].created_at == now@,
        is_swept_but_for(
            old(gate)@.pending,
            final(gate)@.pending,
            old(gate)@.pending_ttl,
            now@,
            id@,
        ),
{
}

/// A request is taken out by its id exactly while it still waits, as it was
/// stored, and is gone then; those that have waited too long go, all others
/// stay.
pub proof fn waiting_requests_are_taken_out(
    gate: &mut ConfirmationGate,
    id: &String,
    now: Span,
    taken: Result<PendingAction, String>,
)
    requires
        old(gate).wf(),
        call_ensures(ConfirmationGate::take_pending, (gate, id, now), taken),
    ensures
        call_requires(ConfirmationGate::take_pending, (gate, id, now)),
        final(gate).wf(),
        same_settings(final(gate)@, old(gate)@),
        !final(gate)@.pending.contains_key(id@),
        is_swept_but_for(
            old(gate)@.pending,
            final(gate)@.pending,
            old(gate)@.pending_ttl,
            now@,
            id@,
        ),
        taken is Ok <==> old(gate)@.pending.contains_key(id@) && still_waits(
            old(gate)@.pending[id@],
            old(gate)@.pending_ttl,
            now@,
        ),
        taken matches Ok(action) ==> {
            &&& action.action@ == old(gate)@.pending[id@].action
            &&& action.params@ == old(gate)@.pending[id@].params
            &&& action.caller_plugin_id@ == old(gate)@.pending[id@].caller
            &&& action.created_at@ == old(gate)@.pending[id@].created_at
        },
        taken matches Err(error) ==> error@ == "no pending "@ + old(gate)@.op
            + " request with id "@ + id@,
{
    if let Ok(action) = taken {
        assert(action@.action == action.action@ && action@.params == action.params@);
    }
}

/// The id in the parameters of a confirmation is their string `pending_id`;
/// what is wrong with them is told.
pub proof fn named_ids_are_read(params: &[u8], id: Result<String, String>)
    requires
        call_ensures(parse_pending_id, (params,), id),
    ensures
        call_requires(parse_pending_id, (params,)),
        match json::json_document(params@) {
            Document::Malformed(fault) => id matches Err(error) && error@
                == "invalid confirm params: "@ + fault,
            Document::Object(contents) if contents.contains_key("pending_id"@)
                && contents["pending_id"@] is Text => id matches Ok(text) && text@
                == contents["pending_id"@]->Text_0,
            _ => id matches Err(error) && error@
                == "confirm params must include a string pending_id"@,
        },
{
}

/// The envelope answers the request of that id, with that status, and with
/// those data or that error.
pub open spec fn answers(
    envelope: Envelope,
    action_id: Seq<char>,
    status: int,
    data: Seq<u8>,
    error: Seq<char>,
) -> bool {
    &&& envelope.message_id@.len() == 0
    &&& envelope.timestamp == 0
    &&& envelope.sender_id@.len() == 0
    &&& envelope.payload matches Some(Payload::ActionResponse(response))
    &&& response.action_id@ == action_id
    &&& response.status == status
    &&& response.data_json@ == data
    &&& response.error@ == error
}

/// An action that there is not is answered as such.
pub proof fn unknown_actions_are_answered(action_id: String, envelope: Envelope)
    requires
        call_ensures(not_found, (action_id,), envelope),
    ensures
        call_requires(not_found, (action_id,)),
        answers(envelope, action_id@, 5, Seq::empty(), "unknown action"@),
{
}

/// What the confirmation of a stored request comes to. A caller that may not
/// confirm is refused, whatever it names, and nothing changes. What names no
/// id is refused, and nothing changes. Otherwise the operation runs exactly if
/// a request is stored under the id and still waits: with the parameters of
/// that request, which is then gone. Those that have waited too long go, all
/// others stay.
pub open spec fn confirms(
    before: GateView,
    after: GateView,
    may: bool,
    request: ActionRequest,
    id: Result<Seq<char>, Seq<char>>,
    now: nat,
    routed: Routed,
) -> bool {
    &&& same_settings(before, after)
    &&& !may ==> {
        &&& after.pending == before.pending
        &&& routed matches Routed::Reply(envelope) && answers(
            envelope,
            request.action_id@,
            2,
            Seq::empty(),
            "permission denied: caller "@ + request.caller_plugin_id@ + " may not confirm "@
                + before.op + " (approved callers: "@ + text::joined(
                before.confirm_callers,
                ", "@,
            ) + ")"@,
        )
    }
    &&& may && id is Err ==> {
        &&& after.pending == before.pending
        &&& routed matches Routed::Reply(envelope) && answers(
            envelope,
            request.action_id@,
            2,
            Seq::empty(),
            id->Err_0,
        )
    }
    &&& may && id is Ok ==> {
        let name = id->Ok_0;
        &&& is_swept_but_for(before.pending, after.pending, before.pending_ttl, now, name)
        &&& !after.pending.contains_key(name)
        &&& if before.pending.contains_key(name) && still_waits(
            before.pending[name],
            before.pending_ttl,
            now,
        ) {
            routed matches Routed::Execute { action_id, params } && action_id@
                == request.action_id@ && params@ == before.pending[name].params
        } else {
            routed matches Routed::Reply(envelope) && answers(
                envelope,
                request.action_id@,
                2,
                Seq::empty(),
                "no pending "@ + before.op + " request with id "@ + name,
            )
        }
    }
}

/// A confirmation runs what it names, for those who may confirm, once and in
/// time: [`confirms`] says what it comes to.
pub proof fn confirmations_run_what_they_name(
    gate: &mut ConfirmationGate,
    request: ActionRequest,
    pending_id: Result<String, String>,
    caller: &str,
    now: Span,
    may: bool,
    routed: Routed,
)
    requires
        old(gate).wf(),
        caller@ == request.caller_plugin_id@,
        call_ensures(ConfirmationGate::may_confirm, (&*old(gate), caller), may),
        call_ensures(ConfirmationGate::confirm, (gate, request, pending_id, now), routed),
    ensures
        call_requires(ConfirmationGate::may_confirm, (&*old(gate), caller)),
        call_requires(ConfirmationGate::confirm, (gate, request, pending_id, now)),
        final(gate).wf(),
        confirms(
            old(gate)@,
            final(gate)@,
            may,
            request,
            match pending_id {
                Ok(id) => Ok(id@),
                Err(error) => Err(error@),
            },
            now@,
            routed,
        ),
{
}

/// What a request to a gate comes to. `request_<op>` is stored, whoever calls,
/// and its answer holds the id, the action and the time in seconds that it
/// waits. `confirm_<op>` runs what it names. Anything else is unknown and
/// changes nothing.
pub proof fn routed_requests_are_stored_or_run(
    gate: &mut ConfirmationGate,
    request: ActionRequest,
    sequence: &mut Sequence,
    now: Span,
    unix_millis: u64,
    caller: &str,
    may: bool,
    params: &[u8],
    named: Result<String, String>,
    routed: Routed,
)
    requires
        old(gate).wf(),
        old(gate)@.pending_ttl <= 18_446_744_073_709_551_615_999_999_999,
        caller@ == request.caller_plugin_id@,
        call_ensures(ConfirmationGate::may_confirm, (&*old(gate), caller), may),
        params@ == request.params_json@,
        call_ensures(parse_pending_id, (params,), named),
        call_ensures(
            ConfirmationGate::route,
            (gate, request, sequence, now, unix_millis),
            routed,
        ),
    ensures
        call_requires(ConfirmationGate::may_confirm, (&*old(gate), caller)),
        call_requires(parse_pending_id, (params,)),
        call_requires(ConfirmationGate::route, (gate, request, sequence, now, unix_millis)),
        final(gate).wf(),
        same_settings(old(gate)@, final(gate)@),
        request.action@ == "request_"@ + old(gate)@.op ==> {
            let id = next_id(unix_millis, old(sequence)@);
            &&& final(sequence)@ == (old(sequence)@ + 1) % 0x1_0000_0000_0000_0000
            &&& final(gate)@.pending.contains_key(id)
            &&& final(gate)@.pending[id].action == request.action@
            &&& final(gate)@.pending[id].params == request.params_json@
            &&& final(gate)@.pending[id].caller == request.caller_plugin_id@
            &&& final(gate)@.pending[id].created_at == now@
            &&& is_swept_but_for(
                old(gate)@.pending,
                final(gate)@.pending,
                old(gate)@.pending_ttl,
                now@,
                id,
            )
            &&& routed matches Routed::Reply(envelope)
            &&& envelope.payload matches Some(Payload::ActionResponse(response))
            &&& answers(envelope, request.action_id@, 1, response.data_json@, Seq::empty())
            &&& json::json_document(response.data_json@) matches Document::Object(contents)
            &&& contents.dom() =~= set!["pending_id"@, "action"@, "ttl_secs"@]
            &&& contents["pending_id"@] == Member::Text(id)
            &&& contents["action"@] == Member::Text(request.action@)
            &&& contents["ttl_secs"@] matches Member::Natural(secs)
            &&& secs * 1_000_000_000 <= old(gate)@.pending_ttl
            &&& old(gate)@.pending_ttl < secs * 1_000_000_000 + 1_000_000_000
        },
        request.action@ == "confirm_"@ + old(gate)@.op ==> {
            &&& final(sequence)@ == old(sequence)@
            &&& confirms(
                old(gate)@,
                final(gate)@,
                may,
                request,
                match named {
                    Ok(id) => Ok(id@),
                    Err(error) => Err(error@),
                },
                now@,
                routed,
            )
        },
        request.action@ != "request_"@ + old(gate)@.op && request.action@ != "confirm_"@ + old(
            gate,
        )@.op ==> {
            &&& final(sequence)@ == old(sequence)@
            &&& final(gate)@.pending == old(gate)@.pending
            &&& routed matches Routed::Reply(envelope) && answers(
                envelope,
                request.action_id@,
                5,
                Seq::empty(),
                "unknown action"@,
            )
        },
{
    crate::confirmation_gate::names_differ(old(gate)@.op);
    reveal_strlit("pending_id");
    reveal_strlit("action");
    reveal_strlit("ttl_secs");
    assert("pending_id"@.len() == 10 && "action"@.len() == 6 && "ttl_secs"@.len() == 8);
}

/// The message asks the kernel for that action, with those parameters and the
/// default timeout, under that id.
pub open spec fn asks_for(
    message: Outgoing,
    action_id: Seq<char>,
    action: Seq<char>,
    params: Seq<u8>,
) -> bool {
    &&& message.target@ == "kernel"@
    &&& message.envelope.message_id@.len() == 0
    &&& message.envelope.timestamp == 0
    &&& message.envelope.sender_id@.len() == 0
    &&& message.envelope.payload matches Some(Payload::ActionRequest(request))
    &&& request.action_id@ == action_id
    &&& request.action@ == action
    &&& request.params_json@ == params
    &&& request.timeout_ms == 0
    &&& !request.streaming
    &&& request.caller_plugin_id@.len() == 0
}

/// The requesting side sends its parameters as they are to `request_<op>`, and
/// the confirming side sends `confirm_<op>` an object that holds the id and
/// nothing else.
pub proof fn both_sides_send_as_asked(
    client: &VynkorClient,
    asking: &mut Sequence,
    confirming: &mut Sequence,
    op: &str,
    params_json: &[u8],
    pending_id: &str,
    unix_millis: u64,
    asked: (String, Outgoing),
    confirmed: (String, Outgoing),
)
    requires
        call_ensures(
            send_confirmation_request,
            (client, asking, op, params_json, unix_millis),
            asked,
        ),
        call_ensures(
            send_confirmation,
            (client, confirming, op, pending_id, unix_millis),
            confirmed,
        ),
    ensures
        call_requires(send_confirmation_request, (client, asking, op, params_json, unix_millis)),
        call_requires(send_confirmation, (client, confirming, op, pending_id, unix_millis)),
        final(asking)@ == (old(asking)@ + 1) % 0x1_0000_0000_0000_0000,
        asked.0@ == "act"@ + "-"@ + text::decimal(unix_millis as nat) + "-"@ + text::decimal(
            old(asking)@ as nat,
        ),
        asks_for(asked.1, asked.0@, "request_"@ + op@, params_json@),
        final(confirming)@ == (old(confirming)@ + 1) % 0x1_0000_0000_0000_0000,
        confirmed.0@ == "act"@ + "-"@ + text::decimal(unix_millis as nat) + "-"@ + text::decimal(
            old(confirming)@ as nat,
        ),
        confirmed.1.envelope.payload matches Some(Payload::ActionRequest(request)) && {
            &&& asks_for(
                confirmed.1,
                confirmed.0@,
                "confirm_"@ + op@,
                request.params_json@,
            )
            &&& json::json_document(request.params_json@) matches Document::Object(contents)
            &&& contents.dom() =~= set!["pending_id"@]
            &&& contents["pending_id"@] == Member::Text(pending_id@)
        },
{
}

/// The requesting side gets the id that is told to it, if its request was
/// successful, and is told what went wrong if not.
pub proof fn told_ids_are_read(
    op: &str,
    response: &ActionResponse,
    status: i32,
    error: &String,
    found: Result<Option<String>, String>,
    read: Result<String, VynkorError>,
    picked: Result<String, VynkorError>,
)
    requires
        call_ensures(confirmation_request_reply, (op, response), read),
        call_ensures(stored_as, (op, status, error, found), picked),
    ensures
        call_requires(confirmation_request_reply, (op, response)),
        call_requires(stored_as, (op, status, error, found)),
        response.status != 1 ==> (read matches Err(VynkorError::Internal(text)) && text@
            == "request_"@ + op@ + " failed: "@ + response.error@),
        response.status == 1 ==> match json::json_document(response.data_json@) {
            Document::Malformed(fault) => read matches Err(VynkorError::Internal(text)) && text@
                == "invalid pending response: "@ + fault,
            Document::Object(contents) if contents.contains_key("pending_id"@)
                && contents["pending_id"@] is Text => read matches Ok(id) && id@
                == contents["pending_id"@]->Text_0,
            _ => read matches Err(VynkorError::Internal(text)) && text@
                == "pending response missing pending_id"@,
        },
        status != 1 ==> (picked matches Err(VynkorError::Internal(text)) && text@ == "request_"@
            + op@ + " failed: "@ + error@),
        status == 1 ==> match found {
            Ok(Some(id)) => picked matches Ok(chosen) && chosen@ == id@,
            Ok(None) => picked matches Err(VynkorError::Internal(text)) && text@
                == "pending response missing pending_id"@,
            Err(fault) => picked matches Err(VynkorError::Internal(text)) && text@
                == "invalid pending response: "@ + fault@,
        },
{
}

/// What is counted is what is stored.
pub proof fn stored_requests_are_counted(gate: &ConfirmationGate, count: usize)
    requires
        gate.wf(),
        call_ensures(ConfirmationGate::pending_count, (gate,), count),
    ensures
        call_requires(ConfirmationGate::pending_count, (gate,)),
        count == gate@.pending.dom().len(),
{
}

} // verus!
