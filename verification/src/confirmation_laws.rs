//! What a confirmation gate guarantees.

use crate::concurrent;
use crate::confirmation_gate::{self, Decision, GateView, PendingView, Routed};
use crate::error::ErrorView;
use crate::ids;
use crate::json;
use crate::proto::{ActionResponse, ActionStatus, RequestView};
use crate::span;
use vstd::prelude::*;

verus! {

/// One request that reaches a gate: when, and the id that it gets if it is
/// stored.
#[verifier::ext_equal]
pub struct Step {
    pub request: RequestView,
    pub now: nat,
    pub fresh: Seq<char>,
}

/// A gate after one request.
pub open spec fn after_step(gate: GateView, step: Step) -> GateView {
    GateView {
        pending: confirmation_gate::decide(gate, step.request, step.now, step.fresh).0,
        ..gate
    }
}

/// A gate after a run of requests.
pub open spec fn after_steps(gate: GateView, steps: Seq<Step>) -> GateView
    decreases steps.len(),
{
    if steps.len() == 0 {
        gate
    } else {
        after_step(after_steps(gate, steps.drop_last()), steps.last())
    }
}

/// What becomes of one request.
pub open spec fn decision(gate: GateView, step: Step) -> Decision {
    confirmation_gate::decide(gate, step.request, step.now, step.fresh).1
}

/// The request is a confirmation that is taken and that names `id`.
pub open spec fn claims(gate: GateView, request: RequestView, id: Seq<char>) -> bool {
    &&& request.action == confirmation_gate::confirm_name(gate.op)
    &&& confirmation_gate::admitted(gate.confirm_callers, request.caller)
    &&& confirmation_gate::named_id(request.params) == Ok::<Seq<char>, Seq<char>>(id)
}

/// Nothing runs but on the confirmation of a caller that is on the list.
pub proof fn only_approved_confirmations_execute(gate: GateView, step: Step)
    requires
        decision(gate, step) is Execute,
    ensures
        step.request.action == confirmation_gate::confirm_name(gate.op),
        confirmation_gate::admitted(gate.confirm_callers, step.request.caller),
{
}

/// A request for the operation is stored, whoever calls, and does not run.
pub proof fn requests_are_stored_for_anyone(gate: GateView, step: Step)
    requires
        step.request.action == confirmation_gate::request_name(gate.op),
    ensures
        decision(gate, step) == Decision::Stored(step.fresh),
        after_step(gate, step).pending.contains_key(step.fresh),
        after_step(gate, step).pending[step.fresh] == confirmation_gate::stored(
            step.request,
            step.now,
        ),
{
}

/// What runs, runs with parameters that were stored and have not expired,
/// whatever else the confirmation carries.
pub proof fn only_stored_params_execute(gate: GateView, step: Step)
    requires
        decision(gate, step) is Execute,
    ensures
        exists|id: Seq<char>|
            {
                &&& claims(gate, step.request, id)
                &&& #[trigger] gate.pending.contains_key(id)
                &&& span::younger_than(gate.pending[id].created_at, gate.pending_ttl, step.now)
                &&& decision(gate, step) == Decision::Execute(gate.pending[id].params)
            },
{
    let id = confirmation_gate::named_id(step.request.params)->Ok_0;
    assert(claims(gate, step.request, id));
    assert(gate.pending.contains_key(id));
}

/// Two confirmations of one stored request execute alike, whatever else
/// their parameters hold and whichever approved callers send them.
pub proof fn confirmations_cannot_change_params(gate: GateView, a: Step, b: Step, id: Seq<char>)
    requires
        a.now == b.now,
        claims(gate, a.request, id),
        claims(gate, b.request, id),
    ensures
        decision(gate, a) == decision(gate, b),
        after_step(gate, a) == after_step(gate, b),
{
    confirmation_gate::names_differ(gate.op);
}

/// A stored request outlives every step that does not confirm it, does not
/// get the same id and comes before it expires.
pub proof fn pending_survives(gate: GateView, step: Step, id: Seq<char>)
    requires
        gate.pending.contains_key(id),
        span::younger_than(gate.pending[id].created_at, gate.pending_ttl, step.now),
        step.fresh != id,
        !claims(gate, step.request, id),
    ensures
        after_step(gate, step).pending.contains_key(id),
        after_step(gate, step).pending[id] == gate.pending[id],
{
}

/// The steps between leave a stored request alone.
pub open spec fn leave_alone(
    gate: GateView,
    steps: Seq<Step>,
    id: Seq<char>,
    created_at: nat,
) -> bool {
    forall|i: int|
        0 <= i < steps.len() ==> {
            &&& (#[trigger] steps[i]).fresh != id
            &&& !claims(gate, steps[i].request, id)
            &&& span::younger_than(created_at, gate.pending_ttl, steps[i].now)
        }
}

proof fn pending_survives_steps(gate: GateView, steps: Seq<Step>, id: Seq<char>)
    requires
        gate.pending.contains_key(id),
        leave_alone(gate, steps, id, gate.pending[id].created_at),
    ensures
        ({
            let later = after_steps(gate, steps);
            &&& later == (GateView { pending: later.pending, ..gate })
            &&& later.pending.contains_key(id)
            &&& later.pending[id] == gate.pending[id]
        }),
    decreases steps.len(),
{
    if steps.len() > 0 {
        let earlier = steps.drop_last();
        assert forall|i: int| 0 <= i < earlier.len() implies {
            &&& (#[trigger] earlier[i]).fresh != id
            &&& !claims(gate, earlier[i].request, id)
            &&& span::younger_than(gate.pending[id].created_at, gate.pending_ttl, earlier[i].now)
        } by {
            assert(earlier[i] == steps[i]);
        }
        pending_survives_steps(gate, earlier, id);
        assert(steps.last() == steps[steps.len() - 1]);
        pending_survives(after_steps(gate, earlier), steps.last(), id);
    }
}

/// A request that is confirmed before it expires runs with the parameters
/// that were requested, whatever else came in between, short of
/// another confirmation of it.
pub proof fn request_then_confirm_executes(
    gate: GateView,
    request: Step,
    between: Seq<Step>,
    confirm: Step,
)
    requires
        request.request.action == confirmation_gate::request_name(gate.op),
        leave_alone(gate, between, request.fresh, request.now),
        claims(gate, confirm.request, request.fresh),
        span::younger_than(request.now, gate.pending_ttl, confirm.now),
    ensures
        decision(after_steps(after_step(gate, request), between), confirm) == Decision::Execute(
            request.request.params,
        ),
{
    let first = after_step(gate, request);
    requests_are_stored_for_anyone(gate, request);
    assert(leave_alone(first, between, request.fresh, request.now));
    pending_survives_steps(first, between, request.fresh);
    confirmation_gate::names_differ(gate.op);
}

/// Every stored request is answered with the id that it is stored under, so
/// that the requesting side can read it there.
pub proof fn stored_requests_are_told_their_id(
    gate: GateView,
    request: Step,
    routed: Routed,
)
    requires
        request.request.action == confirmation_gate::request_name(gate.op),
        confirmation_gate::carries(
            routed,
            request.request,
            gate.pending_ttl,
            decision(gate, request),
        ),
    ensures
        routed matches Routed::Reply(envelope) && concurrent::answer(envelope) matches Some(told)
            && told.action_id@ == request.request.action_id
            && confirmation_gate::pending_id_answer(
            gate.op,
            told.status,
            told.error@,
            json::lookup(told.data_json@, "pending_id"@),
        ) == Ok::<Seq<char>, ErrorView>(request.fresh),
{
}

/// Where nothing is stored under an id, a confirmation that names it fails
/// and says so.
pub proof fn unknown_ids_are_refused(gate: GateView, step: Step, id: Seq<char>)
    requires
        claims(gate, step.request, id),
        !gate.pending.contains_key(id),
    ensures
        decision(gate, step) == Decision::Refused(
            ActionStatus::ActionError,
            confirmation_gate::unknown_id(gate.op, id),
        ),
{
    confirmation_gate::names_differ(gate.op);
}

proof fn absent_stays_absent(gate: GateView, steps: Seq<Step>, id: Seq<char>)
    requires
        !gate.pending.contains_key(id),
        forall|i: int| 0 <= i < steps.len() ==> (#[trigger] steps[i]).fresh != id,
    ensures
        after_steps(gate, steps) == (GateView {
            pending: after_steps(gate, steps).pending,
            ..gate
        }),
        !after_steps(gate, steps).pending.contains_key(id),
    decreases steps.len(),
{
    if steps.len() > 0 {
        let earlier = steps.drop_last();
        assert forall|i: int| 0 <= i < earlier.len() implies (#[trigger] earlier[i]).fresh
            != id by {
            assert(earlier[i] == steps[i]);
        }
        absent_stays_absent(gate, earlier, id);
        assert(steps.last() == steps[steps.len() - 1]);
    }
}

/// A request runs at most once: after it ran, no confirmation of it runs
/// again, whatever else comes in between, unless its id is handed
/// out once more.
pub proof fn confirmed_once_only(
    gate: GateView,
    first: Step,
    between: Seq<Step>,
    second: Step,
    id: Seq<char>,
)
    requires
        claims(gate, first.request, id),
        forall|i: int| 0 <= i < between.len() ==> (#[trigger] between[i]).fresh != id,
        claims(gate, second.request, id),
    ensures
        !(decision(after_steps(after_step(gate, first), between), second) is Execute),
{
    confirmation_gate::names_differ(gate.op);
    let later = after_step(gate, first);
    assert(!later.pending.contains_key(id));
    absent_stays_absent(later, between, id);
    unknown_ids_are_refused(after_steps(later, between), second, id);
}

/// A request that has waited too long cannot be confirmed, and is forgotten
/// when somebody tries.
pub proof fn expired_requests_are_refused(gate: GateView, step: Step, id: Seq<char>)
    requires
        claims(gate, step.request, id),
        gate.pending.contains_key(id),
        !span::younger_than(gate.pending[id].created_at, gate.pending_ttl, step.now),
    ensures
        decision(gate, step) == Decision::Refused(
            ActionStatus::ActionError,
            confirmation_gate::unknown_id(gate.op, id),
        ),
        !after_step(gate, step).pending.contains_key(id),
{
    confirmation_gate::names_differ(gate.op);
}

/// Requests that nobody confirms do not pile up: when a request is stored or
/// an approved confirmation names an id, all that have waited too long are
/// forgotten, and only the request that is stored just then is new.
pub proof fn expired_requests_do_not_pile_up(gate: GateView, step: Step, id: Seq<char>)
    requires
        step.request.action == confirmation_gate::request_name(gate.op) || claims(
            gate,
            step.request,
            id,
        ),
    ensures
        forall|other: Seq<char>| #[trigger]
            after_step(gate, step).pending.contains_key(other) ==> (decision(gate, step)
                == Decision::Stored(other) || gate.pending.contains_key(other)
                && span::younger_than(
                gate.pending[other].created_at,
                gate.pending_ttl,
                step.now,
            )),
{
    confirmation_gate::names_differ(gate.op);
}

/// A caller that is not on the list learns nothing of what is stored, and
/// changes none of it: the refusal is the same for all stored requests, all
/// parameters and all times.
pub proof fn denied_callers_learn_nothing(a: GateView, b: GateView, x: Step, y: Step)
    requires
        a.op == b.op,
        a.confirm_callers == b.confirm_callers,
        x.request.action == confirmation_gate::confirm_name(a.op),
        y.request.action == x.request.action,
        y.request.caller == x.request.caller,
        !confirmation_gate::admitted(a.confirm_callers, x.request.caller),
    ensures
        decision(a, x) == decision(b, y),
        decision(a, x) == Decision::Refused(
            ActionStatus::ActionError,
            confirmation_gate::denial(a, x.request.caller),
        ),
        after_step(a, x) == a,
{
    confirmation_gate::names_differ(a.op);
}

/// Any action but the two of the operation is unknown and changes nothing.
pub proof fn other_actions_are_unknown(gate: GateView, step: Step)
    requires
        step.request.action != confirmation_gate::request_name(gate.op),
        step.request.action != confirmation_gate::confirm_name(gate.op),
    ensures
        decision(gate, step) == Decision::Refused(
            ActionStatus::ActionNotFound,
            "unknown action"@,
        ),
        after_step(gate, step) == gate,
{
}

/// An entry `prefix.*` admits the ids under `prefix`, with the dot, and not
/// `prefix` itself.
pub proof fn globs_keep_the_dot(prefix: Seq<char>, caller: Seq<char>)
    ensures
        confirmation_gate::admits(prefix + ".*"@, caller) <==> exists|rest: Seq<char>|
            caller == #[trigger] (prefix + "."@ + rest),
        !confirmation_gate::admits(prefix + ".*"@, prefix),
{
    reveal_strlit(".*");
    reveal_strlit(".");
    let entry = prefix + ".*"@;
    assert(".*"@ =~= entry.subrange(entry.len() - 2, entry.len() as int));
    assert(entry.drop_last() =~= prefix + "."@);
    if confirmation_gate::admits(entry, caller) {
        let rest = caller.skip(prefix.len() as int + 1);
        assert(caller =~= prefix + "."@ + rest);
    }
    if exists|rest: Seq<char>| caller == #[trigger] (prefix + "."@ + rest) {
        let rest = choose|rest: Seq<char>| caller == #[trigger] (prefix + "."@ + rest);
        assert((prefix + "."@ + rest).subrange(0, (prefix + "."@).len() as int) =~= prefix + "."@);
    }
}

/// One call of `route`: the request, when it comes, the time of day, and how
/// many numbers have been drawn from the sequence by then.
pub struct Call {
    pub request: RequestView,
    pub now: nat,
    pub unix_millis: u64,
    pub drawn: nat,
}

impl Call {
    /// The step that the call is for a gate, if the sequence began at `n`.
    pub open spec fn step(self, n: u64) -> Step {
        Step {
            request: self.request,
            now: self.now,
            fresh: ids::stamped_id(
                "pending"@,
                self.unix_millis,
                ids::nth_successor(n, self.drawn),
            ),
        }
    }

    /// The call asks for the operation, and so draws a number.
    pub open spec fn requests(self, op: Seq<char>) -> bool {
        self.request.action == confirmation_gate::request_name(op)
    }
}

/// The calls come one after another: the count of drawn numbers never goes
/// back, and a request is counted by the time of the next call. Others may
/// draw from the sequence too, as long as it does not come round to its
/// beginning.
pub open spec fn in_turn(op: Seq<char>, calls: Seq<Call>) -> bool {
    forall|i: int, j: int|
        #![trigger calls[i], calls[j]]
        0 <= i < j < calls.len() ==> {
            &&& calls[i].drawn <= calls[j].drawn
            &&& calls[i].requests(op) ==> calls[i].drawn < calls[j].drawn
            &&& calls[j].drawn - calls[i].drawn <= u64::MAX
        }
}

/// The steps that calls are for a gate.
pub open spec fn steps_of(n: u64, calls: Seq<Call>) -> Seq<Step> {
    Seq::new(calls.len(), |i: int| calls[i].step(n))
}

/// A gate just before call `i`.
pub open spec fn before_call(gate: GateView, n: u64, calls: Seq<Call>, i: int) -> GateView {
    after_steps(gate, steps_of(n, calls).take(i))
}

/// What becomes of call `i`.
pub open spec fn decision_on_call(gate: GateView, n: u64, calls: Seq<Call>, i: int) -> Decision {
    decision(before_call(gate, n, calls, i), calls[i].step(n))
}

/// The id of a stored request is not given again: no later call gets it.
pub proof fn fresh_ids_do_not_repeat(op: Seq<char>, n: u64, calls: Seq<Call>, i: int, j: int)
    requires
        in_turn(op, calls),
        0 <= i < j < calls.len(),
        calls[i].requests(op),
    ensures
        calls[i].step(n).fresh != calls[j].step(n).fresh,
{
    ids::sequence_does_not_repeat(n, calls[i].drawn, calls[j].drawn);
    ids::stamped_ids_differ(
        "pending"@,
        calls[i].unix_millis,
        ids::nth_successor(n, calls[i].drawn),
        "pending"@,
        calls[j].unix_millis,
        ids::nth_successor(n, calls[j].drawn),
    );
}

/// No stored request overwrites another: at a gate that began with nothing
/// stored, the id that a request gets is free.
pub proof fn stored_requests_overwrite_nothing(gate: GateView, n: u64, calls: Seq<Call>, j: int)
    requires
        in_turn(gate.op, calls),
        gate.pending =~= Map::<Seq<char>, PendingView>::empty(),
        0 <= j < calls.len(),
    ensures
        !before_call(gate, n, calls, j).pending.contains_key(calls[j].step(n).fresh),
{
    let fresh = calls[j].step(n).fresh;
    if before_call(gate, n, calls, j).pending.contains_key(fresh) {
        stored_ids_come_from_requests(gate, n, calls, j, fresh);
        let i = choose|i: int|
            0 <= i < j && #[trigger] calls[i].requests(gate.op) && calls[i].step(n).fresh == fresh;
        fresh_ids_do_not_repeat(gate.op, n, calls, i, j);
    }
}

/// What is stored before call `j` is stored under the id of a request before
/// it.
proof fn stored_ids_come_from_requests(
    gate: GateView,
    n: u64,
    calls: Seq<Call>,
    j: int,
    id: Seq<char>,
)
    requires
        gate.pending =~= Map::<Seq<char>, PendingView>::empty(),
        0 <= j <= calls.len(),
        before_call(gate, n, calls, j).pending.contains_key(id),
    ensures
        before_call(gate, n, calls, j).op == gate.op,
        exists|i: int|
            0 <= i < j && #[trigger] calls[i].requests(gate.op) && calls[i].step(n).fresh == id,
    decreases j,
{
    if j > 0 {
        let earlier = before_call(gate, n, calls, j - 1);
        step_before_call(gate, n, calls, j);
        gate_keeps_its_settings(gate, steps_of(n, calls).take(j - 1));
        if earlier.pending.contains_key(id) {
            stored_ids_come_from_requests(gate, n, calls, j - 1, id);
            let i = choose|i: int|
                0 <= i < j - 1 && #[trigger] calls[i].requests(gate.op) && calls[i].step(n).fresh
                    == id;
            assert(calls[i].requests(gate.op));
        } else {
            assert(calls[j - 1].requests(gate.op));
        }
    }
}

/// A gate before call `j` is the one after call `j - 1`.
proof fn step_before_call(gate: GateView, n: u64, calls: Seq<Call>, j: int)
    requires
        0 < j <= calls.len(),
    ensures
        before_call(gate, n, calls, j) == after_step(
            before_call(gate, n, calls, j - 1),
            calls[j - 1].step(n),
        ),
{
    let steps = steps_of(n, calls);
    assert(steps.take(j).drop_last() =~= steps.take(j - 1));
}

/// Requests change nothing of a gate but what is stored.
proof fn gate_keeps_its_settings(gate: GateView, steps: Seq<Step>)
    ensures
        after_steps(gate, steps) == (GateView {
            pending: after_steps(gate, steps).pending,
            ..gate
        }),
    decreases steps.len(),
{
    if steps.len() > 0 {
        gate_keeps_its_settings(gate, steps.drop_last());
    }
}

/// Steps one after another, in two parts.
proof fn steps_in_two_parts(gate: GateView, first: Seq<Step>, second: Seq<Step>)
    ensures
        after_steps(gate, first + second) == after_steps(after_steps(gate, first), second),
    decreases second.len(),
{
    if second.len() == 0 {
        assert(first + second =~= first);
    } else {
        assert((first + second).drop_last() =~= first + second.drop_last());
        assert((first + second).last() == second.last());
        steps_in_two_parts(gate, first, second.drop_last());
    }
}

/// A gate before call `j`, seen from an earlier call `i`.
proof fn from_an_earlier_call(gate: GateView, n: u64, calls: Seq<Call>, i: int, j: int)
    requires
        0 <= i < j < calls.len(),
    ensures
        before_call(gate, n, calls, j) == after_steps(
            after_step(before_call(gate, n, calls, i), calls[i].step(n)),
            steps_of(n, calls).subrange(i + 1, j),
        ),
{
    let steps = steps_of(n, calls);
    step_before_call(gate, n, calls, i + 1);
    assert(steps.take(j) =~= steps.take(i + 1) + steps.subrange(i + 1, j));
    steps_in_two_parts(gate, steps.take(i + 1), steps.subrange(i + 1, j));
}

/// An operation that was requested in call `i` and is confirmed in call `j`
/// runs with the parameters of the request, whatever calls came before and in
/// between, short of another confirmation of it and of its expiry: no other
/// call can get its id and take its place.
pub proof fn requested_operations_run(
    gate: GateView,
    n: u64,
    calls: Seq<Call>,
    i: int,
    j: int,
)
    requires
        in_turn(gate.op, calls),
        0 <= i < j < calls.len(),
        calls[i].requests(gate.op),
        claims(gate, calls[j].request, calls[i].step(n).fresh),
        forall|k: int|
            i < k < j ==> !claims(
                gate,
                (#[trigger] calls[k]).request,
                calls[i].step(n).fresh,
            ),
        forall|k: int|
            i < k <= j ==> span::younger_than(
                calls[i].now,
                gate.pending_ttl,
                (#[trigger] calls[k]).now,
            ),
    ensures
        decision_on_call(gate, n, calls, j) == Decision::Execute(calls[i].request.params),
{
    let steps = steps_of(n, calls);
    let between = steps.subrange(i + 1, j);
    let then = before_call(gate, n, calls, i);
    gate_keeps_its_settings(gate, steps.take(i));
    from_an_earlier_call(gate, n, calls, i, j);
    assert forall|k: int| 0 <= k < between.len() implies {
        &&& (#[trigger] between[k]).fresh != calls[i].step(n).fresh
        &&& !claims(then, between[k].request, calls[i].step(n).fresh)
        &&& span::younger_than(calls[i].now, then.pending_ttl, between[k].now)
    } by {
        assert(between[k] == calls[i + 1 + k].step(n));
        fresh_ids_do_not_repeat(gate.op, n, calls, i, i + 1 + k);
    }
    request_then_confirm_executes(then, calls[i].step(n), between, calls[j].step(n));
}

/// The two sides meet: the id that the requesting side reads in the answer
/// to its request is the one by which an approved caller confirms it, and the
/// operation then runs with what was requested.
pub proof fn the_id_that_is_told_confirms(
    gate: GateView,
    n: u64,
    calls: Seq<Call>,
    i: int,
    routed: Routed,
    told: ActionResponse,
    id: Seq<char>,
    j: int,
)
    requires
        in_turn(gate.op, calls),
        0 <= i < j < calls.len(),
        calls[i].requests(gate.op),
        confirmation_gate::carries(
            routed,
            calls[i].request,
            gate.pending_ttl,
            decision_on_call(gate, n, calls, i),
        ),
        routed matches Routed::Reply(envelope) && concurrent::answer(envelope) == Some(told),
        confirmation_gate::pending_id_answer(
            gate.op,
            told.status,
            told.error@,
            json::lookup(told.data_json@, "pending_id"@),
        ) == Ok::<Seq<char>, ErrorView>(id),
        claims(gate, calls[j].request, id),
        forall|k: int| i < k < j ==> !claims(gate, (#[trigger] calls[k]).request, id),
        forall|k: int|
            i < k <= j ==> span::younger_than(
                calls[i].now,
                gate.pending_ttl,
                (#[trigger] calls[k]).now,
            ),
    ensures
        decision_on_call(gate, n, calls, j) == Decision::Execute(calls[i].request.params),
{
    gate_keeps_its_settings(gate, steps_of(n, calls).take(i));
    assert(id == calls[i].step(n).fresh);
    requested_operations_run(gate, n, calls, i, j);
}

/// An operation that was requested in call `i` runs once at most: of two
/// confirmations of it, whatever calls came before and in between, the second
/// does not run.
pub proof fn requested_operations_run_once(
    gate: GateView,
    n: u64,
    calls: Seq<Call>,
    i: int,
    j: int,
    k: int,
)
    requires
        in_turn(gate.op, calls),
        0 <= i < j < k < calls.len(),
        calls[i].requests(gate.op),
        claims(gate, calls[j].request, calls[i].step(n).fresh),
        claims(gate, calls[k].request, calls[i].step(n).fresh),
    ensures
        !(decision_on_call(gate, n, calls, k) is Execute),
{
    let steps = steps_of(n, calls);
    let between = steps.subrange(j + 1, k);
    let then = before_call(gate, n, calls, j);
    let id = calls[i].step(n).fresh;
    gate_keeps_its_settings(gate, steps.take(j));
    from_an_earlier_call(gate, n, calls, j, k);
    assert forall|m: int| 0 <= m < between.len() implies (#[trigger] between[m]).fresh != id by {
        assert(between[m] == calls[j + 1 + m].step(n));
        fresh_ids_do_not_repeat(gate.op, n, calls, i, j + 1 + m);
    }
    confirmed_once_only(then, calls[j].step(n), between, calls[k].step(n), id);
}

} // verus!
