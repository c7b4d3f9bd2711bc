//! What a recalculation does, told by a thermostat's mode, its actuator, the
//! reading and the lockout.

use super::values::calls_differ;
use crate::config::EntryView;
use crate::instant::{rfc3339_instant, Timestamp};
use crate::json::JsonNode;
use crate::quantity::Quantity;
use crate::runtime::{
    demands, fresh, goes_stale, issued, lockout_counts, lockout_fits, next_call, recalculated,
    restored, retained_in, with_outcome, EvaluationView, RetainedView, RuntimeView,
};
use vstd::prelude::*;

verus! {

/// What decides a recalculation: a thermostat is stale where it has no reading
/// and is not off; it calls for what was computed, unless it is off or has no
/// temperature; heating and cooling want the actuator on, and no other call does;
/// and a lockout counts wherever the call wants the actuator otherwise than it
/// is, except that it never keeps on what is to be turned off.
pub proof fn what_decides(
    mode: Seq<char>,
    read: bool,
    current: Option<Quantity>,
    computed: Seq<char>,
    on: bool,
    call: Seq<char>,
)
    ensures
        goes_stale(mode, read) <==> mode != "off"@ && !read,
        mode != "off"@ && current is Some ==> next_call(mode, current, computed) == computed,
        mode == "off"@ || current is None ==> next_call(mode, current, computed) == "idle"@,
        demands("heat"@) && demands("cool"@),
        call != "heat"@ && call != "cool"@ ==> !demands(call),
        on && mode == "off"@ ==> !lockout_counts(mode, on, call),
        on && mode != "off"@ ==> (lockout_counts(mode, on, call) <==> call != "heat"@ && call
            != "cool"@),
        !on ==> (lockout_counts(mode, on, call) <==> call == "heat"@ || call == "cool"@),
{
}

/// A thermostat is well formed where the points in time that it holds are in the
/// calendar and a lockout ends exactly while a call is pending; nothing else is
/// asked.
pub proof fn what_is_asked_of_a_thermostat(rt: RuntimeView)
    ensures
        rt.wf() ==> (rt.pending_call is Some <==> rt.lockout_until is Some),
        (rt.pending_call is Some <==> rt.lockout_until is Some) && (
        rt.actuator_last_change matches Some(t) ==> t.valid()) && (rt.lockout_until matches Some(t)
            ==> t.valid()) && (rt.actuator_last_error matches Some(e) ==> e.timestamp.valid())
            ==> rt.wf(),
{
}

/// A recalculation touches neither the configuration nor a noted error, and
/// makes the call the thermostat's own.
pub proof fn a_recalculation_leaves_the_rest(rt: RuntimeView, read: bool, ev: EvaluationView)
    ensures
        ({
            let after = recalculated(rt, read, ev);
            &&& after.cfg == rt.cfg
            &&& after.actuator_last_error == rt.actuator_last_error
            &&& after.call_is_live
        }),
{
}

/// A thermostat that is not off and has no reading calls itself stale and forgets
/// its temperature, when it was not stale already. Its actuator, what is
/// pending and the lockout stay as they are, and nothing is sent.
pub proof fn no_reading_means_stale(rt: RuntimeView, ev: EvaluationView)
    requires
        rt.cfg.mode != "off"@,
    ensures
        ({
            let after = recalculated(rt, false, ev);
            &&& after.call_for == "stale"@
            &&& rt.call_for != "stale"@ ==> after.current_temperature is None
            &&& rt.call_for == "stale"@ ==> after.current_temperature == rt.current_temperature
            &&& after.actuator_state == rt.actuator_state
            &&& after.actuator_last_change == rt.actuator_last_change
            &&& after.pending_call == rt.pending_call
            &&& after.lockout_until == rt.lockout_until
            &&& issued(rt, false, ev) is None
        }),
{
}

/// A thermostat with a reading takes the temperature over, and so does one that
/// is off. It calls for what was computed; for nothing where it is off, or where
/// there is no temperature.
pub proof fn the_call_is_the_computed_one(rt: RuntimeView, read: bool, ev: EvaluationView)
    requires
        read || rt.cfg.mode == "off"@,
    ensures
        ({
            let after = recalculated(rt, read, ev);
            &&& after.current_temperature == ev.current
            &&& rt.cfg.mode != "off"@ && ev.current is Some ==> after.call_for == ev.computed
            &&& rt.cfg.mode == "off"@ ==> after.call_for == "idle"@
            &&& ev.current is None ==> after.call_for == "idle"@
        }),
{
}

/// While seconds of a lockout remain, no thermostat but one that is off switches
/// its actuator, in whatever mode it is, and whichever way it would be switched:
/// the actuator and the point of its last switch stay, nothing is sent, the call
/// is pending, and the lockout ends after those seconds.
pub proof fn a_lockout_defers_every_switch(rt: RuntimeView, ev: EvaluationView, call: Seq<char>)
    requires
        rt.cfg.mode != "off"@,
        call == (if ev.current is Some {
            ev.computed
        } else {
            "idle"@
        }),
        (call == "heat"@ || call == "cool"@) != rt.actuator_state,
        ev.remaining > 0,
        ev.now.ordinary(),
    ensures
        ({
            let after = recalculated(rt, true, ev);
            &&& after.actuator_state == rt.actuator_state
            &&& after.actuator_last_change == rt.actuator_last_change
            &&& after.pending_call == Some(call)
            &&& after.call_for == call
            &&& after.lockout_until matches Some(end) && end.nanos == ev.now.nanos && (ev.now.secs
                + ev.remaining <= 8_210_266_876_799 ==> end.secs == ev.now.secs + ev.remaining)
            &&& issued(rt, true, ev) is None
        }),
{
}

/// Seconds of a lockout beyond the signed range count backwards from its far
/// end, so that such a lockout is noted as one that is over.
pub proof fn a_lockout_beyond_the_signed_range_is_noted_as_over(
    rt: RuntimeView,
    ev: EvaluationView,
)
    requires
        rt.cfg.mode != "off"@,
        ev.current is Some,
        (ev.computed == "heat"@ || ev.computed == "cool"@) != rt.actuator_state,
        ev.remaining > 0x7FFF_FFFF_FFFF_FFFF,
        ev.now.ordinary(),
        ev.now.secs + ev.remaining - 0x1_0000_0000_0000_0000 >= -8_334_601_228_800,
    ensures
        recalculated(rt, true, ev).lockout_until matches Some(end) && end.secs == ev.now.secs
            + ev.remaining - 0x1_0000_0000_0000_0000,
{
    let secs = ev.remaining;
    assert((secs as i64) == secs - 0x1_0000_0000_0000_0000) by (bit_vector)
        requires
            secs > 0x7FFF_FFFF_FFFF_FFFFu64,
    ;
}

/// Where nothing of a lockout remains, the actuator of a thermostat with a
/// reading is switched on by a call for heating or cooling and off by any other,
/// at this point, and nothing is pending any more.
pub proof fn without_a_lockout_the_actuator_is_switched(
    rt: RuntimeView,
    ev: EvaluationView,
    call: Seq<char>,
)
    requires
        rt.cfg.mode != "off"@,
        call == (if ev.current is Some {
            ev.computed
        } else {
            "idle"@
        }),
        (call == "heat"@ || call == "cool"@) != rt.actuator_state,
        ev.remaining == 0,
    ensures
        ({
            let after = recalculated(rt, true, ev);
            &&& after.actuator_state == (call == "heat"@ || call == "cool"@)
            &&& after.actuator_last_change == Some(ev.now)
            &&& after.pending_call is None
            &&& after.lockout_until is None
            &&& after.call_for == call
            &&& issued(rt, true, ev) is Some <==> rt.cfg.actuator_device_id != ""@
        }),
{
    reveal_strlit("");
    if rt.cfg.actuator_device_id.len() == 0 {
        assert(rt.cfg.actuator_device_id =~= ""@);
    }
}

/// Where the actuator is already as the call wants it, it is left alone and
/// nothing is sent, lockout or not; a call that was pending is not any more.
pub proof fn what_is_as_it_should_be_is_left_alone(
    rt: RuntimeView,
    ev: EvaluationView,
    call: Seq<char>,
)
    requires
        rt.cfg.mode != "off"@,
        call == (if ev.current is Some {
            ev.computed
        } else {
            "idle"@
        }),
        (call == "heat"@ || call == "cool"@) == rt.actuator_state,
    ensures
        ({
            let after = recalculated(rt, true, ev);
            &&& after.actuator_state == rt.actuator_state
            &&& after.actuator_last_change == rt.actuator_last_change
            &&& after.pending_call is None
            &&& after.lockout_until is None
            &&& after.call_for == call
            &&& issued(rt, true, ev) is None
        }),
{
}

/// A thermostat that is off has its actuator off after any recalculation, with
/// a reading or without, and whatever remains of a lockout; nothing is pending.
/// An actuator that was on is switched at this point and told so, where it has a
/// device; one that was off is left alone.
pub proof fn off_means_off(rt: RuntimeView, read: bool, ev: EvaluationView)
    requires
        rt.cfg.mode == "off"@,
    ensures
        ({
            let after = recalculated(rt, read, ev);
            &&& !after.actuator_state
            &&& after.pending_call is None
            &&& after.lockout_until is None
            &&& rt.actuator_state ==> after.actuator_last_change == Some(ev.now)
            &&& rt.actuator_state ==> (issued(rt, read, ev) is Some
                <==> rt.cfg.actuator_device_id != ""@)
            &&& !rt.actuator_state ==> after.actuator_last_change == rt.actuator_last_change
            &&& !rt.actuator_state ==> issued(rt, read, ev) is None
        }),
{
    calls_differ();
    reveal_strlit("");
    if rt.cfg.actuator_device_id.len() == 0 {
        assert(rt.cfg.actuator_device_id =~= ""@);
    }
}

/// A command goes to the configured device. It is the configured command for the
/// state that the actuator is then in, exactly as it is configured; where none is
/// configured for that state it is the object with nothing but a `command`, "on"
/// or "off". The command for the other state plays no part.
pub proof fn the_actuator_is_told_its_state(rt: RuntimeView, read: bool, ev: EvaluationView)
    ensures
        issued(rt, read, ev) matches Some(sent) ==> {
            let after = recalculated(rt, read, ev);
            &&& sent.0 == rt.cfg.actuator_device_id
            &&& after.actuator_state && rt.cfg.actuator_on_cmd is Some ==> rt.cfg.actuator_on_cmd
                == Some(sent.1)
            &&& after.actuator_state && rt.cfg.actuator_on_cmd is None ==> sent.1
                == JsonNode::Object(map!["command"@ => JsonNode::Text("on"@)])
            &&& !after.actuator_state && rt.cfg.actuator_off_cmd is Some ==> rt.cfg.actuator_off_cmd
                == Some(sent.1)
            &&& !after.actuator_state && rt.cfg.actuator_off_cmd is None ==> sent.1
                == JsonNode::Object(map!["command"@ => JsonNode::Text("off"@)])
        },
{
}

/// Nothing is sent unless the actuator changes its state, and every change of an
/// actuator with a device is sent; an actuator that changes does so at this
/// point, and one that does not keeps the point of its last switch.
pub proof fn every_switch_is_sent_and_nothing_else(rt: RuntimeView, read: bool, ev: EvaluationView)
    ensures
        ({
            let after = recalculated(rt, read, ev);
            let sent = issued(rt, read, ev);
            &&& sent is Some <==> after.actuator_state != rt.actuator_state
                && rt.cfg.actuator_device_id != ""@
            &&& after.actuator_last_change == (if after.actuator_state != rt.actuator_state {
                Some(ev.now)
            } else {
                rt.actuator_last_change
            })
        }),
{
    reveal_strlit("");
    if rt.cfg.actuator_device_id.len() == 0 {
        assert(rt.cfg.actuator_device_id =~= ""@);
    }
}

/// A switch that a lockout deferred is made by the next recalculation that comes
/// to the same call when nothing of the lockout remains.
pub proof fn a_deferred_switch_is_made_up_for(
    rt: RuntimeView,
    during: EvaluationView,
    later: EvaluationView,
)
    requires
        rt.cfg.mode != "off"@,
        during.current is Some,
        later.current is Some,
        later.computed == during.computed,
        (during.computed == "heat"@ || during.computed == "cool"@) != rt.actuator_state,
        during.remaining > 0,
        later.remaining == 0,
    ensures
        ({
            let deferred = recalculated(rt, true, during);
            let after = recalculated(deferred, true, later);
            &&& deferred.actuator_state == rt.actuator_state
            &&& deferred.pending_call == Some(during.computed)
            &&& after.actuator_state == !rt.actuator_state
            &&& after.actuator_last_change == Some(later.now)
            &&& after.pending_call is None
            &&& issued(rt, true, during) is None
            &&& rt.cfg.actuator_device_id != ""@ ==> issued(deferred, true, later) is Some
        }),
{
    reveal_strlit("");
    if rt.cfg.actuator_device_id.len() == 0 {
        assert(rt.cfg.actuator_device_id =~= ""@);
    }
}

/// A recalculation asks nothing of the calendar but that a lockout which is to be
/// noted ends within it.
pub proof fn lockouts_that_end_in_the_calendar_fit(
    rt: RuntimeView,
    read: bool,
    ev: EvaluationView,
)
    requires
        ev.remaining == 0 || rt.cfg.mode == "off"@ || (!read) || (ev.now.secs
            >= -8_334_601_228_800 && ev.now.secs + ev.remaining <= 8_210_266_876_799),
    ensures
        lockout_fits(rt, read, ev),
{
    calls_differ();
}

/// What became of a command that was sent is all that is noted: the message of a
/// failure with the point at which it came, and nothing after a success.
pub proof fn outcomes_are_noted_as_they_are(
    rt: RuntimeView,
    error: Option<Seq<char>>,
    at: Timestamp,
)
    ensures
        ({
            let after = with_outcome(rt, error, at);
            &&& error matches Some(message) ==> (after.actuator_last_error matches Some(e)
                && e.message == message && e.timestamp == at)
            &&& error is None ==> after.actuator_last_error is None
            &&& RuntimeView { actuator_last_error: rt.actuator_last_error, ..after } == rt
        }),
{
}

/// A thermostat starts with its configuration, idle and off, knowing nothing and
/// having done nothing.
pub proof fn a_thermostat_starts_idle(cfg: EntryView)
    ensures
        ({
            let rt = fresh(cfg);
            &&& rt.cfg == cfg
            &&& rt.call_for == "idle"@
            &&& !rt.call_is_live
            &&& !rt.actuator_state
            &&& rt.current_temperature is None
            &&& rt.actuator_last_change is None
            &&& rt.pending_call is None
            &&& rt.lockout_until is None
            &&& rt.actuator_last_error is None
            &&& rt.wf()
        }),
{
}

/// What a retained message tells replaces what was not set since the start: the
/// last switch, the actuator's state and the call, each where it is told.
/// Everything else stays, and where the actuator has switched, all does.
pub proof fn retained_state_fills_in_what_is_not_set(rt: RuntimeView, told: RetainedView)
    ensures
        ({
            let after = restored(rt, told);
            &&& rt.actuator_last_change is Some ==> after == rt
            &&& rt.actuator_last_change is None ==> {
                &&& after.actuator_last_change == told.actuator_last_change
                &&& told.actuator_state matches Some(on) ==> after.actuator_state == on
                &&& told.actuator_state is None ==> after.actuator_state == rt.actuator_state
                &&& rt.call_is_live ==> after.call_for == rt.call_for
                &&& !rt.call_is_live ==> (told.call_for matches Some(call) ==> after.call_for
                    == call)
                &&& told.call_for is None ==> after.call_for == rt.call_for
            }
            &&& after.cfg == rt.cfg
            &&& after.current_temperature == rt.current_temperature
            &&& after.call_is_live == rt.call_is_live
            &&& after.pending_call == rt.pending_call
            &&& after.lockout_until == rt.lockout_until
            &&& after.actuator_last_error == rt.actuator_last_error
        }),
{
}

/// A retained message tells the actuator's state by the truth value under
/// `actuator_state` and the call by the string under `call_for`, where these
/// stand there, and no last switch where no string stands under
/// `actuator_last_change`.
pub proof fn retained_messages_are_read_by_their_members(n: JsonNode)
    ensures
        ({
            let told = retained_in(n);
            &&& forall|on: bool|
                told.actuator_state == Some(on) <==> n.member("actuator_state"@) == Some(
                    JsonNode::Bool(on),
                )
            &&& forall|call: Seq<char>|
                told.call_for == Some(call) <==> n.member("call_for"@) == Some(
                    JsonNode::Text(call),
                )
            &&& forall|s: Seq<char>|
                n.member("actuator_last_change"@) == Some(JsonNode::Text(s))
                    ==> told.actuator_last_change == rfc3339_instant(s)
            &&& !(n.member("actuator_last_change"@) matches Some(JsonNode::Text(_)))
                ==> told.actuator_last_change is None
        }),
{
}

} // verus!
