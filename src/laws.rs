use vstd::prelude::*;

use crate::backend::Backend;
use crate::output_log::{is_immediate_state, state_reachable, LogView, OutputLogState};
use crate::output_state::{
    add_log_post, engine_inv, lemma_fresh_entry_inv, lemma_request_inv, has_entry, has_running, ids_sorted, map_entry, release_post,
    render_pass, request_debounced, request_for_state, request_immediate, with_new_entry,
    EngineView, OutputState,
};

verus! {

/// Ids are handed out in strictly increasing order and never repeat, also
/// after compaction: every id issued so far lies below the next one.
pub proof fn law_monotonic_ids<B: Backend>(s: &OutputState<B>)
    requires
        s.wf(),
    ensures
        forall|a: int, b: int|
            0 <= a < b < s@.issued.len() ==> #[trigger] s@.issued[a] < #[trigger] s@.issued[b],
        forall|a: int| 0 <= a < s@.issued.len() ==> #[trigger] s@.issued[a] < s@.next_id,
{
}

/// `add_log` issues the next id, and the next id moves past it.
pub proof fn law_add_log_issues_next_id(v: EngineView, message: Seq<char>, state: OutputLogState)
    requires
        v.next_id < u64::MAX,
    ensures
        add_log_post(v, message, state).issued == v.issued.push(v.next_id),
        add_log_post(v, message, state).next_id == v.next_id + 1,
{
}

/// Across renders, the states shown for one entry follow the lifecycle: a
/// later snapshot never shows a state that cannot follow the earlier one, and
/// neither does the live registry.
pub proof fn law_observed_states_are_legal<B: Backend>(s: &OutputState<B>)
    requires
        s.wf(),
    ensures
        forall|i: int, a: int, j: int, b: int|
            0 <= i < j < s@.renders.len() && 0 <= a < s@.renders[i].len() && 0 <= b
                < s@.renders[j].len() && #[trigger] s@.renders[i][a].id
                == #[trigger] s@.renders[j][b].id ==> state_reachable(
                s@.renders[i][a].state,
                s@.renders[j][b].state,
            ),
        forall|i: int, a: int, k: int|
            0 <= i < s@.renders.len() && 0 <= a < s@.renders[i].len() && 0 <= k
                < s@.entries.len() && #[trigger] s@.renders[i][a].id == #[trigger] s@.entries[k].id
                ==> state_reachable(s@.renders[i][a].state, s@.entries[k].state),
{
}

/// Every snapshot lists its entries in insertion order, and an entry shown
/// in a state other than `Running` appears in no later snapshot.
pub proof fn law_render_order<B: Backend>(s: &OutputState<B>)
    requires
        s.wf(),
    ensures
        forall|i: int| 0 <= i < s@.renders.len() ==> ids_sorted(#[trigger] s@.renders[i]),
        forall|i: int, a: int, j: int, b: int|
            0 <= i < j < s@.renders.len() && 0 <= a < s@.renders[i].len() && 0 <= b
                < s@.renders[j].len() && s@.renders[i][a].state != OutputLogState::Running
                ==> #[trigger] s@.renders[i][a].id != #[trigger] s@.renders[j][b].id,
{
}

/// A job that is started and then released without a terminal call ends as
/// `Incomplete`: unpaused, the release renders it so at once and drops it
/// from the registry; paused, the registry holds it as `Incomplete`.
pub proof fn law_drop_implies_incomplete(v: EngineView, message: Seq<char>)
    requires
        engine_inv(v),
        v.next_id < u64::MAX,
    ensures
        ({
            let id = v.next_id;
            let w = release_post(add_log_post(v, message, OutputLogState::Running), id);
            &&& !v.paused && v.has_backend ==> exists|a: int|
                0 <= a < w.renders.last().len() && #[trigger] w.renders.last()[a].id == id
                    && w.renders.last()[a].state == OutputLogState::Incomplete
            &&& !v.paused ==> !has_entry(w, id)
            &&& v.paused ==> exists|k: int|
                0 <= k < w.entries.len() && #[trigger] w.entries[k].id == id
                    && w.entries[k].state == OutputLogState::Incomplete
        }),
{
    let id = v.next_id;
    let v1 = add_log_post(v, message, OutputLogState::Running);
    let v0 = with_new_entry(v, message, OutputLogState::Running);
    let last = v0.entries.len() - 1;
    assert(v0.entries[last].id == id);
    lemma_fresh_entry_inv(v, message, OutputLogState::Running);
    lemma_request_inv(v0, OutputLogState::Running);
    lemma_request_keeps_running(v0, last);
    assert(has_running(v1, id));
    law_release_of_running_job(v1, id);
}

/// Releasing an entry that is already finished, or no longer in the
/// registry, changes nothing and renders nothing.
pub proof fn law_release_of_finished_entry_is_noop(v: EngineView, id: u64)
    requires
        !has_running(v, id),
    ensures
        release_post(v, id) == v,
{
}

/// A message, a completion or a failure is rendered before the operation
/// returns when the engine is not paused, whatever the debounce state.
pub proof fn law_immediate_states_render_at_once(v: EngineView, s: OutputLogState)
    requires
        is_immediate_state(s),
        !v.paused,
        v.has_backend,
    ensures
        request_for_state(v, s).renders == v.renders.push(v.entries),
        !request_for_state(v, s).changed,
{
}

/// While paused, no operation renders: neither a render request nor a render
/// pass reaches the backend, and changes stay pending.
pub proof fn law_pause_suppresses_renders(v: EngineView, s: OutputLogState, message: Seq<char>, id: u64)
    requires
        v.paused,
    ensures
        render_pass(v) == v,
        request_immediate(v).renders == v.renders,
        request_debounced(v).renders == v.renders,
        request_for_state(v, s).renders == v.renders,
        request_for_state(v, s).changed,
        add_log_post(v, message, s).renders == v.renders,
        release_post(v, id).renders == v.renders,
{
}

/// Unpausing with pending changes renders exactly once, showing the latest
/// state of the registry; with none pending it renders nothing.
pub proof fn law_unpause_renders_once(v: EngineView)
    ensures
        v.changed && v.has_backend ==> render_pass(EngineView { paused: false, ..v }).renders
            == v.renders.push(v.entries),
        !v.changed ==> render_pass(EngineView { paused: false, ..v }).renders == v.renders,
        !render_pass(EngineView { paused: false, ..v }).changed,
{
}

/// A running entry survives any render request.
proof fn lemma_request_keeps_running(v: EngineView, k: int)
    requires
        ids_sorted(v.entries),
        0 <= k < v.entries.len(),
        v.entries[k].state == OutputLogState::Running,
    ensures
        forall|s: OutputLogState| has_running(#[trigger] request_for_state(v, s), v.entries[k].id),
{
    lemma_running_only_keeps(v.entries, k);
    let r = crate::output_state::running_only(v.entries);
    let j = choose|j: int| 0 <= j < r.len() && r[j] == v.entries[k];
    assert forall|s: OutputLogState| has_running(#[trigger] request_for_state(v, s), v.entries[k].id) by {
        let w = request_for_state(v, s);
        if w.entries == v.entries {
            assert(w.entries[k] == v.entries[k]);
        } else {
            assert(w.entries == r);
            assert(w.entries[j] == v.entries[k]);
        }
    }
}

proof fn lemma_running_only_keeps(s: Seq<LogView>, k: int)
    requires
        0 <= k < s.len(),
        s[k].state == OutputLogState::Running,
    ensures
        crate::output_state::running_only(s).contains(s[k]),
    decreases s.len(),
{
    let rest = s.drop_last();
    if k < s.len() - 1 {
        lemma_running_only_keeps(rest, k);
        assert(rest[k] == s[k]);
        let r = crate::output_state::running_only(rest);
        let j = choose|j: int| 0 <= j < r.len() && r[j] == s[k];
        if s.last().state == OutputLogState::Running {
            assert(r.push(s.last())[j] == s[k]);
        }
    } else {
        let r = crate::output_state::running_only(rest);
        assert(r.push(s.last())[r.len() as int] == s[k]);
    }
}

/// Releasing a running job, however it was updated before, ends it as
/// `Incomplete`: unpaused, rendered so at once and then dropped; paused, held
/// as `Incomplete` in the registry.
pub proof fn law_release_of_running_job(v: EngineView, id: u64)
    requires
        engine_inv(v),
        has_running(v, id),
    ensures
        ({
            let w = release_post(v, id);
            &&& !v.paused && v.has_backend ==> exists|a: int|
                0 <= a < w.renders.last().len() && #[trigger] w.renders.last()[a].id == id
                    && w.renders.last()[a].state == OutputLogState::Incomplete
            &&& !v.paused ==> !has_entry(w, id)
            &&& v.paused ==> exists|k: int|
                0 <= k < w.entries.len() && #[trigger] w.entries[k].id == id
                    && w.entries[k].state == OutputLogState::Incomplete
        }),
{
    let k = choose|k: int|
        0 <= k < v.entries.len() && #[trigger] v.entries[k].id == id && v.entries[k].state
            == OutputLogState::Running;
    let f = |e: LogView| LogView { state: OutputLogState::Incomplete, ..e };
    let m = map_entry(v, id, f);
    assert(has_entry(v, id));
    assert(m.entries[k].id == id && m.entries[k].state == OutputLogState::Incomplete);
    let w = release_post(v, id);
    assert(w == request_immediate(m));
    assert forall|j: int| 0 <= j < m.entries.len() && #[trigger] m.entries[j].id == id implies m.entries[j].state
        != OutputLogState::Running by {
        assert(m.entries[j] == f(v.entries[j]));
    }
    if !v.paused {
        assert(w.entries == crate::output_state::running_only(m.entries));
        lemma_running_only_drops(m.entries, id);
        if v.has_backend {
            assert(w.renders.last() == m.entries);
            assert(w.renders.last()[k] == m.entries[k]);
        }
    } else {
        assert(w.entries == m.entries);
        assert(w.entries[k] == m.entries[k]);
    }
}

/// An id whose every entry has stopped running is not among the running ones.
proof fn lemma_running_only_drops(s: Seq<LogView>, id: u64)
    requires
        forall|k: int| 0 <= k < s.len() && #[trigger] s[k].id == id ==> s[k].state
            != OutputLogState::Running,
    ensures
        forall|j: int|
            0 <= j < crate::output_state::running_only(s).len() ==> (#[trigger] crate::output_state::running_only(s)[j]).id
                != id,
    decreases s.len(),
{
    if s.len() > 0 {
        let rest = s.drop_last();
        assert forall|k: int| 0 <= k < rest.len() && #[trigger] rest[k].id == id implies rest[k].state
            != OutputLogState::Running by {
            assert(rest[k] == s[k]);
        }
        lemma_running_only_drops(rest, id);
        let r = crate::output_state::running_only(rest);
        if s.last().state == OutputLogState::Running {
            assert(s[s.len() - 1] == s.last());
            assert forall|j: int| 0 <= j < r.push(s.last()).len() implies (#[trigger] r.push(s.last())[j]).id
                != id by {
                if j < r.len() {
                    assert(r.push(s.last())[j] == r[j]);
                }
            }
        }
    }
}

} // verus!
