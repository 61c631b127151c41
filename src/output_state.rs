use vstd::prelude::*;

use crate::backend::Backend;
use crate::output_log::{is_immediate_state, LogView, OutputLogInternal, OutputLogState};

verus! {

/// The mathematical state of an engine.
///
/// `entries` is the live registry in insertion order; `issued` lists every id
/// handed out so far, and `renders` every snapshot given to the backend.
pub struct EngineView {
    pub entries: Seq<LogView>,
    pub next_id: u64,
    pub issued: Seq<u64>,
    pub renders: Seq<Seq<LogView>>,
    pub paused: bool,
    pub changed: bool,
    pub synchronous: bool,
    pub has_backend: bool,
}

/// Ids strictly increase along the sequence.
pub open spec fn ids_sorted(s: Seq<LogView>) -> bool {
    forall|a: int, b: int| 0 <= a < b < s.len() ==> #[trigger] s[a].id < #[trigger] s[b].id
}

/// The entries that are still running, in their order.
pub open spec fn running_only(s: Seq<LogView>) -> Seq<LogView>
    decreases s.len(),
{
    if s.len() == 0 {
        s
    } else {
        let rest = running_only(s.drop_last());
        if s.last().state == OutputLogState::Running {
            rest.push(s.last())
        } else {
            rest
        }
    }
}

/// The registry holds a running entry with this id.
pub open spec fn has_running(v: EngineView, id: u64) -> bool {
    exists|k: int|
        0 <= k < v.entries.len() && #[trigger] v.entries[k].id == id && v.entries[k].state
            == OutputLogState::Running
}

/// The registry holds an entry with this id.
pub open spec fn has_entry(v: EngineView, id: u64) -> bool {
    exists|k: int| 0 <= k < v.entries.len() && #[trigger] v.entries[k].id == id
}

/// Applies `f` to the entry with this id, leaving the others as they are.
pub open spec fn map_entry(v: EngineView, id: u64, f: spec_fn(LogView) -> LogView) -> EngineView {
    EngineView {
        entries: v.entries.map_values(|e: LogView| if e.id == id { f(e) } else { e }),
        ..v
    }
}

/// One render pass: when there are unrendered changes and the engine is not
/// paused, the backend (if any) sees the registry, and every entry that is no
/// longer running is dropped.
pub open spec fn render_pass(v: EngineView) -> EngineView {
    if !v.changed || v.paused {
        v
    } else {
        EngineView {
            entries: running_only(v.entries),
            renders: if v.has_backend {
                v.renders.push(v.entries)
            } else {
                v.renders
            },
            changed: false,
            ..v
        }
    }
}

/// A request for an immediate render.
pub open spec fn request_immediate(v: EngineView) -> EngineView {
    render_pass(EngineView { changed: true, ..v })
}

/// A request for a debounced render: left to the scheduler unless the
/// backend is synchronous.
pub open spec fn request_debounced(v: EngineView) -> EngineView {
    if v.synchronous {
        request_immediate(v)
    } else {
        EngineView { changed: true, ..v }
    }
}

/// The render request that a change into state `s` makes.
pub open spec fn request_for_state(v: EngineView, s: OutputLogState) -> EngineView {
    if is_immediate_state(s) {
        request_immediate(v)
    } else {
        request_debounced(v)
    }
}

/// The registry with one new entry appended under the next id.
pub open spec fn with_new_entry(v: EngineView, message: Seq<char>, state: OutputLogState) -> EngineView {
    EngineView {
        entries: v.entries.push(
            LogView { id: v.next_id, message, numerator: 0, denominator: 0, tick: 0, state },
        ),
        next_id: (v.next_id + 1) as u64,
        issued: v.issued.push(v.next_id),
        ..v
    }
}

/// The state after `add_log(message, state)`.
pub open spec fn add_log_post(v: EngineView, message: Seq<char>, state: OutputLogState) -> EngineView {
    request_for_state(with_new_entry(v, message, state), state)
}

/// The state after `release(id)`, the implicit end of a job whose handle is
/// dropped: a running entry becomes incomplete and is rendered at once; an
/// entry that is already finished, or absent, is left alone.
pub open spec fn release_post(v: EngineView, id: u64) -> EngineView {
    if has_running(v, id) {
        request_for_state(
            map_entry(v, id, |e: LogView| LogView { state: OutputLogState::Incomplete, ..e }),
            OutputLogState::Incomplete,
        )
    } else {
        v
    }
}

/// The invariant of an engine: ids are issued in increasing order and stay
/// unique; every snapshot lists entries in insertion order; and an entry that
/// was shown in a state other than `Running` never shows up again.
pub open spec fn engine_inv(v: EngineView) -> bool {
    &&& ids_sorted(v.entries)
    &&& forall|k: int| 0 <= k < v.entries.len() ==> #[trigger] v.entries[k].id < v.next_id
    &&& forall|a: int, b: int|
        0 <= a < b < v.issued.len() ==> #[trigger] v.issued[a] < #[trigger] v.issued[b]
    &&& forall|a: int| 0 <= a < v.issued.len() ==> #[trigger] v.issued[a] < v.next_id
    &&& forall|i: int| 0 <= i < v.renders.len() ==> ids_sorted(#[trigger] v.renders[i])
    &&& forall|i: int, a: int|
        0 <= i < v.renders.len() && 0 <= a < v.renders[i].len() ==> #[trigger] v.renders[i][a].id
            < v.next_id
    &&& forall|i: int, a: int, j: int, b: int|
        0 <= i < j < v.renders.len() && 0 <= a < v.renders[i].len() && 0 <= b
            < v.renders[j].len() && #[trigger] v.renders[i][a].id == #[trigger] v.renders[j][b].id
            ==> v.renders[i][a].state == OutputLogState::Running
    &&& forall|i: int, a: int, k: int|
        0 <= i < v.renders.len() && 0 <= a < v.renders[i].len() && 0 <= k < v.entries.len()
            && #[trigger] v.renders[i][a].id == #[trigger] v.entries[k].id
            ==> v.renders[i][a].state == OutputLogState::Running
}

/// The output state engine: an ordered registry of log entries, an optional
/// rendering backend, and the pause and pending-change flags.
pub struct OutputState<B: Backend> {
    backend: Option<B>,
    synchronous: bool,
    logs: Vec<OutputLogInternal>,
    next_log_id: u64,
    paused: bool,
    changed: bool,
    issued: Ghost<Seq<u64>>,
    renders: Ghost<Seq<Seq<LogView>>>,
}

impl<B: Backend> View for OutputState<B> {
    type V = EngineView;

    closed spec fn view(&self) -> EngineView {
        EngineView {
            entries: self.logs@.map_values(|l: OutputLogInternal| l@),
            next_id: self.next_log_id,
            issued: self.issued@,
            renders: self.renders@,
            paused: self.paused,
            changed: self.changed,
            synchronous: self.synchronous,
            has_backend: self.backend.is_some(),
        }
    }
}

/// What survives compaction is running, comes from the registry, and keeps
/// its order.
proof fn lemma_running_only(s: Seq<LogView>)
    ensures
        forall|k: int|
            0 <= k < running_only(s).len() ==> (#[trigger] running_only(s)[k]).state
                == OutputLogState::Running && s.contains(running_only(s)[k]),
        ids_sorted(s) ==> ids_sorted(running_only(s)),
        running_only(s).len() <= s.len(),
    decreases s.len(),
{
    if s.len() > 0 {
        let rest = s.drop_last();
        lemma_running_only(rest);
        let r = running_only(rest);
        assert forall|k: int| 0 <= k < r.len() implies s.contains(#[trigger] r[k]) by {
            let j = choose|j: int| 0 <= j < rest.len() && rest[j] == r[k];
            assert(s[j] == r[k]);
        }
        assert(s.contains(s.last())) by {
            assert(s[s.len() - 1] == s.last());
        }
        if ids_sorted(s) {
            assert forall|k: int| 0 <= k < r.len() implies #[trigger] r[k].id < s.last().id by {
                let j = choose|j: int| 0 <= j < rest.len() && rest[j] == r[k];
                assert(s[j] == r[k]);
            }
        }
    }
}

/// Two entries of a sorted registry with the same id are the same entry.
proof fn lemma_sorted_unique(s: Seq<LogView>, a: int, b: int)
    requires
        ids_sorted(s),
        0 <= a < s.len(),
        0 <= b < s.len(),
        s[a].id == s[b].id,
    ensures
        a == b,
{
    if a < b {
        assert(s[a].id < s[b].id);
    } else if b < a {
        assert(s[b].id < s[a].id);
    }
}

/// A render pass keeps the invariant: the new snapshot is the registry, and
/// what it showed in a final state is dropped from the registry.
proof fn lemma_render_pass_inv(v: EngineView)
    requires
        engine_inv(v),
    ensures
        engine_inv(render_pass(v)),
{
    if v.changed && !v.paused {
        let w = render_pass(v);
        lemma_running_only(v.entries);
        let r = running_only(v.entries);
        assert forall|k: int| 0 <= k < w.entries.len() implies #[trigger] w.entries[k].id
            < w.next_id by {
            let j = choose|j: int| 0 <= j < v.entries.len() && v.entries[j] == r[k];
        }
        assert forall|i: int, a: int, k: int|
            0 <= i < w.renders.len() && 0 <= a < w.renders[i].len() && 0 <= k < w.entries.len()
                && #[trigger] w.renders[i][a].id == #[trigger] w.entries[k].id implies w.renders[i][a].state
            == OutputLogState::Running by {
            let j = choose|j: int| 0 <= j < v.entries.len() && v.entries[j] == r[k];
            assert(v.entries[j] == w.entries[k]);
            if i == v.renders.len() {
                lemma_sorted_unique(v.entries, a, j);
            } else {
                assert(v.renders[i] == w.renders[i]);
            }
        }
        if v.has_backend {
            assert forall|i: int, a: int|
                0 <= i < w.renders.len() && 0 <= a < w.renders[i].len() implies #[trigger] w.renders[i][a].id
                < w.next_id by {
                if i < v.renders.len() {
                    assert(v.renders[i] == w.renders[i]);
                }
            }
            assert forall|i: int, a: int, j: int, b: int|
                0 <= i < j < w.renders.len() && 0 <= a < w.renders[i].len() && 0 <= b
                    < w.renders[j].len() && #[trigger] w.renders[i][a].id
                    == #[trigger] w.renders[j][b].id implies w.renders[i][a].state
                == OutputLogState::Running by {
                assert(v.renders[i] == w.renders[i]);
                if j < v.renders.len() {
                    assert(v.renders[j] == w.renders[j]);
                }
            }
            assert forall|i: int| 0 <= i < w.renders.len() implies ids_sorted(
                #[trigger] w.renders[i],
            ) by {
                if i < v.renders.len() {
                    assert(v.renders[i] == w.renders[i]);
                }
            }
        }
    }
}

pub(crate) proof fn lemma_request_inv(v: EngineView, s: OutputLogState)
    requires
        engine_inv(v),
    ensures
        engine_inv(request_immediate(v)),
        engine_inv(request_debounced(v)),
        engine_inv(request_for_state(v, s)),
{
    lemma_render_pass_inv(EngineView { changed: true, ..v });
}

/// Changing fields of one entry, but not its id, keeps the invariant.
proof fn lemma_map_entry_inv(v: EngineView, id: u64, f: spec_fn(LogView) -> LogView)
    requires
        engine_inv(v),
        forall|e: LogView| #[trigger] f(e).id == e.id,
    ensures
        engine_inv(map_entry(v, id, f)),
{
    let w = map_entry(v, id, f);
    assert forall|k: int| 0 <= k < w.entries.len() implies #[trigger] w.entries[k].id
        == v.entries[k].id by {
        if v.entries[k].id == id {
            assert(f(v.entries[k]).id == v.entries[k].id);
        }
    }
    assert forall|i: int, a: int, k: int|
        0 <= i < w.renders.len() && 0 <= a < w.renders[i].len() && 0 <= k < w.entries.len()
            && #[trigger] w.renders[i][a].id == #[trigger] w.entries[k].id implies w.renders[i][a].state
        == OutputLogState::Running by {
        assert(w.entries[k].id == v.entries[k].id);
    }
    assert forall|a: int, b: int| 0 <= a < b < w.entries.len() implies #[trigger] w.entries[a].id
        < #[trigger] w.entries[b].id by {
        assert(w.entries[a].id == v.entries[a].id);
        assert(w.entries[b].id == v.entries[b].id);
    }
}

/// Writing `f` of the entry at position `i`, the one with this id, is
/// `map_entry`, and keeps the invariant.
proof fn lemma_write_entry(v0: EngineView, v1: EngineView, i: int, id: u64, f: spec_fn(LogView) -> LogView)
    requires
        engine_inv(v0),
        0 <= i < v0.entries.len(),
        v0.entries[i].id == id,
        forall|e: LogView| #[trigger] f(e).id == e.id,
        v1 == (EngineView { entries: v0.entries.update(i, f(v0.entries[i])), ..v0 }),
    ensures
        v1 == map_entry(v0, id, f),
        engine_inv(v1),
{
    let w = map_entry(v0, id, f);
    assert forall|k: int| 0 <= k < v1.entries.len() implies v1.entries[k] == w.entries[k] by {
        if k != i && v0.entries[k].id == id {
            lemma_sorted_unique(v0.entries, k, i);
        }
    }
    assert(v1.entries =~= w.entries);
    lemma_map_entry_inv(v0, id, f);
}

/// Appending an entry under the next id keeps the invariant.
pub(crate) proof fn lemma_fresh_entry_inv(v: EngineView, message: Seq<char>, state: OutputLogState)
    requires
        engine_inv(v),
        v.next_id < u64::MAX,
    ensures
        engine_inv(with_new_entry(v, message, state)),
{
    let v1 = with_new_entry(v, message, state);
    assert forall|k: int| 0 <= k < v1.entries.len() implies #[trigger] v1.entries[k].id
        < v1.next_id by {
        if k < v.entries.len() {
            assert(v1.entries[k] == v.entries[k]);
        }
    }
    assert forall|a: int, b: int| 0 <= a < b < v1.entries.len() implies #[trigger] v1.entries[a].id
        < #[trigger] v1.entries[b].id by {
        assert(v1.entries[a] == v.entries[a]);
        if b < v.entries.len() {
            assert(v1.entries[b] == v.entries[b]);
        }
    }
    assert forall|a: int, b: int| 0 <= a < b < v1.issued.len() implies #[trigger] v1.issued[a]
        < #[trigger] v1.issued[b] by {
        assert(v1.issued[a] == v.issued[a]);
        if b < v.issued.len() {
            assert(v1.issued[b] == v.issued[b]);
        }
    }
    assert forall|a: int| 0 <= a < v1.issued.len() implies #[trigger] v1.issued[a]
        < v1.next_id by {
        if a < v.issued.len() {
            assert(v1.issued[a] == v.issued[a]);
        }
    }
    assert forall|i: int, a: int, k: int|
        0 <= i < v1.renders.len() && 0 <= a < v1.renders[i].len() && 0 <= k < v1.entries.len()
            && #[trigger] v1.renders[i][a].id == #[trigger] v1.entries[k].id implies v1.renders[i][a].state
        == OutputLogState::Running by {
        if k < v.entries.len() {
            assert(v1.entries[k] == v.entries[k]);
        }
    }
}

impl<B: Backend> OutputState<B> {
    /// The engine's invariant holds.
    pub open spec fn wf(&self) -> bool {
        engine_inv(self@)
    }

    /// An engine with an empty registry, unpaused, with no pending change.
    /// Without a backend every render request is carried out at once.
    pub fn new(backend: Option<B>) -> (r: Self)
        ensures
            r.wf(),
            r@.entries == Seq::<LogView>::empty(),
            r@.next_id == 0,
            r@.issued == Seq::<u64>::empty(),
            r@.renders == Seq::<Seq<LogView>>::empty(),
            !r@.paused,
            !r@.changed,
            r@.has_backend == backend.is_some(),
            r@.synchronous == match backend {
                Some(b) => b.wants_synchronous(),
                None => true,
            },
    {
        let synchronous = match &backend {
            Some(b) => b.synchronous(),
            None => true,
        };
        let r = OutputState {
            backend,
            synchronous,
            logs: Vec::new(),
            next_log_id: 0,
            paused: false,
            changed: false,
            issued: Ghost(Seq::empty()),
            renders: Ghost(Seq::empty()),
        };
        assert(r@.entries =~= Seq::<LogView>::empty());
        r
    }

    /// The backend this engine renders to.
    pub fn backend(&self) -> (r: &Option<B>)
        ensures
            r.is_some() == self@.has_backend,
    {
        &self.backend
    }

    /// The live registry, in insertion order.
    pub fn logs(&self) -> (r: &[OutputLogInternal])
        ensures
            r@.map_values(|l: OutputLogInternal| l@) == self@.entries,
    {
        self.logs.as_slice()
    }

    /// Every render request is carried out at once.
    pub fn is_synchronous(&self) -> (r: bool)
        ensures
            r == self@.synchronous,
    {
        self.synchronous
    }

    /// The engine is paused.
    pub fn is_paused(&self) -> (r: bool)
        ensures
            r == self@.paused,
    {
        self.paused
    }

    /// Changes are pending that no render has shown yet.
    pub fn is_changed(&self) -> (r: bool)
        ensures
            r == self@.changed,
    {
        self.changed
    }

    /// The next id that `add_log` will hand out.
    pub fn next_log_id(&self) -> (r: u64)
        ensures
            r == self@.next_id,
    {
        self.next_log_id
    }

    /// Appends a new entry under the next id and makes the render request of
    /// its state; returns the new id.
    pub fn add_log(&mut self, message: String, state: OutputLogState) -> (r: u64)
        requires
            old(self).wf(),
            old(self)@.next_id < u64::MAX,
        ensures
            final(self).wf(),
            r == old(self)@.next_id,
            final(self)@ == add_log_post(old(self)@, message@, state),
    {
        let log_id = self.next_log_id;
        let ghost v0 = self@;
        let log_internal = OutputLogInternal::new(log_id, message, state);
        self.logs.push(log_internal);
        self.next_log_id = self.next_log_id + 1;
        proof {
            self.issued@ = self.issued@.push(log_id);
            let v1 = with_new_entry(v0, message@, state);
            assert(self@.entries =~= v1.entries);
            assert(self@ == v1);
            lemma_fresh_entry_inv(v0, message@, state);
        }
        self.update_backend_auto(state);
        log_id
    }

    /// The position of the entry with this id, if the registry holds one.
    fn find_log(&self, log_id: u64) -> (r: Option<usize>)
        requires
            self.wf(),
        ensures
            match r {
                Some(i) => i < self@.entries.len() && self@.entries[i as int].id == log_id,
                None => !has_entry(self@, log_id),
            },
    {
        let mut i: usize = 0;
        while i < self.logs.len()
            invariant
                i <= self.logs@.len(),
                self@.entries.len() == self.logs@.len(),
                forall|k: int| 0 <= k < i ==> #[trigger] self@.entries[k].id != log_id,
            decreases self.logs@.len() - i,
        {
            if self.logs[i].log_id == log_id {
                assert(self@.entries[i as int] == self.logs@[i as int]@);
                return Some(i);
            }
            assert(self@.entries[i as int] == self.logs@[i as int]@);
            i = i + 1;
        }
        None
    }

    /// The entry with this id, if the registry holds one.
    pub fn get_log_internal(&self, log_id: u64) -> (r: Option<&OutputLogInternal>)
        requires
            self.wf(),
        ensures
            match r {
                Some(l) => l@.id == log_id && self@.entries.contains(l@),
                None => !has_entry(self@, log_id),
            },
    {
        match self.find_log(log_id) {
            Some(i) => {
                assert(self@.entries[i as int] == self.logs@[i as int]@);
                Some(&self.logs[i])
            },
            None => None,
        }
    }

    /// The position of the entry with this id, which the registry holds.
    fn position_of(&self, log_id: u64) -> (r: usize)
        requires
            self.wf(),
            has_entry(self@, log_id),
        ensures
            r < self@.entries.len(),
            self@.entries[r as int].id == log_id,
    {
        match self.find_log(log_id) {
            Some(i) => i,
            None => {
                assert(false);
                0
            },
        }
    }

    /// Sets the progress fraction of a running job and requests a debounced
    /// render.
    pub fn progress(&mut self, log_id: u64, numerator: u64, denominator: u64)
        requires
            old(self).wf(),
            has_running(old(self)@, log_id),
        ensures
            final(self).wf(),
            final(self)@ == request_debounced(
                map_entry(
                    old(self)@,
                    log_id,
                    |e: LogView| LogView { numerator, denominator, ..e },
                ),
            ),
    {
        let ghost v0 = self@;
        let ghost f = |e: LogView| LogView { numerator, denominator, ..e };
        let i = self.position_of(log_id);
        self.logs[i].numerator = numerator;
        self.logs[i].denominator = denominator;
        proof {
            assert(self@.entries =~= v0.entries.update(i as int, f(v0.entries[i as int])));
            lemma_write_entry(v0, self@, i as int, log_id, f);
        }
        self.update_backend_asynchronous();
    }

    /// Advances the tick counter of a running job and requests a debounced
    /// render.
    pub fn tick(&mut self, log_id: u64)
        requires
            old(self).wf(),
            has_running(old(self)@, log_id),
            forall|k: int|
                0 <= k < old(self)@.entries.len() && #[trigger] old(self)@.entries[k].id == log_id
                    ==> old(self)@.entries[k].tick < u64::MAX,
        ensures
            final(self).wf(),
            final(self)@ == request_debounced(
                map_entry(
                    old(self)@,
                    log_id,
                    |e: LogView| LogView { tick: (e.tick + 1) as u64, ..e },
                ),
            ),
    {
        let ghost v0 = self@;
        let ghost f = |e: LogView| LogView { tick: (e.tick + 1) as u64, ..e };
        let i = self.position_of(log_id);
        let t = self.logs[i].tick;
        assert(v0.entries[i as int].tick == t);
        self.logs[i].tick = t + 1;
        proof {
            assert(self@.entries =~= v0.entries.update(i as int, f(v0.entries[i as int])));
            lemma_write_entry(v0, self@, i as int, log_id, f);
        }
        self.update_backend_asynchronous();
    }

    /// Replaces the text of a running job; the render request is that of
    /// its state, `Running`.
    pub fn update(&mut self, log_id: u64, message: String)
        requires
            old(self).wf(),
            has_running(old(self)@, log_id),
        ensures
            final(self).wf(),
            final(self)@ == request_for_state(
                map_entry(old(self)@, log_id, |e: LogView| LogView { message: message@, ..e }),
                OutputLogState::Running,
            ),
    {
        let ghost v0 = self@;
        let ghost f = |e: LogView| LogView { message: message@, ..e };
        let i = self.position_of(log_id);
        self.logs[i].message = message;
        proof {
            assert(self@.entries =~= v0.entries.update(i as int, f(v0.entries[i as int])));
            lemma_write_entry(v0, self@, i as int, log_id, f);
        }
        self.update_backend_auto(OutputLogState::Running);
    }

    /// Moves a running job into `state`.
    fn finish_job(&mut self, log_id: u64, state: OutputLogState)
        requires
            old(self).wf(),
            has_running(old(self)@, log_id),
        ensures
            final(self).wf(),
            final(self)@ == map_entry(old(self)@, log_id, |e: LogView| LogView { state, ..e }),
    {
        let ghost v0 = self@;
        let ghost f = |e: LogView| LogView { state, ..e };
        let i = self.position_of(log_id);
        self.logs[i].state = state;
        proof {
            assert(self@.entries =~= v0.entries.update(i as int, f(v0.entries[i as int])));
            lemma_write_entry(v0, self@, i as int, log_id, f);
        }
    }

    /// Removes a running job from the display, with no outcome shown, and
    /// requests a debounced render.
    pub fn remove(&mut self, log_id: u64)
        requires
            old(self).wf(),
            has_running(old(self)@, log_id),
        ensures
            final(self).wf(),
            final(self)@ == request_debounced(
                map_entry(
                    old(self)@,
                    log_id,
                    |e: LogView| LogView { state: OutputLogState::Removed, ..e },
                ),
            ),
    {
        self.finish_job(log_id, OutputLogState::Removed);
        self.update_backend_asynchronous();
    }

    /// Marks a running job as done and renders at once.
    pub fn complete(&mut self, log_id: u64)
        requires
            old(self).wf(),
            has_running(old(self)@, log_id),
        ensures
            final(self).wf(),
            final(self)@ == request_immediate(
                map_entry(
                    old(self)@,
                    log_id,
                    |e: LogView| LogView { state: OutputLogState::Complete, ..e },
                ),
            ),
    {
        self.finish_job(log_id, OutputLogState::Complete);
        self.update_backend_auto(OutputLogState::Complete);
    }

    /// Marks a running job as failed and renders at once.
    pub fn incomplete(&mut self, log_id: u64)
        requires
            old(self).wf(),
            has_running(old(self)@, log_id),
        ensures
            final(self).wf(),
            final(self)@ == request_immediate(
                map_entry(
                    old(self)@,
                    log_id,
                    |e: LogView| LogView { state: OutputLogState::Incomplete, ..e },
                ),
            ),
    {
        self.finish_job(log_id, OutputLogState::Incomplete);
        self.update_backend_auto(OutputLogState::Incomplete);
    }

    /// Turns a running job or a message into a message with new text, and
    /// renders at once.
    pub fn replace(&mut self, log_id: u64, message: String)
        requires
            old(self).wf(),
            exists|k: int|
                0 <= k < old(self)@.entries.len() && #[trigger] old(self)@.entries[k].id == log_id
                    && (old(self)@.entries[k].state == OutputLogState::Running
                    || old(self)@.entries[k].state == OutputLogState::Message),
        ensures
            final(self).wf(),
            final(self)@ == request_immediate(
                map_entry(
                    old(self)@,
                    log_id,
                    |e: LogView| LogView { state: OutputLogState::Message, message: message@, ..e },
                ),
            ),
    {
        let ghost v0 = self@;
        let ghost f = |e: LogView| LogView { state: OutputLogState::Message, message: message@, ..e };
        let i = self.position_of(log_id);
        self.logs[i].state = OutputLogState::Message;
        self.logs[i].message = message;
        proof {
            assert(self@.entries =~= v0.entries.update(i as int, f(v0.entries[i as int])));
            lemma_write_entry(v0, self@, i as int, log_id, f);
        }
        self.update_backend_auto(OutputLogState::Message);
    }

    /// What happens when the handle of an entry goes away: a job still
    /// running becomes incomplete and is rendered at once; an entry that is
    /// already finished, or no longer in the registry, is left alone.
    pub fn release(&mut self, log_id: u64)
        requires
            old(self).wf(),
        ensures
            final(self).wf(),
            final(self)@ == release_post(old(self)@, log_id),
    {
        match self.find_log(log_id) {
            Some(i) => {
                let ghost v0 = self@;
                let state = self.logs[i].state;
                assert(v0.entries[i as int].state == state);
                if state == OutputLogState::Running {
                    self.finish_job(log_id, OutputLogState::Incomplete);
                    self.update_backend_auto(OutputLogState::Incomplete);
                } else {
                    proof {
                        if has_running(v0, log_id) {
                            let j = choose|j: int|
                                0 <= j < v0.entries.len() && #[trigger] v0.entries[j].id == log_id
                                    && v0.entries[j].state == OutputLogState::Running;
                            lemma_sorted_unique(v0.entries, j, i as int);
                        }
                    }
                }
            },
            None => {
                assert(!has_running(self@, log_id));
            },
        }
    }

    /// Makes the render request that a change into state `state` calls for:
    /// immediate for messages and final outcomes, debounced otherwise.
    pub fn update_backend_auto(&mut self, state: OutputLogState)
        requires
            old(self).wf(),
        ensures
            final(self).wf(),
            final(self)@ == request_for_state(old(self)@, state),
    {
        if state == OutputLogState::Message || state == OutputLogState::Complete || state
            == OutputLogState::Incomplete {
            self.update_backend_synchronous();
        } else {
            self.update_backend_asynchronous();
        }
    }

    /// Requests a debounced render: at once for a synchronous backend, else
    /// marks the change for the scheduler.
    pub fn update_backend_asynchronous(&mut self)
        requires
            old(self).wf(),
        ensures
            final(self).wf(),
            final(self)@ == request_debounced(old(self)@),
    {
        if self.synchronous {
            self.update_backend_synchronous();
        } else {
            let ghost v0 = self@;
            self.changed = true;
            assert(self@ == EngineView { changed: true, ..v0 });
        }
    }

    /// Suppresses rendering until `unpause`; changes are still recorded.
    pub fn pause(&mut self)
        requires
            old(self).wf(),
        ensures
            final(self).wf(),
            final(self)@ == (EngineView { paused: true, ..old(self)@ }),
    {
        let ghost v0 = self@;
        self.paused = true;
        assert(self@ == EngineView { paused: true, ..v0 });
    }

    /// Resumes rendering, and renders at once if changes are pending.
    pub fn unpause(&mut self)
        requires
            old(self).wf(),
        ensures
            final(self).wf(),
            final(self)@ == render_pass(EngineView { paused: false, ..old(self)@ }),
    {
        let ghost v0 = self@;
        self.paused = false;
        assert(self@ == EngineView { paused: false, ..v0 });
        self.update_backend_real();
    }

    /// Renders pending changes even while paused, and leaves the pause flag
    /// as it was.
    pub fn flush(&mut self)
        requires
            old(self).wf(),
        ensures
            final(self).wf(),
            final(self)@ == (EngineView {
                paused: old(self)@.paused,
                ..render_pass(EngineView { paused: false, ..old(self)@ })
            }),
    {
        let ghost v0 = self@;
        let old_paused = self.paused;
        self.paused = false;
        assert(self@ == EngineView { paused: false, ..v0 });
        self.update_backend_real();
        let ghost v1 = self@;
        self.paused = old_paused;
        assert(self@ == EngineView { paused: old_paused, ..v1 });
    }

    fn update_backend_synchronous(&mut self)
        requires
            old(self).wf(),
        ensures
            final(self).wf(),
            final(self)@ == request_immediate(old(self)@),
    {
        let ghost v0 = self@;
        self.changed = true;
        assert(self@ == EngineView { changed: true, ..v0 });
        self.update_backend_real();
    }

    /// One render pass, as the scheduler makes it: if changes are pending and
    /// the engine is not paused, hand the registry to the backend and drop
    /// every entry that is no longer running.
    pub fn update_backend_real(&mut self)
        requires
            old(self).wf(),
        ensures
            final(self).wf(),
            final(self)@ == render_pass(old(self)@),
    {
        if !self.changed || self.paused {
            return;
        }
        let ghost v0 = self@;
        proof {
            lemma_render_pass_inv(v0);
        }
        match &mut self.backend {
            Some(backend) => {
                backend.update(self.logs.as_slice());
                proof {
                    self.renders@ = self.renders@.push(v0.entries);
                }
            },
            None => {},
        }
        let mut old_logs: Vec<OutputLogInternal> = Vec::new();
        core::mem::swap(&mut self.logs, &mut old_logs);
        let ghost olds = old_logs@.map_values(|l: OutputLogInternal| l@);
        assert(olds == v0.entries);
        let mut kept: Vec<OutputLogInternal> = Vec::new();
        let mut rest = old_logs;
        let mut taken: Vec<OutputLogInternal> = Vec::new();
        // move the entries out in reverse, then back in order keeping the running ones
        while rest.len() > 0
            invariant
                rest@.len() + taken@.len() == olds.len(),
                rest@.map_values(|l: OutputLogInternal| l@) == olds.take(rest@.len() as int),
                forall|k: int|
                    0 <= k < taken@.len() ==> #[trigger] taken@[k]@ == olds[olds.len() - 1 - k],
            decreases rest@.len(),
        {
            let ghost n = rest@.len() as int;
            let l = rest.pop().unwrap();
            proof {
                assert(l@ == olds.take(n)[n - 1]);
                assert(rest@.map_values(|l: OutputLogInternal| l@) =~= olds.take(n - 1));
            }
            taken.push(l);
        }
        let ghost total = taken@.len();
        while taken.len() > 0
            invariant
                total == olds.len(),
                taken@.len() <= total,
                forall|k: int|
                    0 <= k < taken@.len() ==> #[trigger] taken@[k]@ == olds[total - 1 - k],
                kept@.map_values(|l: OutputLogInternal| l@) == running_only(
                    olds.take(total - taken@.len()),
                ),
            decreases taken@.len(),
        {
            let ghost done = (total - taken@.len()) as int;
            let ghost pre_k = kept@.map_values(|l: OutputLogInternal| l@);
            let l = taken.pop().unwrap();
            assert(l@ == olds[done]);
            assert(olds.take(done + 1).drop_last() =~= olds.take(done));
            assert(olds.take(done + 1).last() == olds[done]);
            if l.state == OutputLogState::Running {
                kept.push(l);
                assert(kept@.map_values(|l: OutputLogInternal| l@) =~= pre_k.push(olds[done]));
            }
        }
        assert(olds.take(total as int) =~= olds);
        self.logs = kept;
        self.changed = false;
        assert(self@.entries == running_only(v0.entries));
        assert(self@ =~= render_pass(v0));
    }
}

} // verus!
