use vstd::prelude::*;
use vstd::multiset::Multiset;
use vstd::seq_lib::lemma_multiset_commutative;
use vstd::seq_lib::to_multiset_build;
use crate::plot_unit::PlotUnit;
use crate::task_scheduler::{SchedView, TaskView, is_initial_sched, retire, step};
use crate::trace_unit::TraceUnit;

verus! {

// ------------------------------------------------------------------
// How many units of each kind a task carries.
// ------------------------------------------------------------------
/// The number of trace units a task carries.
pub open spec fn task_trace_count(t: TaskView) -> int {
    match t {
        TaskView::Sleep => 0,
        TaskView::Trace(_) => 1,
        TaskView::Plot(_, us) => us.len() as int,
        TaskView::Gather(_, _) => 0,
        TaskView::Tonemap(_, _) => 0,
    }
}

/// The number of plot units a task carries.
pub open spec fn task_plot_count(t: TaskView) -> int {
    match t {
        TaskView::Sleep => 0,
        TaskView::Trace(_) => 0,
        TaskView::Plot(_, _) => 1,
        TaskView::Gather(_, ps) => ps.len() as int,
        TaskView::Tonemap(_, _) => 0,
    }
}

/// Whether a task carries the gather unit.
pub open spec fn task_gather_count(t: TaskView) -> int {
    match t {
        TaskView::Gather(_, _) => 1,
        TaskView::Tonemap(_, _) => 1,
        _ => 0,
    }
}

/// Whether a task carries the tonemap unit.
pub open spec fn task_tonemap_count(t: TaskView) -> int {
    match t {
        TaskView::Tonemap(_, _) => 1,
        _ => 0,
    }
}

/// Whether a slot holds its unit.
pub open spec fn slot_count<T>(o: Option<T>) -> int {
    if o is Some {
        1
    } else {
        0
    }
}

// ------------------------------------------------------------------
// Small multiset facts used throughout.
// ------------------------------------------------------------------
/// An empty row of units holds no ids.
proof fn lemma_to_multiset_empty<A>()
    ensures
        Seq::<A>::empty().to_multiset() =~= Multiset::<A>::empty(),
{
    broadcast use vstd::seq_lib::group_to_multiset_ensures;

    vstd::multiset::lemma_multiset_empty_len(Seq::<A>::empty().to_multiset());
}

/// A row of one unit holds exactly its id.
proof fn lemma_to_multiset_singleton<A>(x: A)
    ensures
        seq![x].to_multiset() =~= Multiset::<A>::empty().insert(x),
{
    lemma_to_multiset_empty::<A>();
    assert(seq![x] =~= Seq::<A>::empty().push(x));
    to_multiset_build(Seq::<A>::empty(), x);
}

// ------------------------------------------------------------------
// Pool conservation, by counts.
// ------------------------------------------------------------------
/// One scheduler call neither creates nor destroys units: for every unit
/// kind, what the pools and the handed-back task held before equals what
/// the pools and the handed-out task hold after. The pool sizes themselves
/// are also untouched.
pub proof fn lemma_step_conserves_units(s: SchedView, t: TaskView, now: int)
    requires
        0 <= s.number_of_trace_units,
    ensures
        ({
            let (s2, t2) = step(s, t, now);
            &&& s2.number_of_trace_units == s.number_of_trace_units
            &&& s2.available_trace_units.len() + s2.done_trace_units.len() + task_trace_count(t2)
                == s.available_trace_units.len() + s.done_trace_units.len() + task_trace_count(t)
            &&& s2.available_plot_units.len() + s2.done_plot_units.len() + task_plot_count(t2)
                == s.available_plot_units.len() + s.done_plot_units.len() + task_plot_count(t)
        }),
{
    let s1 = retire(s, t, now);
    let (s2, t2) = crate::task_scheduler::decide(s1, now);
    if t2 is Plot {
        let q = s1.done_trace_units;
        let n = crate::task_scheduler::plot_batch_size(q.len() as int);
        assert(1 <= n <= q.len());
        assert(q.take(n).len() == n);
        assert(q.skip(n).len() == q.len() - n);
    }
}

/// The same for the two single-unit slots. A task can only hand its gather
/// or tonemap unit back into an empty slot — while the unit is in flight
/// the slot stays empty — which the hypotheses record.
pub proof fn lemma_step_conserves_slots(s: SchedView, t: TaskView, now: int)
    requires
        0 <= s.number_of_trace_units,
        slot_count(s.gather_unit) + task_gather_count(t) <= 1,
        slot_count(s.tonemap_unit) + task_tonemap_count(t) <= 1,
    ensures
        ({
            let (s2, t2) = step(s, t, now);
            &&& slot_count(s2.gather_unit) + task_gather_count(t2) == slot_count(s.gather_unit)
                + task_gather_count(t)
            &&& slot_count(s2.tonemap_unit) + task_tonemap_count(t2) == slot_count(s.tonemap_unit)
                + task_tonemap_count(t)
        }),
{
}

/// The running form of pool conservation for trace units: with `in_flight`
/// counting the trace units inside every other worker's task, the total
/// over the pools, the other workers and this worker's task is unchanged by
/// a call. Starting from a full pool this pins the total to the pool size
/// at every observation point.
pub open spec fn trace_pool_total(s: SchedView, in_flight: int) -> int {
    s.available_trace_units.len() + s.done_trace_units.len() + in_flight
}

/// The same for plot units.
pub open spec fn plot_pool_total(s: SchedView, in_flight: int) -> int {
    s.available_plot_units.len() + s.done_plot_units.len() + in_flight
}

/// Pool conservation over a call, stated as an invariant: if the trace
/// total equals the pool size and the plot total equals `n_plot` before the
/// call (this worker's completed task counted as in flight), they still do
/// after (the handed-out task counted as in flight).
pub proof fn lemma_pool_conservation(
    s: SchedView,
    t: TaskView,
    now: int,
    others_trace: int,
    others_plot: int,
    n_plot: int,
)
    requires
        0 <= s.number_of_trace_units,
        trace_pool_total(s, others_trace + task_trace_count(t)) == s.number_of_trace_units,
        plot_pool_total(s, others_plot + task_plot_count(t)) == n_plot,
    ensures
        ({
            let (s2, t2) = step(s, t, now);
            &&& trace_pool_total(s2, others_trace + task_trace_count(t2))
                == s2.number_of_trace_units
            &&& plot_pool_total(s2, others_plot + task_plot_count(t2)) == n_plot
        }),
{
    lemma_step_conserves_units(s, t, now);
}

/// The gather and tonemap slots are each in exactly one of two places: in
/// the scheduler, or inside one task in flight. If that holds before a
/// call, counting this worker's completed task, it holds after, counting
/// the handed-out task.
pub proof fn lemma_slot_conservation(
    s: SchedView,
    t: TaskView,
    now: int,
    others_gather: int,
    others_tonemap: int,
)
    requires
        0 <= s.number_of_trace_units,
        0 <= others_gather,
        0 <= others_tonemap,
        slot_count(s.gather_unit) + others_gather + task_gather_count(t) == 1,
        slot_count(s.tonemap_unit) + others_tonemap + task_tonemap_count(t) == 1,
    ensures
        ({
            let (s2, t2) = step(s, t, now);
            &&& slot_count(s2.gather_unit) + others_gather + task_gather_count(t2) == 1
            &&& slot_count(s2.tonemap_unit) + others_tonemap + task_tonemap_count(t2) == 1
        }),
{
    lemma_step_conserves_slots(s, t, now);
}

// ------------------------------------------------------------------
// No duplication, no loss: conservation of the unit ids themselves.
// ------------------------------------------------------------------
/// The ids of a row of trace units, in order.
pub open spec fn trace_ids(units: Seq<TraceUnit>) -> Seq<int> {
    units.map_values(|u: TraceUnit| u.id as int)
}

/// The ids of a row of plot units, in order.
pub open spec fn plot_ids(units: Seq<PlotUnit>) -> Seq<int> {
    units.map_values(|p: PlotUnit| p.id as int)
}

/// The multiset of trace-unit ids held by the scheduler's pools.
pub open spec fn sched_trace_ids(s: SchedView) -> Multiset<int> {
    trace_ids(s.available_trace_units).to_multiset().add(
        trace_ids(s.done_trace_units).to_multiset(),
    )
}

/// The multiset of plot-unit ids held by the scheduler's pools.
pub open spec fn sched_plot_ids(s: SchedView) -> Multiset<int> {
    plot_ids(s.available_plot_units).to_multiset().add(plot_ids(s.done_plot_units).to_multiset())
}

/// The multiset of trace-unit ids a task carries.
pub open spec fn task_trace_ids(t: TaskView) -> Multiset<int> {
    match t {
        TaskView::Trace(u) => Multiset::empty().insert(u.id as int),
        TaskView::Plot(_, us) => trace_ids(us).to_multiset(),
        _ => Multiset::empty(),
    }
}

/// The multiset of plot-unit ids a task carries.
pub open spec fn task_plot_ids(t: TaskView) -> Multiset<int> {
    match t {
        TaskView::Plot(p, _) => Multiset::empty().insert(p.id as int),
        TaskView::Gather(_, ps) => plot_ids(ps).to_multiset(),
        _ => Multiset::empty(),
    }
}

/// Mapping to ids commutes with concatenation.
proof fn lemma_trace_ids_concat(a: Seq<TraceUnit>, b: Seq<TraceUnit>)
    ensures
        trace_ids(a + b) =~= trace_ids(a) + trace_ids(b),
{
}

/// Mapping to ids commutes with `push`.
proof fn lemma_trace_ids_push(a: Seq<TraceUnit>, u: TraceUnit)
    ensures
        trace_ids(a.push(u)) =~= trace_ids(a).push(u.id as int),
{
}

proof fn lemma_plot_ids_concat(a: Seq<PlotUnit>, b: Seq<PlotUnit>)
    ensures
        plot_ids(a + b) =~= plot_ids(a) + plot_ids(b),
{
}

proof fn lemma_plot_ids_push(a: Seq<PlotUnit>, p: PlotUnit)
    ensures
        plot_ids(a.push(p)) =~= plot_ids(a).push(p.id as int),
{
}

/// Retiring a task moves its trace ids into the pools, exactly.
proof fn lemma_retire_trace_ids(s: SchedView, t: TaskView, now: int)
    ensures
        sched_trace_ids(retire(s, t, now)) =~= sched_trace_ids(s).add(task_trace_ids(t)),
{
    let s1 = retire(s, t, now);
    match t {
        TaskView::Sleep => {
            assert(sched_trace_ids(s1) =~= sched_trace_ids(s).add(Multiset::empty()));
        },
        TaskView::Trace(u) => {
            lemma_trace_ids_push(s.done_trace_units, u);
            to_multiset_build(trace_ids(s.done_trace_units), u.id as int);
            assert(sched_trace_ids(s1) =~= sched_trace_ids(s).add(task_trace_ids(t)));
        },
        TaskView::Plot(_, us) => {
            lemma_trace_ids_concat(s.available_trace_units, us);
            lemma_multiset_commutative(trace_ids(s.available_trace_units), trace_ids(us));
            assert(sched_trace_ids(s1) =~= sched_trace_ids(s).add(task_trace_ids(t)));
        },
        TaskView::Gather(_, _) => {
            assert(sched_trace_ids(s1) =~= sched_trace_ids(s).add(Multiset::empty()));
        },
        TaskView::Tonemap(_, _) => {
            assert(sched_trace_ids(s1) =~= sched_trace_ids(s).add(Multiset::empty()));
        },
    }
}

/// Retiring a task moves its plot ids into the pools, exactly.
proof fn lemma_retire_plot_ids(s: SchedView, t: TaskView, now: int)
    ensures
        sched_plot_ids(retire(s, t, now)) =~= sched_plot_ids(s).add(task_plot_ids(t)),
{
    let s1 = retire(s, t, now);
    match t {
        TaskView::Sleep => {
            assert(sched_plot_ids(s1) =~= sched_plot_ids(s).add(Multiset::empty()));
        },
        TaskView::Trace(_) => {
            assert(sched_plot_ids(s1) =~= sched_plot_ids(s).add(Multiset::empty()));
        },
        TaskView::Plot(p, _) => {
            lemma_plot_ids_push(s.done_plot_units, p);
            to_multiset_build(plot_ids(s.done_plot_units), p.id as int);
            assert(sched_plot_ids(s1) =~= sched_plot_ids(s).add(task_plot_ids(t)));
        },
        TaskView::Gather(_, ps) => {
            lemma_plot_ids_concat(s.available_plot_units, ps);
            lemma_multiset_commutative(plot_ids(s.available_plot_units), plot_ids(ps));
            assert(sched_plot_ids(s1) =~= sched_plot_ids(s).add(task_plot_ids(t)));
        },
        TaskView::Tonemap(_, _) => {
            assert(sched_plot_ids(s1) =~= sched_plot_ids(s).add(Multiset::empty()));
        },
    }
}

/// A row of units splits, by ids, into the part handed out and the part
/// kept.
proof fn lemma_trace_ids_split(q: Seq<TraceUnit>, n: int)
    requires
        0 <= n <= q.len(),
    ensures
        trace_ids(q).to_multiset() =~= trace_ids(q.take(n)).to_multiset().add(
            trace_ids(q.skip(n)).to_multiset(),
        ),
{
    assert(q =~= q.take(n) + q.skip(n));
    lemma_trace_ids_concat(q.take(n), q.skip(n));
    lemma_multiset_commutative(trace_ids(q.take(n)), trace_ids(q.skip(n)));
}

/// Deciding a task moves ids from the pools into the task, exactly: for
/// both unit kinds, pools plus handed-out task afterwards hold the very
/// multiset of ids the pools held before.
proof fn lemma_decide_conserves_ids(s1: SchedView, now: int)
    requires
        0 <= s1.number_of_trace_units,
    ensures
        ({
            let (s2, t2) = crate::task_scheduler::decide(s1, now);
            &&& sched_trace_ids(s2).add(task_trace_ids(t2)) =~= sched_trace_ids(s1)
            &&& sched_plot_ids(s2).add(task_plot_ids(t2)) =~= sched_plot_ids(s1)
        }),
{
    let (s2, t2) = crate::task_scheduler::decide(s1, now);
    if t2 is Trace {
        let q = s1.available_trace_units;
        lemma_trace_ids_split(q, 1);
        assert(q.take(1) =~= seq![q[0]]);
        assert(trace_ids(seq![q[0]]) =~= seq![q[0].id as int]);
        lemma_to_multiset_singleton(q[0].id as int);
        assert(q.skip(1) =~= q.drop_first());
        assert(sched_trace_ids(s2).add(task_trace_ids(t2)) =~= sched_trace_ids(s1));
        assert(sched_plot_ids(s2).add(task_plot_ids(t2)) =~= sched_plot_ids(s1));
    } else if t2 is Plot {
        let q = s1.done_trace_units;
        let n = crate::task_scheduler::plot_batch_size(q.len() as int);
        assert(0 <= n <= q.len());
        lemma_trace_ids_split(q, n);
        assert(sched_trace_ids(s2).add(task_trace_ids(t2)) =~= sched_trace_ids(s1));
        let p = s1.available_plot_units;
        lemma_plot_ids_split_first(p);
        assert(sched_plot_ids(s2).add(task_plot_ids(t2)) =~= sched_plot_ids(s1));
    } else if t2 is Gather {
        assert(trace_ids(Seq::<TraceUnit>::empty()) =~= Seq::<int>::empty());
        assert(plot_ids(Seq::<PlotUnit>::empty()) =~= Seq::<int>::empty());
        lemma_to_multiset_empty::<int>();
        assert(sched_trace_ids(s2).add(task_trace_ids(t2)) =~= sched_trace_ids(s1));
        assert(sched_plot_ids(s2).add(task_plot_ids(t2)) =~= sched_plot_ids(s1));
    } else {
        assert(sched_trace_ids(s2).add(task_trace_ids(t2)) =~= sched_trace_ids(s1));
        assert(sched_plot_ids(s2).add(task_plot_ids(t2)) =~= sched_plot_ids(s1));
    }
}

/// The first plot unit of the available row leaves; its id leaves the
/// pool's multiset.
proof fn lemma_plot_ids_split_first(p: Seq<PlotUnit>)
    requires
        p.len() > 0,
    ensures
        plot_ids(p).to_multiset() =~= plot_ids(p.drop_first()).to_multiset().insert(p[0].id as int),
{
    assert(p =~= seq![p[0]] + p.drop_first());
    lemma_plot_ids_concat(seq![p[0]], p.drop_first());
    lemma_multiset_commutative(plot_ids(seq![p[0]]), plot_ids(p.drop_first()));
    assert(plot_ids(seq![p[0]]) =~= seq![p[0].id as int]);
    lemma_to_multiset_singleton(p[0].id as int);
}

/// No duplication, no loss: across one whole scheduler call, the multiset
/// of trace ids and of plot ids in pools-plus-task is exactly conserved.
/// Every id ever handed out is therefore one of the ids put in at
/// construction, and an id held by one worker's task cannot appear in the
/// pools or in another task at the same time.
pub proof fn lemma_step_conserves_ids(s: SchedView, t: TaskView, now: int)
    requires
        0 <= s.number_of_trace_units,
    ensures
        ({
            let (s2, t2) = step(s, t, now);
            &&& sched_trace_ids(s2).add(task_trace_ids(t2)) =~= sched_trace_ids(s).add(
                task_trace_ids(t),
            )
            &&& sched_plot_ids(s2).add(task_plot_ids(t2)) =~= sched_plot_ids(s).add(
                task_plot_ids(t),
            )
        }),
{
    let s1 = retire(s, t, now);
    lemma_retire_trace_ids(s, t, now);
    lemma_retire_plot_ids(s, t, now);
    lemma_decide_conserves_ids(s1, now);
}

/// The ids `0, 1, .., n-1`, once each: what construction puts into a pool.
pub open spec fn initial_ids(n: int) -> Multiset<int> {
    Seq::new(n as nat, |i: int| i).to_multiset()
}

/// Each id occurs in `initial_ids(n)` exactly once (and ids outside the
/// range not at all).
pub proof fn lemma_initial_ids_count(n: int, id: int)
    requires
        0 <= n,
    ensures
        initial_ids(n).count(id) == (if 0 <= id < n {
            1int
        } else {
            0int
        }),
    decreases n,
{
    broadcast use vstd::seq_lib::group_to_multiset_ensures;

    if n == 0 {
        assert(Seq::new(0, |i: int| i) =~= Seq::<int>::empty());
        assert(initial_ids(0) =~= Multiset::<int>::empty());
    } else {
        lemma_initial_ids_count(n - 1, id);
        assert(Seq::new(n as nat, |i: int| i) =~= Seq::new((n - 1) as nat, |i: int| i).push(n - 1));
        to_multiset_build(Seq::new((n - 1) as nat, |i: int| i), n - 1);
    }
}

/// A freshly constructed scheduler's pools hold the ids `0 .. 3*concurrency`
/// for trace units and `0 .. max(1, concurrency/2)` for plot units, once
/// each.
pub proof fn lemma_initial_sched_ids(
    v: SchedView,
    concurrency: int,
    width: int,
    height: int,
    now: int,
)
    requires
        is_initial_sched(v, concurrency, width, height, now),
    ensures
        sched_trace_ids(v) =~= initial_ids(3 * concurrency),
        sched_plot_ids(v) =~= initial_ids(
            if concurrency / 2 < 1 {
                1int
            } else {
                concurrency / 2
            },
        ),
{
    assert(trace_ids(v.available_trace_units) =~= Seq::new(
        (3 * concurrency) as nat,
        |i: int| i,
    ));
    assert(trace_ids(v.done_trace_units) =~= Seq::<int>::empty());
    lemma_to_multiset_empty::<int>();
    assert(sched_trace_ids(v) =~= initial_ids(3 * concurrency));
    let np = if concurrency / 2 < 1 {
        1int
    } else {
        concurrency / 2
    };
    assert(plot_ids(v.available_plot_units) =~= Seq::new(np as nat, |i: int| i));
    assert(plot_ids(v.done_plot_units) =~= Seq::<int>::empty());
    assert(sched_plot_ids(v) =~= initial_ids(np));
}

/// No duplication across workers: suppose the pools, the other workers'
/// tasks and the worker's own task together hold exactly the constructed
/// ids.
/// [`lemma_initial_sched_ids`] establishes that state at first;
/// [`lemma_step_conserves_ids`] keeps it across every call. Then each id
/// occurs at most once outside the pools, and every id a task holds is a
/// constructed one.
pub proof fn lemma_no_concurrent_duplicate(
    s: SchedView,
    others: Multiset<int>,
    t: TaskView,
    n: int,
)
    requires
        0 <= n,
        sched_trace_ids(s).add(others).add(task_trace_ids(t)) =~= initial_ids(n),
    ensures
        forall|id: int|
            #[trigger] task_trace_ids(t).count(id) + others.count(id) <= 1,
        forall|id: int| #[trigger] task_trace_ids(t).count(id) > 0 ==> 0 <= id < n,
{
    broadcast use vstd::multiset::group_multiset_axioms;

    assert forall|id: int| #[trigger] task_trace_ids(t).count(id) + others.count(id) <= 1 by {
        lemma_initial_ids_count(n, id);
        assert(initial_ids(n).count(id) <= 1);
    }
    assert forall|id: int| #[trigger] task_trace_ids(t).count(id) > 0 implies 0 <= id < n by {
        lemma_initial_ids_count(n, id);
    }
}

// ------------------------------------------------------------------
// Liveness: Sleep only when truly nothing is actionable.
// ------------------------------------------------------------------
/// The scheduler answers `Sleep` only when, after retiring the completed
/// task, no rule can fire: no trace unit is available, no plot task can be
/// assembled, and no gather can run. It also leaves the retired state
/// untouched in that case, so calling again with `Sleep` completed keeps
/// the pools as they are until some other worker returns a task.
pub proof fn lemma_sleep_only_when_starved(s: SchedView, t: TaskView, now: int)
    ensures
        ({
            let (s2, t2) = step(s, t, now);
            t2 is Sleep ==> {
                &&& s2.available_trace_units.len() == 0
                &&& (s2.available_plot_units.len() == 0 || s2.done_trace_units.len() == 0)
                &&& (!(s2.gather_unit is Some) || s2.done_plot_units.len() == 0)
                &&& s2 == retire(s, t, now)
            }
        }),
{
}

/// From the freshly constructed state, the first call never sleeps: it
/// hands out a trace task, whatever the clock says.
pub proof fn lemma_initial_first_task_is_trace(
    v: SchedView,
    concurrency: int,
    width: int,
    height: int,
    now0: int,
    now: int,
)
    requires
        is_initial_sched(v, concurrency, width, height, now0),
        1 <= concurrency,
    ensures
        step(v, TaskView::Sleep, now).1 is Trace,
{
}

} // verus!

verus! {

// ------------------------------------------------------------------
// The whole worker pool: every worker holds exactly one task.
// ------------------------------------------------------------------
/// The trace ids held across a row of in-flight tasks, one per worker.
pub open spec fn flight_trace_ids(ts: Seq<TaskView>) -> Multiset<int>
    decreases ts.len(),
{
    if ts.len() == 0 {
        Multiset::empty()
    } else {
        task_trace_ids(ts.first()).add(flight_trace_ids(ts.drop_first()))
    }
}

/// The plot ids held across a row of in-flight tasks.
pub open spec fn flight_plot_ids(ts: Seq<TaskView>) -> Multiset<int>
    decreases ts.len(),
{
    if ts.len() == 0 {
        Multiset::empty()
    } else {
        task_plot_ids(ts.first()).add(flight_plot_ids(ts.drop_first()))
    }
}

/// How many in-flight tasks hold the gather unit.
pub open spec fn flight_gather_count(ts: Seq<TaskView>) -> int
    decreases ts.len(),
{
    if ts.len() == 0 {
        0
    } else {
        task_gather_count(ts.first()) + flight_gather_count(ts.drop_first())
    }
}

/// How many in-flight tasks hold the tonemap unit.
pub open spec fn flight_tonemap_count(ts: Seq<TaskView>) -> int
    decreases ts.len(),
{
    if ts.len() == 0 {
        0
    } else {
        task_tonemap_count(ts.first()) + flight_tonemap_count(ts.drop_first())
    }
}

/// The whole system's state is healthy: the pools and the in-flight tasks
/// together hold each constructed trace and plot id exactly once, and the
/// gather and tonemap units each sit in exactly one place.
pub open spec fn system_inv(s: SchedView, workers: Seq<TaskView>, n_plot: int) -> bool {
    &&& 0 <= s.number_of_trace_units
    &&& 0 <= n_plot
    &&& sched_trace_ids(s).add(flight_trace_ids(workers)) =~= initial_ids(
        s.number_of_trace_units,
    )
    &&& sched_plot_ids(s).add(flight_plot_ids(workers)) =~= initial_ids(n_plot)
    &&& slot_count(s.gather_unit) + flight_gather_count(workers) == 1
    &&& slot_count(s.tonemap_unit) + flight_tonemap_count(workers) == 1
}

/// Three-way sums of multisets reorder freely.
proof fn lemma_add_rotate<V>(a: Multiset<V>, b: Multiset<V>, c: Multiset<V>)
    ensures
        a.add(b).add(c) =~= c.add(b).add(a),
{
    broadcast use vstd::multiset::group_multiset_axioms;

    assert forall|v: V| #[trigger] a.add(b).add(c).count(v) == c.add(b).add(a).count(v) by {
        assert(a.add(b).add(c).count(v) == a.add(b).count(v) + c.count(v));
        assert(a.add(b).count(v) == a.count(v) + b.count(v));
        assert(c.add(b).add(a).count(v) == c.add(b).count(v) + a.count(v));
        assert(c.add(b).count(v) == c.count(v) + b.count(v));
    }
}

/// Sums of multisets regroup freely.
proof fn lemma_add_assoc<V>(a: Multiset<V>, b: Multiset<V>, c: Multiset<V>)
    ensures
        a.add(b).add(c) =~= a.add(b.add(c)),
{
    broadcast use vstd::multiset::group_multiset_axioms;

    assert forall|v: V| #[trigger] a.add(b).add(c).count(v) == a.add(b.add(c)).count(v) by {
        assert(a.add(b).add(c).count(v) == a.add(b).count(v) + c.count(v));
        assert(a.add(b).count(v) == a.count(v) + b.count(v));
        assert(a.add(b.add(c)).count(v) == a.count(v) + b.add(c).count(v));
        assert(b.add(c).count(v) == b.count(v) + c.count(v));
    }
}

/// Swapping one worker's task swaps exactly that task's ids in the row.
proof fn lemma_flight_trace_update(ts: Seq<TaskView>, k: int, t2: TaskView)
    requires
        0 <= k < ts.len(),
    ensures
        flight_trace_ids(ts.update(k, t2)).add(task_trace_ids(ts[k])) =~= flight_trace_ids(
            ts,
        ).add(task_trace_ids(t2)),
        flight_plot_ids(ts.update(k, t2)).add(task_plot_ids(ts[k])) =~= flight_plot_ids(ts).add(
            task_plot_ids(t2),
        ),
        flight_gather_count(ts.update(k, t2)) + task_gather_count(ts[k]) == flight_gather_count(
            ts,
        ) + task_gather_count(t2),
        flight_tonemap_count(ts.update(k, t2)) + task_tonemap_count(ts[k])
            == flight_tonemap_count(ts) + task_tonemap_count(t2),
    decreases k,
{
    broadcast use vstd::multiset::group_multiset_axioms;

    let upd = ts.update(k, t2);
    if k == 0 {
        assert(upd.drop_first() =~= ts.drop_first());
        assert(upd.first() == t2);
        lemma_add_rotate(
            task_trace_ids(t2),
            flight_trace_ids(ts.drop_first()),
            task_trace_ids(ts[0]),
        );
        lemma_add_rotate(
            task_plot_ids(t2),
            flight_plot_ids(ts.drop_first()),
            task_plot_ids(ts[0]),
        );
    } else {
        lemma_flight_trace_update(ts.drop_first(), k - 1, t2);
        assert(upd.drop_first() =~= ts.drop_first().update(k - 1, t2));
        assert(upd.first() == ts.first());
        assert(ts.drop_first()[k - 1] == ts[k]);
        let rest_upd = ts.drop_first().update(k - 1, t2);
        lemma_add_assoc(
            task_trace_ids(ts[0]),
            flight_trace_ids(rest_upd),
            task_trace_ids(ts[k]),
        );
        lemma_add_assoc(
            task_trace_ids(ts[0]),
            flight_trace_ids(ts.drop_first()),
            task_trace_ids(t2),
        );
        lemma_add_assoc(task_plot_ids(ts[0]), flight_plot_ids(rest_upd), task_plot_ids(ts[k]));
        lemma_add_assoc(
            task_plot_ids(ts[0]),
            flight_plot_ids(ts.drop_first()),
            task_plot_ids(t2),
        );
    }
}

/// Every task's share is within the row's total.
proof fn lemma_flight_bounds(ts: Seq<TaskView>, k: int)
    requires
        0 <= k < ts.len(),
    ensures
        0 <= flight_gather_count(ts) - task_gather_count(ts[k]),
        0 <= flight_tonemap_count(ts) - task_tonemap_count(ts[k]),
        forall|id: int|
            #[trigger] task_trace_ids(ts[k]).count(id) <= flight_trace_ids(ts).count(id),
        forall|id: int| #[trigger] task_plot_ids(ts[k]).count(id) <= flight_plot_ids(ts).count(id),
    decreases k,
{
    broadcast use vstd::multiset::group_multiset_axioms;

    lemma_flight_counts_nonneg(ts.drop_first());
    if k == 0 {
        lemma_flight_counts_nonneg(ts.drop_first());
    } else {
        lemma_flight_bounds(ts.drop_first(), k - 1);
        assert(ts.drop_first()[k - 1] == ts[k]);
        assert(task_gather_count(ts.first()) >= 0);
        assert(task_tonemap_count(ts.first()) >= 0);
    }
}

/// A row's slot counts are never negative.
proof fn lemma_flight_counts_nonneg(ts: Seq<TaskView>)
    ensures
        0 <= flight_gather_count(ts),
        0 <= flight_tonemap_count(ts),
    decreases ts.len(),
{
    if ts.len() > 0 {
        lemma_flight_counts_nonneg(ts.drop_first());
    }
}

/// At the start, the workers hold only `Sleep` and the system is healthy.
pub proof fn lemma_initial_system_inv(
    v: SchedView,
    concurrency: int,
    width: int,
    height: int,
    now: int,
    workers: Seq<TaskView>,
)
    requires
        is_initial_sched(v, concurrency, width, height, now),
        1 <= concurrency,
        forall|k: int| 0 <= k < workers.len() ==> #[trigger] workers[k] is Sleep,
    ensures
        system_inv(
            v,
            workers,
            if concurrency / 2 < 1 {
                1int
            } else {
                concurrency / 2
            },
        ),
{
    broadcast use vstd::multiset::group_multiset_axioms;

    lemma_initial_sched_ids(v, concurrency, width, height, now);
    lemma_flight_all_sleep(workers);
    assert(sched_trace_ids(v).add(flight_trace_ids(workers)) =~= initial_ids(3 * concurrency));
    let np = if concurrency / 2 < 1 {
        1int
    } else {
        concurrency / 2
    };
    assert(sched_plot_ids(v).add(flight_plot_ids(workers)) =~= initial_ids(np));
}

/// A row of sleeping workers holds nothing.
proof fn lemma_flight_all_sleep(ts: Seq<TaskView>)
    requires
        forall|k: int| 0 <= k < ts.len() ==> #[trigger] ts[k] is Sleep,
    ensures
        flight_trace_ids(ts) =~= Multiset::<int>::empty(),
        flight_plot_ids(ts) =~= Multiset::<int>::empty(),
        flight_gather_count(ts) == 0,
        flight_tonemap_count(ts) == 0,
    decreases ts.len(),
{
    broadcast use vstd::multiset::group_multiset_axioms;

    if ts.len() > 0 {
        assert(ts[0] is Sleep);
        lemma_flight_all_sleep(ts.drop_first());
    }
}

/// The full statement of pool conservation and exclusivity: whichever
/// worker `k` calls the scheduler next, and whatever the clock says, the
/// system stays healthy — no unit id is created, lost, or duplicated, and
/// each single-unit slot keeps exactly one home.
pub proof fn lemma_system_step_preserves_inv(
    s: SchedView,
    workers: Seq<TaskView>,
    k: int,
    now: int,
    n_plot: int,
)
    requires
        system_inv(s, workers, n_plot),
        0 <= k < workers.len(),
    ensures
        ({
            let (s2, t2) = step(s, workers[k], now);
            system_inv(s2, workers.update(k, t2), n_plot)
        }),
{
    broadcast use vstd::multiset::group_multiset_axioms;

    let (s2, t2) = step(s, workers[k], now);
    let upd = workers.update(k, t2);
    lemma_step_conserves_ids(s, workers[k], now);
    lemma_flight_trace_update(workers, k, t2);
    lemma_flight_bounds(workers, k);
    lemma_step_conserves_slots(s, workers[k], now);
    assert forall|id: int| #[trigger] sched_trace_ids(s2).add(flight_trace_ids(upd)).count(id)
        == initial_ids(s.number_of_trace_units).count(id) by {
        assert(sched_trace_ids(s2).add(task_trace_ids(t2)).count(id) == sched_trace_ids(
            s2,
        ).count(id) + task_trace_ids(t2).count(id));
        assert(sched_trace_ids(s).add(task_trace_ids(workers[k])).count(id) == sched_trace_ids(
            s,
        ).count(id) + task_trace_ids(workers[k]).count(id));
        assert(flight_trace_ids(upd).add(task_trace_ids(workers[k])).count(id)
            == flight_trace_ids(upd).count(id) + task_trace_ids(workers[k]).count(id));
        assert(flight_trace_ids(workers).add(task_trace_ids(t2)).count(id) == flight_trace_ids(
            workers,
        ).count(id) + task_trace_ids(t2).count(id));
        assert(sched_trace_ids(s).add(flight_trace_ids(workers)).count(id) == sched_trace_ids(
            s,
        ).count(id) + flight_trace_ids(workers).count(id));
        assert(sched_trace_ids(s2).add(flight_trace_ids(upd)).count(id) == sched_trace_ids(
            s2,
        ).count(id) + flight_trace_ids(upd).count(id));
        assert(sched_trace_ids(s).count(id) + flight_trace_ids(workers).count(id)
            == initial_ids(s.number_of_trace_units).count(id));
    }
    assert(sched_trace_ids(s2).add(flight_trace_ids(upd)) =~= initial_ids(
        s.number_of_trace_units,
    ));
    assert forall|id: int| #[trigger] sched_plot_ids(s2).add(flight_plot_ids(upd)).count(id)
        == initial_ids(n_plot).count(id) by {
        assert(sched_plot_ids(s2).add(task_plot_ids(t2)).count(id) == sched_plot_ids(
            s2,
        ).count(id) + task_plot_ids(t2).count(id));
        assert(sched_plot_ids(s).add(task_plot_ids(workers[k])).count(id) == sched_plot_ids(
            s,
        ).count(id) + task_plot_ids(workers[k]).count(id));
        assert(flight_plot_ids(upd).add(task_plot_ids(workers[k])).count(id) == flight_plot_ids(
            upd,
        ).count(id) + task_plot_ids(workers[k]).count(id));
        assert(flight_plot_ids(workers).add(task_plot_ids(t2)).count(id) == flight_plot_ids(
            workers,
        ).count(id) + task_plot_ids(t2).count(id));
        assert(sched_plot_ids(s).add(flight_plot_ids(workers)).count(id) == sched_plot_ids(
            s,
        ).count(id) + flight_plot_ids(workers).count(id));
        assert(sched_plot_ids(s2).add(flight_plot_ids(upd)).count(id) == sched_plot_ids(
            s2,
        ).count(id) + flight_plot_ids(upd).count(id));
        assert(sched_plot_ids(s).count(id) + flight_plot_ids(workers).count(id) == initial_ids(
            n_plot,
        ).count(id));
    }
    assert(sched_plot_ids(s2).add(flight_plot_ids(upd)) =~= initial_ids(n_plot));
}

/// No id is referenced by two workers' tasks at the same time: in a
/// healthy system, any two distinct workers hold disjoint trace units and
/// disjoint plot units.
pub proof fn lemma_workers_hold_distinct_units(
    s: SchedView,
    workers: Seq<TaskView>,
    n_plot: int,
    j: int,
    k: int,
)
    requires
        system_inv(s, workers, n_plot),
        0 <= j < k < workers.len(),
    ensures
        forall|id: int|
            #[trigger] task_trace_ids(workers[j]).count(id) + task_trace_ids(workers[k]).count(id)
                <= 1,
        forall|id: int|
            #[trigger] task_plot_ids(workers[j]).count(id) + task_plot_ids(workers[k]).count(id)
                <= 1,
{
    broadcast use vstd::multiset::group_multiset_axioms;

    assert forall|id: int| #[trigger] task_trace_ids(workers[j]).count(id) + task_trace_ids(
        workers[k],
    ).count(id) <= 1 by {
        lemma_flight_pair_bound(workers, j, k, id);
        lemma_initial_ids_count(s.number_of_trace_units, id);
        assert(sched_trace_ids(s).add(flight_trace_ids(workers)).count(id) == sched_trace_ids(
            s,
        ).count(id) + flight_trace_ids(workers).count(id));
        assert(sched_trace_ids(s).count(id) + flight_trace_ids(workers).count(id)
            == initial_ids(s.number_of_trace_units).count(id));
    }
    assert forall|id: int| #[trigger] task_plot_ids(workers[j]).count(id) + task_plot_ids(
        workers[k],
    ).count(id) <= 1 by {
        lemma_flight_pair_bound(workers, j, k, id);
        lemma_initial_ids_count(n_plot, id);
        assert(sched_plot_ids(s).add(flight_plot_ids(workers)).count(id) == sched_plot_ids(
            s,
        ).count(id) + flight_plot_ids(workers).count(id));
        assert(sched_plot_ids(s).count(id) + flight_plot_ids(workers).count(id) == initial_ids(
            n_plot,
        ).count(id));
    }
}

/// Two distinct workers' shares together are within the row's total.
proof fn lemma_flight_pair_bound(ts: Seq<TaskView>, j: int, k: int, id: int)
    requires
        0 <= j < k < ts.len(),
    ensures
        task_trace_ids(ts[j]).count(id) + task_trace_ids(ts[k]).count(id) <= flight_trace_ids(
            ts,
        ).count(id),
        task_plot_ids(ts[j]).count(id) + task_plot_ids(ts[k]).count(id) <= flight_plot_ids(
            ts,
        ).count(id),
    decreases j,
{
    broadcast use vstd::multiset::group_multiset_axioms;

    if j == 0 {
        lemma_flight_single_bound(ts.drop_first(), k - 1, id);
        assert(ts.drop_first()[k - 1] == ts[k]);
    } else {
        lemma_flight_pair_bound(ts.drop_first(), j - 1, k - 1, id);
        assert(ts.drop_first()[j - 1] == ts[j]);
        assert(ts.drop_first()[k - 1] == ts[k]);
    }
}

/// One worker's share is within the row's total.
proof fn lemma_flight_single_bound(ts: Seq<TaskView>, k: int, id: int)
    requires
        0 <= k < ts.len(),
    ensures
        task_trace_ids(ts[k]).count(id) <= flight_trace_ids(ts).count(id),
        task_plot_ids(ts[k]).count(id) <= flight_plot_ids(ts).count(id),
    decreases k,
{
    broadcast use vstd::multiset::group_multiset_axioms;

    if k == 0 {
    } else {
        lemma_flight_single_bound(ts.drop_first(), k - 1, id);
        assert(ts.drop_first()[k - 1] == ts[k]);
    }
}

} // verus!
