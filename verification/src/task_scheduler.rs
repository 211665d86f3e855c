use vstd::prelude::*;
use std::collections::VecDeque;
use crate::clock::now_millis;
use crate::gather_unit::GatherUnit;
use crate::plot_unit::PlotUnit;
use crate::pop_iter::PopFrontIter;
use crate::tonemap_unit::TonemapUnit;
use crate::trace_unit::TraceUnit;

verus! {

/// Tonemap at most once per this many milliseconds.
pub const TONEMAP_INTERVAL_MS: u64 = 30000;

/// How often the image is tonemapped (and displayed), in milliseconds.
pub fn tonemap_interval() -> (r: u64)
    ensures
        r == TONEMAP_INTERVAL_MS,
{
    TONEMAP_INTERVAL_MS
}

/// Keep at most this many throughput measurements.
pub const PERFORMANCE_WINDOW: usize = 512;

/// Every stored throughput measurement is below this bound; it follows from
/// the trace counter being 32 bits and an elapsed time of at least one
/// millisecond.
pub const PERFORMANCE_BOUND: u64 = 0x10_0000_0000_0000;

/// One unit of schedulable work. A task is the sole carrier of ownership
/// for the unit(s) it references while in flight: a unit lives either in
/// one of the scheduler's pools or inside exactly one task, never both.
pub enum Task {
    /// Do nothing, wait a while.
    Sleep,
    /// Trace a certain number of rays and store the mapped photons.
    Trace(Box<TraceUnit>),
    /// Plot all intermediate mapped photons to a canvas of CIE XYZ values.
    Plot(Box<PlotUnit>, Vec<Box<TraceUnit>>),
    /// Combine all CIE XYZ canvases and accumulate them into the final image.
    Gather(Box<GatherUnit>, Vec<Box<PlotUnit>>),
    /// Convert the CIE XYZ values to sRGB and display the image.
    Tonemap(Box<TonemapUnit>, Box<GatherUnit>),
}

/// The mathematical shadow of a [`Task`]: the same five shapes, with boxes
/// and vectors replaced by their contents.
#[verifier::ext_equal]
pub ghost enum TaskView {
    Sleep,
    Trace(TraceUnit),
    Plot(PlotUnit, Seq<TraceUnit>),
    Gather(GatherUnit, Seq<PlotUnit>),
    Tonemap(TonemapUnit, GatherUnit),
}

impl View for Task {
    type V = TaskView;

    open spec fn view(&self) -> TaskView {
        match self {
            Task::Sleep => TaskView::Sleep,
            Task::Trace(u) => TaskView::Trace(**u),
            Task::Plot(p, us) => TaskView::Plot(**p, us@.map_values(|u: Box<TraceUnit>| *u)),
            Task::Gather(g, ps) => TaskView::Gather(**g, ps@.map_values(|p: Box<PlotUnit>| *p)),
            Task::Tonemap(t, g) => TaskView::Tonemap(**t, **g),
        }
    }
}

/// The mathematical state of the scheduler: its five pools and slots and
/// its scalar bookkeeping. [`retire`], [`decide`] and [`step`] below define
/// the scheduler's whole behaviour over this state; the executable code is
/// proved to follow them exactly.
#[verifier::ext_equal]
pub ghost struct SchedView {
    /// The number of completed trace batches since the last tonemap.
    pub traces_completed: int,
    /// Previous measurements of batches per second (in thousandths),
    /// oldest first.
    pub performance: Seq<int>,
    /// The fixed size of the trace-unit pool.
    pub number_of_trace_units: int,
    /// Trace units available for tracing rays, front first.
    pub available_trace_units: Seq<TraceUnit>,
    /// Trace units whose photons await plotting, front first.
    pub done_trace_units: Seq<TraceUnit>,
    /// Plot units available for plotting mapped photons, front first.
    pub available_plot_units: Seq<PlotUnit>,
    /// Plot units whose canvases await gathering, front first.
    pub done_plot_units: Seq<PlotUnit>,
    /// The gather unit, when it is not in flight.
    pub gather_unit: Option<GatherUnit>,
    /// The tonemap unit, when it is not in flight.
    pub tonemap_unit: Option<TonemapUnit>,
    /// When the image was last tonemapped, in milliseconds since the epoch.
    pub last_tonemap_ms: int,
    /// Whether a gather has run since the last tonemap.
    pub image_changed: bool,
}

/// The scheduler's well-formedness: the throughput window respects its
/// cap and every measurement in it is one the window arithmetic can have
/// produced.
pub open spec fn wf(s: SchedView) -> bool {
    &&& s.performance.len() <= PERFORMANCE_WINDOW
    &&& forall|i: int| 0 <= i < s.performance.len() ==> 0 <= #[trigger] s.performance[i] < PERFORMANCE_BOUND
    &&& 0 <= s.traces_completed <= u32::MAX
}

/// The throughput of the interval that ends now, in thousandths of a trace
/// batch per second. An elapsed time below one millisecond counts as one.
pub open spec fn throughput_rate(traces: int, elapsed_ms: int) -> int {
    traces * 1_000_000 / (if elapsed_ms >= 1 { elapsed_ms } else { 1 })
}

/// What retiring a tonemap task does: both slots refill, the change flag
/// clears, and the throughput of the closed interval enters the rolling
/// window, which is trimmed to [`PERFORMANCE_WINDOW`] entries.
pub open spec fn retire_tonemap(s: SchedView, tu: TonemapUnit, g: GatherUnit, now: int) -> SchedView {
    let rate = throughput_rate(s.traces_completed, now - s.last_tonemap_ms);
    let grown = s.performance.push(rate);
    let window = if grown.len() > PERFORMANCE_WINDOW {
        grown.drop_first()
    } else {
        grown
    };
    SchedView {
        gather_unit: Some(g),
        tonemap_unit: Some(tu),
        image_changed: false,
        last_tonemap_ms: now,
        traces_completed: 0,
        performance: window,
        ..s
    }
}

/// What retiring a completed task does to the pools: every unit the task
/// carried returns to the pool that matches its next stage.
pub open spec fn retire(s: SchedView, t: TaskView, now: int) -> SchedView {
    match t {
        TaskView::Sleep => s,
        TaskView::Trace(u) => SchedView {
            done_trace_units: s.done_trace_units.push(u),
            traces_completed: if s.traces_completed < u32::MAX {
                s.traces_completed + 1
            } else {
                s.traces_completed
            },
            ..s
        },
        TaskView::Plot(p, us) => SchedView {
            available_trace_units: s.available_trace_units + us,
            done_plot_units: s.done_plot_units.push(p),
            ..s
        },
        TaskView::Gather(g, ps) => SchedView {
            available_plot_units: s.available_plot_units + ps,
            gather_unit: Some(g),
            image_changed: true,
            ..s
        },
        TaskView::Tonemap(tu, g) => retire_tonemap(s, tu, g, now),
    }
}

/// How many done trace units one plot task takes: about half of them,
/// and at least one.
pub open spec fn plot_batch_size(done: int) -> int {
    if done / 2 < 1 {
        1
    } else {
        done / 2
    }
}

/// Handing out a trace task: the first available trace unit leaves.
pub open spec fn spec_create_trace(s: SchedView) -> (SchedView, TaskView) {
    (
        SchedView { available_trace_units: s.available_trace_units.drop_first(), ..s },
        TaskView::Trace(s.available_trace_units[0]),
    )
}

/// Handing out a plot task: the first available plot unit leaves, together
/// with the oldest [`plot_batch_size`] done trace units.
pub open spec fn spec_create_plot(s: SchedView) -> (SchedView, TaskView) {
    let n = plot_batch_size(s.done_trace_units.len() as int);
    (
        SchedView {
            available_plot_units: s.available_plot_units.drop_first(),
            done_trace_units: s.done_trace_units.skip(n),
            ..s
        },
        TaskView::Plot(s.available_plot_units[0], s.done_trace_units.take(n)),
    )
}

/// Handing out a gather task: the gather slot empties and every done plot
/// unit leaves with it.
pub open spec fn spec_create_gather(s: SchedView) -> (SchedView, TaskView) {
    (
        SchedView { gather_unit: None, done_plot_units: Seq::empty(), ..s },
        TaskView::Gather(s.gather_unit.unwrap(), s.done_plot_units),
    )
}

/// Handing out a tonemap task: both slots empty.
pub open spec fn spec_create_tonemap(s: SchedView) -> (SchedView, TaskView) {
    (
        SchedView { gather_unit: None, tonemap_unit: None, ..s },
        TaskView::Tonemap(s.tonemap_unit.unwrap(), s.gather_unit.unwrap()),
    )
}

/// Whether the periodic tonemap is due.
pub open spec fn tonemap_due(s: SchedView, now: int) -> bool {
    now - s.last_tonemap_ms > TONEMAP_INTERVAL_MS
}

/// The scheduling decision, in strict priority order: the periodic
/// tonemap (or the gather that must precede it), backpressure relief for
/// the trace pipeline, fresh tracing, draining the trace backlog, draining
/// the plot backlog, and sleep as the last resort.
pub open spec fn decide(s: SchedView, now: int) -> (SchedView, TaskView) {
    if tonemap_due(s, now) && s.image_changed && s.gather_unit is Some && s.tonemap_unit is Some {
        spec_create_tonemap(s)
    } else if tonemap_due(s, now) && !s.image_changed && s.gather_unit is Some
        && s.done_plot_units.len() > 0 {
        spec_create_gather(s)
    } else if s.done_trace_units.len() > s.number_of_trace_units / 2 && s.available_plot_units.len()
        > 0 {
        spec_create_plot(s)
    } else if s.available_trace_units.len() > 0 {
        spec_create_trace(s)
    } else if s.available_plot_units.len() > 0 && s.done_trace_units.len() > 0 {
        spec_create_plot(s)
    } else if s.gather_unit is Some && s.done_plot_units.len() > 0 {
        spec_create_gather(s)
    } else {
        (s, TaskView::Sleep)
    }
}

/// One whole call of the scheduler: retire the completed task, then decide
/// the next one.
pub open spec fn step(s: SchedView, t: TaskView, now: int) -> (SchedView, TaskView) {
    decide(retire(s, t, now), now)
}

/// Handles splitting the workload across threads.
///
/// All mutation goes through [`TaskScheduler::get_new_task`] (or its
/// clock-free form [`TaskScheduler::get_new_task_at`]), whose contract says
/// that the scheduler follows [`step`] exactly.
pub struct TaskScheduler {
    /// The number of completed trace batches. Used to measure performance.
    traces_completed: u32,

    /// Previous measurements of batches/second (in thousandths), used to
    /// determine variance.
    performance: VecDeque<u64>,

    /// The number of trace units to use. Not all of them have to be
    /// active simultaneously.
    number_of_trace_units: usize,

    /// The trace units which are available for tracing rays.
    available_trace_units: VecDeque<Box<TraceUnit>>,

    /// The trace units which have mapped photons that must be plotted,
    /// before the trace unit can be used again.
    done_trace_units: VecDeque<Box<TraceUnit>>,

    /// The plot units which are available for plotting mapped photons.
    available_plot_units: VecDeque<Box<PlotUnit>>,

    /// The plot units which have a screen that must be accumulated
    /// before the plot unit can be used again.
    done_plot_units: VecDeque<Box<PlotUnit>>,

    /// The gather unit, when it is available.
    gather_unit: Option<Box<GatherUnit>>,

    /// The tonemap unit, when it is available.
    tonemap_unit: Option<Box<TonemapUnit>>,

    /// The last time the image was tonemapped (and displayed), in
    /// milliseconds since the epoch.
    last_tonemap_ms: i64,

    /// Whether a new gather task has been executed since the last
    /// tonemapping task was executed.
    image_changed: bool,
}

impl View for TaskScheduler {
    type V = SchedView;

    closed spec fn view(&self) -> SchedView {
        SchedView {
            traces_completed: self.traces_completed as int,
            performance: self.performance@.map_values(|x: u64| x as int),
            number_of_trace_units: self.number_of_trace_units as int,
            available_trace_units: self.available_trace_units@.map_values(
                |u: Box<TraceUnit>| *u,
            ),
            done_trace_units: self.done_trace_units@.map_values(|u: Box<TraceUnit>| *u),
            available_plot_units: self.available_plot_units@.map_values(|p: Box<PlotUnit>| *p),
            done_plot_units: self.done_plot_units@.map_values(|p: Box<PlotUnit>| *p),
            gather_unit: match &self.gather_unit {
                Some(g) => Some(**g),
                None => None,
            },
            tonemap_unit: match &self.tonemap_unit {
                Some(t) => Some(**t),
                None => None,
            },
            last_tonemap_ms: self.last_tonemap_ms as int,
            image_changed: self.image_changed,
        }
    }
}

/// Two scheduler states that agree on everything but the gather slot.
pub open spec fn same_but_gather(a: SchedView, b: SchedView) -> bool {
    &&& a.traces_completed == b.traces_completed
    &&& a.performance == b.performance
    &&& a.number_of_trace_units == b.number_of_trace_units
    &&& a.available_trace_units == b.available_trace_units
    &&& a.done_trace_units == b.done_trace_units
    &&& a.available_plot_units == b.available_plot_units
    &&& a.done_plot_units == b.done_plot_units
    &&& a.tonemap_unit == b.tonemap_unit
    &&& a.last_tonemap_ms == b.last_tonemap_ms
    &&& a.image_changed == b.image_changed
}

/// The freshly constructed scheduler: every pool full of new units with
/// ids counted from zero, both slots populated with all-zero canvases, the
/// change flag clear, and the construction time recorded.
pub open spec fn is_initial_sched(
    v: SchedView,
    concurrency: int,
    width: int,
    height: int,
    now: int,
) -> bool {
    &&& v.traces_completed == 0
    &&& v.performance =~= Seq::<int>::empty()
    &&& v.number_of_trace_units == 3 * concurrency
    &&& v.available_trace_units.len() == 3 * concurrency
    &&& forall|i: int|
        0 <= i < v.available_trace_units.len() ==> {
            let u = #[trigger] v.available_trace_units[i];
            &&& u.wf()
            &&& u.id == i
            &&& u.image_width == width
            &&& u.image_height == height
            &&& forall|j: int| 0 <= j < u.mapped_photons@.len() ==> (#[trigger] u.mapped_photons@[j]).is_zero()
        }
    &&& v.done_trace_units =~= Seq::<TraceUnit>::empty()
    &&& v.available_plot_units.len() == (if concurrency / 2 < 1 {
        1int
    } else {
        concurrency / 2
    })
    &&& forall|i: int|
        0 <= i < v.available_plot_units.len() ==> {
            let p = #[trigger] v.available_plot_units[i];
            &&& p.wf()
            &&& p.id == i
            &&& p.image_width == width
            &&& p.image_height == height
            &&& forall|j: int| 0 <= j < p.tristimulus_buffer@.len() ==> (#[trigger] p.tristimulus_buffer@[j]).is_zero()
        }
    &&& v.done_plot_units =~= Seq::<PlotUnit>::empty()
    &&& v.gather_unit is Some
    &&& {
        let g = v.gather_unit.unwrap();
        &&& g.wf()
        &&& g.tristimulus_buffer@.len() == width * height
        &&& forall|j: int| 0 <= j < g.tristimulus_buffer@.len() ==> (#[trigger] g.tristimulus_buffer@[j]).is_zero()
        &&& forall|j: int| 0 <= j < g.compensation_buffer@.len() ==> (#[trigger] g.compensation_buffer@[j]).is_zero()
    }
    &&& v.tonemap_unit is Some
    &&& {
        let t = v.tonemap_unit.unwrap();
        &&& t.wf()
        &&& t.image_width == width
        &&& t.image_height == height
        &&& forall|j: int| 0 <= j < t.rgb_buffer@.len() ==> t.rgb_buffer@[j] == 0
    }
    &&& v.last_tonemap_ms == now
    &&& !v.image_changed
}

impl TaskScheduler {
    /// Creates a new task scheduler that will render to a canvas of the
    /// specified size, using `concurrency` threads, recording the current
    /// wall-clock time as the initial tonemap time.
    pub fn new(concurrency: usize, width: u32, height: u32) -> (r: TaskScheduler)
        requires
            1 <= concurrency,
            concurrency * 3 <= usize::MAX,
            width * height * 3 <= usize::MAX,
        ensures
            wf(r@),
            exists|now: int|
                is_initial_sched(r@, concurrency as int, width as int, height as int, now),
    {
        let now = now_millis();
        let r = Self::new_at(concurrency, width, height, now);
        assert(is_initial_sched(r@, concurrency as int, width as int, height as int, now as int));
        r
    }

    /// Creates a new task scheduler as [`TaskScheduler::new`] does, with
    /// the initial tonemap time given by the caller.
    pub fn new_at(concurrency: usize, width: u32, height: u32, now_ms: i64) -> (r: TaskScheduler)
        requires
            1 <= concurrency,
            concurrency * 3 <= usize::MAX,
            width * height * 3 <= usize::MAX,
        ensures
            wf(r@),
            is_initial_sched(r@, concurrency as int, width as int, height as int, now_ms as int),
    {
        // More trace units than threads seems sensible, but less plot units
        // is acceptable, because one plot unit can handle multiple trace
        // units.
        let n_trace_units: usize = concurrency * 3;
        let n_plot_units: usize = if concurrency / 2 < 1 {
            1
        } else {
            concurrency / 2
        };

        // Build the trace units.
        let mut trace_units: VecDeque<Box<TraceUnit>> = VecDeque::new();
        let mut i: usize = 0;
        while i < n_trace_units
            invariant
                i <= n_trace_units,
                width * height * 3 <= usize::MAX,
                trace_units@.len() == i,
                forall|k: int|
                    0 <= k < trace_units@.len() ==> {
                        let u = *(#[trigger] trace_units@[k]);
                        &&& u.wf()
                        &&& u.id == k
                        &&& u.image_width == width
                        &&& u.image_height == height
                        &&& forall|j: int| 0 <= j < u.mapped_photons@.len() ==> (#[trigger] u.mapped_photons@[j]).is_zero()
                    },
            decreases n_trace_units - i,
        {
            trace_units.push_back(Box::new(TraceUnit::new(i, width, height)));
            i = i + 1;
        }

        // Then build the plot units.
        let mut plot_units: VecDeque<Box<PlotUnit>> = VecDeque::new();
        let mut i: usize = 0;
        while i < n_plot_units
            invariant
                i <= n_plot_units,
                width * height * 3 <= usize::MAX,
                plot_units@.len() == i,
                forall|k: int|
                    0 <= k < plot_units@.len() ==> {
                        let p = *(#[trigger] plot_units@[k]);
                        &&& p.wf()
                        &&& p.id == k
                        &&& p.image_width == width
                        &&& p.image_height == height
                        &&& forall|j: int| 0 <= j < p.tristimulus_buffer@.len() ==> (#[trigger] p.tristimulus_buffer@[j]).is_zero()
                    },
            decreases n_plot_units - i,
        {
            plot_units.push_back(Box::new(PlotUnit::new(i, width, height)));
            i = i + 1;
        }

        // There must be one gather unit and one tonemap unit.
        let gather_unit = Some(Box::new(GatherUnit::new(width, height)));
        let tonemap_unit = Some(Box::new(TonemapUnit::new(width, height)));

        TaskScheduler {
            traces_completed: 0,
            performance: VecDeque::new(),
            number_of_trace_units: n_trace_units,
            available_trace_units: trace_units,
            done_trace_units: VecDeque::new(),
            available_plot_units: plot_units,
            done_plot_units: VecDeque::new(),
            gather_unit,
            tonemap_unit,
            last_tonemap_ms: now_ms,
            image_changed: false,
        }
    }

    /// Retires the completed task and hands out the next one, reading the
    /// wall clock for the periodic-tonemap decision. The callers invoke it
    /// both to report a just-finished task and to request the next one; the
    /// very first call passes a placeholder `Sleep` completion.
    pub fn get_new_task(&mut self, completed_task: Task) -> (t: Task)
        requires
            wf(old(self)@),
        ensures
            wf(final(self)@),
            exists|now: int|
                {
                    &&& #[trigger] step(old(self)@, completed_task@, now) == (
                        final(self)@,
                        t@,
                    )
                },
    {
        let now = now_millis();
        let t = self.get_new_task_at(completed_task, now);
        assert(step(old(self)@, completed_task@, now as int) == (final(self)@, t@));
        t
    }

    /// Retires the completed task and hands out the next one, with the
    /// current time given by the caller: the scheduler follows [`step`]
    /// exactly.
    pub fn get_new_task_at(&mut self, completed_task: Task, now_ms: i64) -> (t: Task)
        requires
            wf(old(self)@),
        ensures
            wf(final(self)@),
            step(old(self)@, completed_task@, now_ms as int) == (final(self)@, t@),
    {
        // Make the units that were used by the completed task available
        // again.
        self.complete_task(completed_task, now_ms);

        // If the last tonemapping time was more than x seconds ago, an
        // update should be done.
        if (now_ms as i128) - (self.last_tonemap_ms as i128) > (TONEMAP_INTERVAL_MS as i128) {
            if self.image_changed {
                // If the image has changed since it was last tonemapped,
                // tonemap it now. Tonemapping can only be done if no
                // gathering and tonemapping are busy.
                if self.gather_unit.is_some() && self.tonemap_unit.is_some() {
                    return self.create_tonemap_task();
                }
            } else {
                // Otherwise, the plots must first be gathered; tonemapping
                // will happen once that is done.
                if self.gather_unit.is_some() && self.done_plot_units.len() > 0 {
                    return self.create_gather_task();
                }
            }
        }
        // If a substantial number of trace units is done, plot them first
        // so they can be recycled soon.
        if self.done_trace_units.len() > self.number_of_trace_units / 2
            && self.available_plot_units.len() > 0 {
            return self.create_plot_task();
        }
        // Then, if there are enough trace units available, go trace some
        // rays!
        if self.available_trace_units.len() > 0 {
            return self.create_trace_task();
        }
        // Otherwise, some trace units need to be plotted to make them
        // available again.
        if self.available_plot_units.len() > 0 && self.done_trace_units.len() > 0 {
            return self.create_plot_task();
        }
        // If no plot units are available, gather some plots to make the
        // plot units available again.
        if self.gather_unit.is_some() && self.done_plot_units.len() > 0 {
            return self.create_gather_task();
        }
        // If everything is locked in dependencies, simply wait a while for
        // units to become available.
        Task::Sleep
    }

    /// Hands out the first available trace unit.
    fn create_trace_task(&mut self) -> (t: Task)
        requires
            old(self)@.available_trace_units.len() > 0,
        ensures
            (final(self)@, t@) == spec_create_trace(old(self)@),
    {
        // Pick the first available trace unit, and use it for the task.
        // We know a unit is available, because this method would not have
        // been called otherwise.
        let trace_unit = match self.available_trace_units.pop_front() {
            Some(u) => u,
            None => unreached(),
        };
        let t = Task::Trace(trace_unit);
        assert(final(self)@ =~= spec_create_trace(old(self)@).0);
        assert(t@ =~= spec_create_trace(old(self)@).1);
        t
    }

    /// Hands out the first available plot unit with about half of the done
    /// trace units.
    fn create_plot_task(&mut self) -> (t: Task)
        requires
            old(self)@.available_plot_units.len() > 0,
            old(self)@.done_trace_units.len() > 0,
        ensures
            (final(self)@, t@) == spec_create_plot(old(self)@),
    {
        // Pick the first available plot unit, and use it for the task.
        let plot_unit = match self.available_plot_units.pop_front() {
            Some(p) => p,
            None => unreached(),
        };

        // Take about half of the done trace units along.
        let done = self.done_trace_units.len();
        let n: usize = if done / 2 < 1 {
            1
        } else {
            done / 2
        };

        // Have it plot the trace units which are done.
        let trace_units = self.done_trace_units.pop_front_iter(n);

        let ghost gn = plot_batch_size(old(self)@.done_trace_units.len() as int);
        assert(trace_units.items@.map_values(|u: Box<TraceUnit>| *u) =~= old(
            self,
        )@.done_trace_units.take(gn));
        assert(self.done_trace_units@.map_values(|u: Box<TraceUnit>| *u) =~= old(
            self,
        )@.done_trace_units.skip(gn));

        let t = Task::Plot(plot_unit, trace_units.items);
        assert(final(self)@ =~= spec_create_plot(old(self)@).0);
        assert(t@ =~= spec_create_plot(old(self)@).1);
        t
    }

    /// Hands out the gather unit with every done plot unit.
    fn create_gather_task(&mut self) -> (t: Task)
        requires
            old(self)@.gather_unit is Some,
        ensures
            (final(self)@, t@) == spec_create_gather(old(self)@),
    {
        // We know the gather unit is available, because this method would
        // not have been called otherwise.
        let gather_unit = match self.gather_unit.take() {
            Some(g) => g,
            None => unreached(),
        };

        // Have it gather all plot units which are done.
        let k = self.done_plot_units.len();
        let plot_units = self.done_plot_units.pop_front_iter(k);

        assert(plot_units.items@.map_values(|p: Box<PlotUnit>| *p) =~= old(
            self,
        )@.done_plot_units);
        assert(self.done_plot_units@.map_values(|p: Box<PlotUnit>| *p) =~= Seq::<
            PlotUnit,
        >::empty());

        let t = Task::Gather(gather_unit, plot_units.items);
        assert(final(self)@ =~= spec_create_gather(old(self)@).0);
        assert(t@ =~= spec_create_gather(old(self)@).1);
        t
    }

    /// Hands out the tonemap unit together with the gather unit.
    fn create_tonemap_task(&mut self) -> (t: Task)
        requires
            old(self)@.gather_unit is Some,
            old(self)@.tonemap_unit is Some,
        ensures
            (final(self)@, t@) == spec_create_tonemap(old(self)@),
    {
        // We know the units are available, because this method would not
        // have been called otherwise.
        let gather_unit = match self.gather_unit.take() {
            Some(g) => g,
            None => unreached(),
        };
        let tonemap_unit = match self.tonemap_unit.take() {
            Some(t) => t,
            None => unreached(),
        };

        let t = Task::Tonemap(tonemap_unit, gather_unit);
        assert(final(self)@ =~= spec_create_tonemap(old(self)@).0);
        assert(t@ =~= spec_create_tonemap(old(self)@).1);
        t
    }

    /// Makes resources used by the task available again.
    fn complete_task(&mut self, task: Task, now_ms: i64)
        requires
            wf(old(self)@),
        ensures
            wf(final(self)@),
            final(self)@ == retire(old(self)@, task@, now_ms as int),
    {
        match task {
            Task::Sleep => {},
            Task::Trace(unit) => self.complete_trace_task(unit),
            Task::Plot(unit, units) => self.complete_plot_task(unit, units),
            Task::Gather(unit, units) => self.complete_gather_task(unit, units),
            Task::Tonemap(t_unt, g_unt) => self.complete_tonemap_task(t_unt, g_unt, now_ms),
        }
    }

    /// The trace unit used for the task now needs plotting before it is
    /// available again.
    fn complete_trace_task(&mut self, trace_unit: Box<TraceUnit>)
        ensures
            final(self)@ == (SchedView {
                done_trace_units: old(self)@.done_trace_units.push(*trace_unit),
                traces_completed: if old(self)@.traces_completed < u32::MAX {
                    old(self)@.traces_completed + 1
                } else {
                    old(self)@.traces_completed
                },
                ..old(self)@
            }),
    {
        self.done_trace_units.push_back(trace_unit);

        // Keep statistics about performance.
        if self.traces_completed < u32::MAX {
            self.traces_completed = self.traces_completed + 1;
        }
        assert(final(self)@ =~= (SchedView {
            done_trace_units: old(self)@.done_trace_units.push(*trace_unit),
            traces_completed: if old(self)@.traces_completed < u32::MAX {
                old(self)@.traces_completed + 1
            } else {
                old(self)@.traces_completed
            },
            ..old(self)@
        }));
    }

    /// All trace units that were plotted can be used again now, and the
    /// plot unit that was used needs to be gathered before it can be used
    /// again.
    fn complete_plot_task(&mut self, plot_unit: Box<PlotUnit>, trace_units: Vec<Box<TraceUnit>>)
        ensures
            final(self)@ == (SchedView {
                available_trace_units: old(self)@.available_trace_units + trace_units@.map_values(
                    |u: Box<TraceUnit>| *u,
                ),
                done_plot_units: old(self)@.done_plot_units.push(*plot_unit),
                ..old(self)@
            }),
    {
        let mut units = trace_units;
        let ghost all = units@;
        let total = units.len();
        let mut i: usize = 0;
        // All trace units that were plotted, can be used again now.
        while units.len() > 0
            invariant
                all.len() == total,
                i + units@.len() == all.len(),
                units@ =~= all.skip(i as int),
                self.available_trace_units@ =~= old(self).available_trace_units@ + all.take(
                    i as int,
                ),
                self.done_trace_units@ == old(self).done_trace_units@,
                self.available_plot_units@ == old(self).available_plot_units@,
                self.done_plot_units@ == old(self).done_plot_units@,
                self.gather_unit == old(self).gather_unit,
                self.tonemap_unit == old(self).tonemap_unit,
                self.traces_completed == old(self).traces_completed,
                self.performance == old(self).performance,
                self.number_of_trace_units == old(self).number_of_trace_units,
                self.last_tonemap_ms == old(self).last_tonemap_ms,
                self.image_changed == old(self).image_changed,
            decreases units@.len(),
    {
            let unit = units.remove(0);
            assert(unit == all[i as int]);
            self.available_trace_units.push_back(unit);
            assert(self.available_trace_units@ =~= old(self).available_trace_units@ + all.take(
                i as int + 1,
            ));
            i = i + 1;
        }
        assert(all.take(i as int) =~= all);

        // And the plot unit that was used, needs to be gathered before it
        // can be used again.
        self.done_plot_units.push_back(plot_unit);
        assert(self.available_trace_units@.map_values(|u: Box<TraceUnit>| *u) =~= old(
            self,
        )@.available_trace_units + trace_units@.map_values(|u: Box<TraceUnit>| *u));
        assert(final(self)@ =~= (SchedView {
            available_trace_units: old(self)@.available_trace_units + trace_units@.map_values(
                |u: Box<TraceUnit>| *u,
            ),
            done_plot_units: old(self)@.done_plot_units.push(*plot_unit),
            ..old(self)@
        }));
    }

    /// All plot units that were gathered can be used again now, the gather
    /// unit returns to its slot, and the image must have changed because of
    /// gathering.
    fn complete_gather_task(&mut self, gather_unit: Box<GatherUnit>, plot_units: Vec<Box<PlotUnit>>)
        ensures
            final(self)@ == (SchedView {
                available_plot_units: old(self)@.available_plot_units + plot_units@.map_values(
                    |p: Box<PlotUnit>| *p,
                ),
                gather_unit: Some(*gather_unit),
                image_changed: true,
                ..old(self)@
            }),
    {
        let mut units = plot_units;
        let ghost all = units@;
        let total = units.len();
        let mut i: usize = 0;
        // All plot units that were gathered, can be used again now.
        while units.len() > 0
            invariant
                all.len() == total,
                i + units@.len() == all.len(),
                units@ =~= all.skip(i as int),
                self.available_plot_units@ =~= old(self).available_plot_units@ + all.take(i as int),
                self.done_trace_units@ == old(self).done_trace_units@,
                self.available_trace_units@ == old(self).available_trace_units@,
                self.done_plot_units@ == old(self).done_plot_units@,
                self.gather_unit == old(self).gather_unit,
                self.tonemap_unit == old(self).tonemap_unit,
                self.traces_completed == old(self).traces_completed,
                self.performance == old(self).performance,
                self.number_of_trace_units == old(self).number_of_trace_units,
                self.last_tonemap_ms == old(self).last_tonemap_ms,
                self.image_changed == old(self).image_changed,
            decreases units@.len(),
    {
            let unit = units.remove(0);
            assert(unit == all[i as int]);
            self.available_plot_units.push_back(unit);
            assert(self.available_plot_units@ =~= old(self).available_plot_units@ + all.take(
                i as int + 1,
            ));
            i = i + 1;
        }
        assert(all.take(i as int) =~= all);

        // The gather unit can now be used again as well.
        self.gather_unit = Some(gather_unit);

        // The image must have changed because of gathering.
        self.image_changed = true;
        assert(self.available_plot_units@.map_values(|p: Box<PlotUnit>| *p) =~= old(
            self,
        )@.available_plot_units + plot_units@.map_values(|p: Box<PlotUnit>| *p));
        assert(final(self)@ =~= (SchedView {
            available_plot_units: old(self)@.available_plot_units + plot_units@.map_values(
                |p: Box<PlotUnit>| *p,
            ),
            gather_unit: Some(*gather_unit),
            image_changed: true,
            ..old(self)@
        }));
    }

    /// Both slots refill, the change flag clears, and the throughput of the
    /// closed interval enters the rolling window.
    fn complete_tonemap_task(
        &mut self,
        tonemap_unit: Box<TonemapUnit>,
        gather_unit: Box<GatherUnit>,
        now_ms: i64,
    )
        requires
            wf(old(self)@),
        ensures
            wf(final(self)@),
            final(self)@ == retire_tonemap(old(self)@, *tonemap_unit, *gather_unit, now_ms as int),
    {
        // The tonemapper needed the gather unit, so the gather unit is free
        // now, and of course the tonemap unit itself is available again.
        self.gather_unit = Some(gather_unit);
        self.tonemap_unit = Some(tonemap_unit);

        // The image is tonemapped now, so until a new gathering happens, it
        // will not change.
        self.image_changed = false;

        // Measure how many trace batches per second the renderer handled
        // since the last tonemap.
        let elapsed: i128 = (now_ms as i128) - (self.last_tonemap_ms as i128);
        let elapsed_clamped: i128 = if elapsed >= 1 {
            elapsed
        } else {
            1
        };
        let rate_wide: i128 = (self.traces_completed as i128) * 1_000_000 / elapsed_clamped;
        let rate: u64 = rate_wide as u64;
        assert(rate == throughput_rate(old(self)@.traces_completed, now_ms - old(
            self,
        )@.last_tonemap_ms));
        self.last_tonemap_ms = now_ms;
        self.traces_completed = 0;

        // Store the latest measurements in the rolling window.
        self.performance.push_back(rate);
        if self.performance.len() > PERFORMANCE_WINDOW {
            let _ = self.performance.pop_front();
        }

        assert(final(self)@ =~= retire_tonemap(
            old(self)@,
            *tonemap_unit,
            *gather_unit,
            now_ms as int,
        ));
    }

    /// Applies a persisted snapshot to the gather unit waiting in its
    /// slot, so an earlier render resumes where it left off. Nothing
    /// happens — and `false` comes back — when the unit is in flight, when
    /// the snapshot's length does not match the canvas, or when the unit's
    /// two buffers disagree in size.
    pub fn restore_gather(&mut self, bytes: &Vec<u8>) -> (applied: bool)
        ensures
            same_but_gather(final(self)@, old(self)@),
            wf(old(self)@) ==> wf(final(self)@),
            !applied ==> final(self)@ == old(self)@,
            applied <==> (old(self)@.gather_unit is Some && old(
                self,
            )@.gather_unit.unwrap().wf() && bytes@.len() == 24 * old(
                self,
            )@.gather_unit.unwrap().tristimulus_buffer@.len()),
            applied ==> final(self)@.gather_unit is Some,
            applied ==> final(self)@.gather_unit.unwrap().tristimulus_buffer@
                =~= crate::gather_unit::decoded_buffer(
                bytes@,
                old(self)@.gather_unit.unwrap().tristimulus_buffer@.len(),
            ),
            applied ==> final(self)@.gather_unit.unwrap().compensation_buffer@
                =~= crate::gather_unit::decoded_buffer(
                bytes@.skip(12 * old(self)@.gather_unit.unwrap().tristimulus_buffer@.len() as int),
                old(self)@.gather_unit.unwrap().tristimulus_buffer@.len(),
            ),
    {
        match &mut self.gather_unit {
            Some(g) => g.restore_from_bytes(bytes),
            None => false,
        }
    }

    /// The mean and variance of the rolling throughput window, in
    /// thousandths of a trace batch per second (and its square). An empty
    /// window reports zero for both; [`crate::stats::isqrt`] turns the
    /// variance into a standard deviation for display.
    pub fn performance_stats(&self) -> (r: (u64, u128))
        requires
            wf(self@),
        ensures
            r.0 == crate::stats::window_mean(self@.performance),
            r.1 == crate::stats::window_variance(self@.performance),
    {
        proof {
            assert(self@.performance =~= crate::stats::window_view(self.performance@));
            assert forall|i: int| 0 <= i < self.performance@.len() implies #[trigger] self.performance@[i]
                < 0x10_0000_0000_0000 by {
                assert(self@.performance[i] == self.performance@[i] as int);
            }
        }
        let n = self.performance.len();
        if n == 0 {
            return (0, 0);
        }
        let sums = crate::stats::window_sums(&self.performance);
        proof {
            crate::stats::lemma_window_sum_bounds(self@.performance, PERFORMANCE_BOUND as int);
            assert(self@.performance.len() * (PERFORMANCE_BOUND as int) <= 512 * (
            PERFORMANCE_BOUND as int)) by (nonlinear_arith)
                requires
                    self@.performance.len() <= 512,
            ;
        }
        let mean: u128 = sums.0 / (n as u128);
        let sqr_mean: u128 = sums.1 / (n as u128);
        proof {
            vstd::arithmetic::div_mod::lemma_div_nonincreasing(sums.0 as int, n as int);
            assert(mean * mean <= u128::MAX) by (nonlinear_arith)
                requires
                    0 <= mean <= 0x2000_0000_0000_0000,
            ;
        }
        let var: u128 = if sqr_mean >= mean * mean {
            sqr_mean - mean * mean
        } else {
            0
        };
        (mean as u64, var)
    }
}

} // verus!
