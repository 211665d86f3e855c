use robigo_luculenta::task_scheduler::{Task, TaskScheduler, tonemap_interval};

fn trace_id(t: &Task) -> Option<usize> {
    match t {
        Task::Trace(u) => Some(u.id),
        _ => None,
    }
}

#[test]
fn interval_is_thirty_seconds() {
    assert_eq!(tonemap_interval(), 30_000);
}

#[test]
fn first_task_is_trace_with_id_zero() {
    let mut ts = TaskScheduler::new_at(1, 4, 4, 0);
    let t = ts.get_new_task_at(Task::Sleep, 0);
    assert_eq!(trace_id(&t), Some(0));
}

#[test]
fn trace_units_hand_out_in_order() {
    let mut ts = TaskScheduler::new_at(2, 4, 4, 0);
    // Completing Sleep returns nothing, so six consecutive requests drain
    // the trace pool in id order.
    for expected in 0..6 {
        let t = ts.get_new_task_at(Task::Sleep, 0);
        assert_eq!(trace_id(&t), Some(expected));
    }
    // The pool is empty and nothing is done: the scheduler must sleep.
    let t = ts.get_new_task_at(Task::Sleep, 0);
    assert!(matches!(t, Task::Sleep));
}

#[test]
fn plot_takes_half_of_done_trace_units() {
    let mut ts = TaskScheduler::new_at(2, 4, 4, 0);
    // Check out all six trace units.
    let mut traces = Vec::new();
    for _ in 0..6 {
        traces.push(ts.get_new_task_at(Task::Sleep, 0));
    }
    // Return five of them; the first four go to the done queue (no plot
    // fires while done <= 3 and a trace unit... none is available, and the
    // single plot unit picks work up as soon as a trace unit is done).
    // Returning the first gives done = 1, and with a plot unit available
    // the scheduler assembles a plot task of max(1, 1/2) = 1 unit.
    let t0 = traces.remove(0);
    let t = ts.get_new_task_at(t0, 0);
    match t {
        Task::Plot(p, units) => {
            assert_eq!(p.id, 0);
            assert_eq!(units.len(), 1);
            assert_eq!(units[0].id, 0);
            // Return the plot task; its trace unit becomes available again.
            let t = ts.get_new_task_at(Task::Plot(p, units), 0);
            assert_eq!(trace_id(&t), Some(0));
        }
        _ => panic!("expected a plot task"),
    }
}

#[test]
fn plot_batch_is_half_when_queue_is_long() {
    let mut ts = TaskScheduler::new_at(2, 4, 4, 0);
    let mut traces = Vec::new();
    for _ in 0..6 {
        traces.push(ts.get_new_task_at(Task::Sleep, 0));
    }
    // Return the first trace unit: with the single plot unit available the
    // scheduler assembles a plot of max(1, 1/2) = 1 unit.
    let first = traces.remove(0);
    let plot_task = ts.get_new_task_at(first, 0);
    let (plot_unit, batch) = match plot_task {
        Task::Plot(p, units) => (p, units),
        _ => panic!("expected a plot task"),
    };
    assert_eq!(batch.len(), 1);
    // With the plot unit in flight, returned trace units pile up as done.
    for _ in 0..3 {
        let back = traces.remove(0);
        let t = ts.get_new_task_at(back, 0);
        assert!(matches!(t, Task::Sleep));
    }
    // Done queue now holds ids 1, 2, 3. Returning the plot task frees its
    // trace unit (id 0); done trace units (3) do not exceed half the pool
    // (3), so the freed trace unit is handed out first.
    let t = ts.get_new_task_at(Task::Plot(plot_unit, batch), 0);
    assert_eq!(trace_id(&t), Some(0));
    // Returning it makes done = 4 > 3, but the plot unit sits in the
    // done-plot queue, so a gather must free it first.
    let t = ts.get_new_task_at(t, 0);
    let gather = match t {
        Task::Gather(g, plots) => {
            assert_eq!(plots.len(), 1);
            Task::Gather(g, plots)
        }
        other => panic!("expected a gather task, got {}", kind_name(&other)),
    };
    // With the plot unit back, backpressure fires and the plot batch is
    // max(1, 4/2) = 2, oldest first.
    let t = ts.get_new_task_at(gather, 0);
    match t {
        Task::Plot(p, units) => {
            assert_eq!(p.id, 0);
            let ids: Vec<usize> = units.iter().map(|u| u.id).collect();
            assert_eq!(ids, vec![1, 2]);
        }
        other => panic!("expected a plot task, got {}", kind_name(&other)),
    }
}

#[test]
fn gather_drains_every_done_plot_unit() {
    let mut ts = TaskScheduler::new_at(4, 4, 4, 0);
    // Twelve trace units, two plot units. Check out every trace unit.
    let mut traces = Vec::new();
    for _ in 0..12 {
        traces.push(ts.get_new_task_at(Task::Sleep, 0));
    }
    // Drive both plot units into the done-plot queue: each returned trace
    // unit is picked up by an available plot unit at once.
    let back = traces.remove(0);
    let plot1 = ts.get_new_task_at(back, 0);
    assert!(matches!(plot1, Task::Plot(_, _)));
    let back = traces.remove(0);
    let plot2 = ts.get_new_task_at(back, 0);
    assert!(matches!(plot2, Task::Plot(_, _)));
    // Returning each plot task frees a trace unit, which is handed right
    // back out; keep those aside.
    let t1 = ts.get_new_task_at(plot1, 0);
    assert!(matches!(t1, Task::Trace(_)));
    let t2 = ts.get_new_task_at(plot2, 0);
    assert!(matches!(t2, Task::Trace(_)));
    // Both canvases are now done. Past the tonemap interval with an
    // unchanged image, the scheduler gathers — and takes both canvases,
    // oldest first.
    let later = tonemap_interval() as i64 + 1;
    let t = ts.get_new_task_at(Task::Sleep, later);
    match t {
        Task::Gather(_, plots) => {
            let ids: Vec<usize> = plots.iter().map(|p| p.id).collect();
            assert_eq!(ids, vec![0, 1]);
        }
        other => panic!("expected a gather task, got {}", kind_name(&other)),
    }
}

fn kind_name(t: &Task) -> &'static str {
    match t {
        Task::Sleep => "sleep",
        Task::Trace(_) => "trace",
        Task::Plot(_, _) => "plot",
        Task::Gather(_, _) => "gather",
        Task::Tonemap(_, _) => "tonemap",
    }
}

#[test]
fn tonemap_follows_gather_and_resets_the_clock() {
    let mut ts = TaskScheduler::new_at(1, 4, 4, 0);
    // Check out all three trace units, then return one: with no trace unit
    // available, the returned one is plotted at once.
    let trace = ts.get_new_task_at(Task::Sleep, 0);
    let _t1 = ts.get_new_task_at(Task::Sleep, 0);
    let _t2 = ts.get_new_task_at(Task::Sleep, 0);
    assert!(matches!(trace, Task::Trace(_)));
    let plot = ts.get_new_task_at(trace, 0);
    assert!(matches!(plot, Task::Plot(_, _)));
    // Past the interval, with the image unchanged, the scheduler gathers.
    let later = tonemap_interval() as i64 + 1;
    let gather = ts.get_new_task_at(plot, later);
    assert!(matches!(gather, Task::Gather(_, _)));
    // Completing the gather marks the image changed; the next request past
    // the interval tonemaps.
    let tonemap = ts.get_new_task_at(gather, later);
    assert!(matches!(tonemap, Task::Tonemap(_, _)));
    // Completing the tonemap records a throughput measurement: one trace
    // batch over `later` milliseconds, in thousandths of a batch per
    // second.
    let t = ts.get_new_task_at(tonemap, later);
    assert!(matches!(t, Task::Trace(_)));
    let (mean, variance) = ts.performance_stats();
    let expected = 1_000_000u64 / (later as u64);
    assert_eq!(mean, expected);
    assert_eq!(variance, 0);
}

#[test]
fn two_interval_statistics() {
    let mut ts = TaskScheduler::new_at(1, 4, 4, 0);
    // First interval: one trace batch over 40 seconds.
    let tr0 = ts.get_new_task_at(Task::Sleep, 0);
    let t1 = ts.get_new_task_at(Task::Sleep, 0);
    let t2 = ts.get_new_task_at(Task::Sleep, 0);
    let plot = ts.get_new_task_at(tr0, 0);
    assert!(matches!(plot, Task::Plot(_, _)));
    let gather = ts.get_new_task_at(plot, 40_000);
    assert!(matches!(gather, Task::Gather(_, _)));
    let tonemap = ts.get_new_task_at(gather, 40_000);
    assert!(matches!(tonemap, Task::Tonemap(_, _)));
    let tr0 = ts.get_new_task_at(tonemap, 40_000);
    assert!(matches!(tr0, Task::Trace(_)));
    // One batch over 40 s is 25 thousandths of a batch per second.
    assert_eq!(ts.performance_stats(), (25, 0));

    // Second interval: three trace batches over 50 seconds.
    let plot = ts.get_new_task_at(t1, 40_000);
    assert!(matches!(plot, Task::Plot(_, _)));
    let t = ts.get_new_task_at(t2, 40_000);
    assert!(matches!(t, Task::Sleep));
    let t = ts.get_new_task_at(tr0, 40_000);
    assert!(matches!(t, Task::Sleep));
    let gather = ts.get_new_task_at(plot, 90_000);
    assert!(matches!(gather, Task::Gather(_, _)));
    let tonemap = ts.get_new_task_at(gather, 90_000);
    assert!(matches!(tonemap, Task::Tonemap(_, _)));
    let t = ts.get_new_task_at(tonemap, 90_000);
    assert!(matches!(t, Task::Plot(_, _)));
    // Three batches over 50 s is 60; the window holds [25, 60], whose
    // floored mean is 42 and floored variance (625 + 3600) / 2 - 42 * 42.
    assert_eq!(ts.performance_stats(), (42, 348));
}

#[test]
fn stats_are_zero_before_any_tonemap() {
    let ts = TaskScheduler::new_at(1, 4, 4, 0);
    assert_eq!(ts.performance_stats(), (0, 0));
}

#[test]
fn long_run_produces_a_tonemap_and_conserves_ids() {
    // Drive a single worker for fifty cycles on a 4x4 canvas with
    // concurrency 1, feeding every finished task straight back and letting
    // the wall clock advance past the tonemap interval repeatedly.
    let mut ts = TaskScheduler::new_at(1, 4, 4, 0);
    let mut task = Task::Sleep;
    let mut now: i64 = 0;
    let mut saw_tonemap = false;
    let mut saw_gather = false;
    let mut saw_plot = false;
    let mut saw_trace = false;
    let mut sleeps: u32 = 0;
    for _ in 0..50 {
        now += 20_000;
        task = ts.get_new_task_at(task, now);
        match &task {
            Task::Sleep => sleeps += 1,
            Task::Trace(u) => {
                saw_trace = true;
                assert!(u.id < 3);
            }
            Task::Plot(p, units) => {
                saw_plot = true;
                assert_eq!(p.id, 0);
                for u in units {
                    assert!(u.id < 3);
                }
            }
            Task::Gather(_, plots) => {
                saw_gather = true;
                for p in plots {
                    assert_eq!(p.id, 0);
                }
            }
            Task::Tonemap(_, _) => saw_tonemap = true,
        }
    }
    assert!(saw_trace);
    assert!(saw_plot);
    assert!(saw_gather);
    assert!(saw_tonemap);
    // With a single worker returning every task at once, something is
    // always actionable: the scheduler never had to sleep.
    assert_eq!(sleeps, 0);
}

#[test]
fn restore_gather_applies_only_matching_snapshots() {
    let mut ts = TaskScheduler::new_at(1, 2, 2, 0);
    // 2x2 canvas: the snapshot is 2 buffers * 4 pixels * 12 bytes.
    let good = vec![7u8; 96];
    let bad = vec![7u8; 95];
    assert!(!ts.restore_gather(&bad));
    assert!(ts.restore_gather(&good));
}
