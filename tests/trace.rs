use rt_in_one_weekend::trace::{trace_step, TraceAction, TraceEvent};

const EVENTS: [TraceEvent; 4] =
    [TraceEvent::Start, TraceEvent::Miss, TraceEvent::Absorbed, TraceEvent::Scattered];

#[test]
fn no_depth_left_is_black_without_query() {
    for e in EVENTS {
        assert_eq!(trace_step(0, e), TraceAction::Black);
    }
}

#[test]
fn start_queries_the_scene() {
    assert_eq!(trace_step(20, TraceEvent::Start), TraceAction::QueryScene);
    assert_eq!(trace_step(1, TraceEvent::Start), TraceAction::QueryScene);
}

#[test]
fn miss_shows_the_sky() {
    assert_eq!(trace_step(3, TraceEvent::Miss), TraceAction::Sky);
}

#[test]
fn absorbed_ray_is_black() {
    assert_eq!(trace_step(3, TraceEvent::Absorbed), TraceAction::Black);
}

#[test]
fn scattered_ray_recurses_with_one_bounce_less() {
    assert_eq!(trace_step(20, TraceEvent::Scattered), TraceAction::Recurse { depth: 19 });
    assert_eq!(trace_step(1, TraceEvent::Scattered), TraceAction::Recurse { depth: 0 });
    assert_eq!(trace_step(u32::MAX, TraceEvent::Scattered), TraceAction::Recurse { depth: u32::MAX - 1 });
}

#[test]
fn always_scattering_trace_queries_depth_times() {
    let mut depth: u32 = 5;
    let mut queries = 0;
    loop {
        match trace_step(depth, TraceEvent::Start) {
            TraceAction::QueryScene => queries += 1,
            other => {
                assert_eq!(other, TraceAction::Black);
                break;
            }
        }
        match trace_step(depth, TraceEvent::Scattered) {
            TraceAction::Recurse { depth: d } => depth = d,
            other => panic!("unexpected {:?}", other),
        }
    }
    assert_eq!(queries, 5);
}
