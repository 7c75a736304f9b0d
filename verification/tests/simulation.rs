use antology::control::{handle_event, Action, SimEvent};
use antology::geometry::{dist2_i64, step_toward, Point, COORD_LIMIT};
use antology::world::{World, Worker};

fn world_with(workers: Vec<Point>, speed: i64) -> World {
    let queen = Point { x: 0, y: 0 };
    World::new(queen, &workers, speed)
}

#[test]
fn squared_distance_exact() {
    let a = Point { x: 3, y: 4 };
    let origin = Point { x: 0, y: 0 };
    assert_eq!(dist2_i64(a, origin), 25);
    assert_eq!(dist2_i64(origin, a), 25);
    assert_eq!(dist2_i64(a, a), 0);
    let far = Point { x: COORD_LIMIT, y: COORD_LIMIT };
    let opposite = Point {
        x: -COORD_LIMIT,
        y: -COORD_LIMIT,
    };
    // The largest possible squared distance still fits in an i64.
    assert_eq!(dist2_i64(far, opposite), 8 * COORD_LIMIT * COORD_LIMIT);
}

#[test]
fn step_moves_by_capped_amount() {
    let from = Point { x: 0, y: 0 };
    let to = Point { x: 10, y: 0 };
    assert_eq!(step_toward(from, to, 3), Point { x: 3, y: 0 });
    assert_eq!(step_toward(from, to, 10), to);
    assert_eq!(step_toward(from, to, 100), to);
}

#[test]
fn step_snaps_onto_a_near_target() {
    let to = Point { x: 10, y: 0 };
    assert_eq!(step_toward(Point { x: 9, y: -2 }, to, 3), to);
    assert_eq!(step_toward(to, to, 3), to);
}

#[test]
fn step_handles_each_axis_direction() {
    let from = Point { x: 5, y: -5 };
    let to = Point { x: -20, y: 20 };
    assert_eq!(step_toward(from, to, 4), Point { x: 1, y: -1 });
    let back = step_toward(to, from, 4);
    assert_eq!(back, Point { x: -16, y: 16 });
}

#[test]
fn new_world_is_all_idle() {
    let w = world_with(vec![Point { x: 1, y: 2 }, Point { x: 3, y: 4 }], 2);
    assert_eq!(w.worker_count(), 2);
    assert_eq!(
        w.worker_at(0),
        Worker {
            pos: Point { x: 1, y: 2 },
            dest: None
        }
    );
    assert_eq!(
        w.worker_at(1),
        Worker {
            pos: Point { x: 3, y: 4 },
            dest: None
        }
    );
    assert!(w.transit_segments().is_empty());
}

#[test]
fn nearest_idle_picks_the_closest_worker() {
    let w = world_with(
        vec![
            Point { x: 0, y: 0 },
            Point { x: 100, y: 0 },
            Point { x: 5, y: 5 },
        ],
        2,
    );
    assert_eq!(w.nearest_idle(Point { x: 6, y: 6 }), Some(2));
    assert_eq!(w.nearest_idle(Point { x: 90, y: 0 }), Some(1));
    assert_eq!(w.nearest_idle(Point { x: -1, y: 0 }), Some(0));
}

#[test]
fn nearest_idle_prefers_the_lowest_index_on_ties() {
    let w = world_with(vec![Point { x: 2, y: 0 }, Point { x: -2, y: 0 }], 2);
    assert_eq!(w.nearest_idle(Point { x: 0, y: 0 }), Some(0));
}

#[test]
fn nearest_idle_skips_travelling_workers() {
    let mut w = world_with(vec![Point { x: 0, y: 0 }, Point { x: 100, y: 100 }], 2);
    let click = Point { x: 1, y: 1 };
    w.assign_target(click);
    assert_eq!(w.worker_at(0).dest, Some(click));
    // The nearest worker is now busy, so the far one is chosen.
    assert_eq!(w.nearest_idle(Point { x: 2, y: 2 }), Some(1));
}

#[test]
fn nearest_idle_is_none_when_everyone_travels() {
    let mut w = world_with(vec![Point { x: 0, y: 0 }], 2);
    w.assign_target(Point { x: 50, y: 0 });
    assert_eq!(w.nearest_idle(Point { x: 0, y: 0 }), None);
    let empty = world_with(vec![], 2);
    assert_eq!(empty.nearest_idle(Point { x: 0, y: 0 }), None);
}

#[test]
fn a_click_with_no_idle_worker_changes_nothing() {
    let mut w = world_with(vec![Point { x: 0, y: 0 }], 2);
    let first = Point { x: 10, y: 0 };
    w.assign_target(first);
    w.assign_target(Point { x: -10, y: 0 });
    assert_eq!(w.worker_at(0).dest, Some(first));
}

#[test]
fn a_worker_walks_to_its_destination_and_goes_idle() {
    let mut w = world_with(vec![Point { x: 0, y: 0 }], 3);
    w.assign_target(Point { x: 10, y: 0 });
    let expected_xs = [3, 6, 9, 10];
    for (k, x) in expected_xs.iter().enumerate() {
        w.tick();
        let worker = w.worker_at(0);
        assert_eq!(worker.pos, Point { x: *x, y: 0 });
        let arrived = k == expected_xs.len() - 1;
        assert_eq!(worker.dest.is_none(), arrived);
    }
    // Further ticks leave the idle worker in place.
    w.tick();
    assert_eq!(
        w.worker_at(0),
        Worker {
            pos: Point { x: 10, y: 0 },
            dest: None
        }
    );
}

#[test]
fn a_click_on_the_worker_itself_resolves_in_one_tick() {
    let spot = Point { x: 5, y: 5 };
    let mut w = world_with(vec![spot], 3);
    w.assign_target(spot);
    assert_eq!(w.worker_at(0).dest, Some(spot));
    w.tick();
    assert_eq!(w.worker_at(0), Worker { pos: spot, dest: None });
}

#[test]
fn transit_segments_lists_travelling_workers_in_order() {
    let mut w = world_with(
        vec![
            Point { x: 0, y: 0 },
            Point { x: 20, y: 0 },
            Point { x: 40, y: 0 },
        ],
        2,
    );
    let near_last = Point { x: 39, y: 0 };
    w.assign_target(near_last);
    let near_first = Point { x: 1, y: 0 };
    w.assign_target(near_first);
    let segments = w.transit_segments();
    assert_eq!(
        segments,
        vec![
            (Point { x: 0, y: 0 }, near_first),
            (Point { x: 40, y: 0 }, near_last),
        ]
    );
}

#[test]
fn close_and_escape_end_the_session() {
    let mut w = world_with(vec![Point { x: 0, y: 0 }], 2);
    assert_eq!(handle_event(&mut w, SimEvent::CloseRequested), Action::Exit);
    assert_eq!(handle_event(&mut w, SimEvent::EscapePressed), Action::Exit);
    assert_eq!(w.worker_at(0).dest, None);
}

#[test]
fn other_events_keep_the_loop_running() {
    let mut w = world_with(vec![Point { x: 7, y: 7 }], 2);
    assert_eq!(handle_event(&mut w, SimEvent::Other), Action::Continue);
    assert_eq!(
        w.worker_at(0),
        Worker {
            pos: Point { x: 7, y: 7 },
            dest: None
        }
    );
}

#[test]
fn clicks_and_ticks_drive_the_simulation_through_events() {
    let mut w = world_with(vec![Point { x: 0, y: 0 }], 4);
    let click = SimEvent::Click(Point { x: 8, y: 0 });
    assert_eq!(handle_event(&mut w, click), Action::Continue);
    assert_eq!(handle_event(&mut w, SimEvent::FrameTick), Action::Continue);
    assert_eq!(w.worker_at(0).pos, Point { x: 4, y: 0 });
    assert_eq!(handle_event(&mut w, SimEvent::FrameTick), Action::Continue);
    assert_eq!(
        w.worker_at(0),
        Worker {
            pos: Point { x: 8, y: 0 },
            dest: None
        }
    );
}

#[test]
fn the_queen_never_moves() {
    let queen = Point { x: 11, y: 13 };
    let mut w = World::new(queen, &vec![Point { x: 0, y: 0 }], 2);
    handle_event(&mut w, SimEvent::Click(Point { x: 100, y: 100 }));
    handle_event(&mut w, SimEvent::FrameTick);
    handle_event(&mut w, SimEvent::FrameTick);
    assert_eq!(w.queen, queen);
}
