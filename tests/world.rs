use unrust_core::world::{ActorPair, FrameAction, LiveSet, World, WorldBuilder, FPS};

fn live(ids: &[u64]) -> LiveSet {
    let mut s = LiveSet::new();
    for &i in ids {
        s.insert(i);
    }
    s
}

fn world() -> World {
    WorldBuilder::new("test").build(0)
}

fn pair(object: u64, component: u64) -> ActorPair {
    ActorPair { object, component }
}

/// Runs one whole frame; returns the starts and updates asked for.
fn run_frame(w: &mut World, objects: &LiveSet, components: &LiveSet) -> Vec<FrameAction> {
    assert!(w.begin_frame());
    let mut calls = Vec::new();
    loop {
        match w.next_action(objects, components) {
            FrameAction::Done => break,
            FrameAction::Continue => {}
            a => calls.push(a),
        }
    }
    calls
}

#[test]
fn start_before_update() {
    let mut w = world();
    let (objs, comps) = (live(&[1]), live(&[10]));
    w.on_component_added(1, 10, true);
    let p = pair(1, 10);
    assert_eq!(run_frame(&mut w, &objs, &comps), vec![FrameAction::Start(p), FrameAction::Update(p)]);
    assert_eq!(run_frame(&mut w, &objs, &comps), vec![FrameAction::Update(p)]);
    assert_eq!(run_frame(&mut w, &objs, &comps), vec![FrameAction::Update(p)]);
}

#[test]
fn death_pruning() {
    let mut w = world();
    w.on_component_added(1, 10, true);
    w.on_component_added(2, 20, true);
    run_frame(&mut w, &live(&[1, 2]), &live(&[10, 20]));
    assert_eq!(w.live_actors(), &vec![pair(1, 10), pair(2, 20)]);
    // Component 10 is dropped between frames.
    let calls = run_frame(&mut w, &live(&[1, 2]), &live(&[20]));
    assert_eq!(calls, vec![FrameAction::Update(pair(2, 20))]);
    assert_eq!(w.live_actors(), &vec![pair(2, 20)]);
}

#[test]
fn dead_object_alone_keeps_actor_listed() {
    let mut w = world();
    w.on_component_added(1, 10, true);
    run_frame(&mut w, &live(&[1]), &live(&[10]));
    assert!(run_frame(&mut w, &live(&[]), &live(&[10])).is_empty());
    assert_eq!(w.live_actors(), &vec![pair(1, 10)]);
}

#[test]
fn late_registration() {
    let mut w = world();
    let (objs, comps) = (live(&[1, 2]), live(&[10, 20]));
    w.on_component_added(1, 10, true);
    assert!(w.begin_frame());
    let mut calls = Vec::new();
    loop {
        match w.next_action(&objs, &comps) {
            FrameAction::Done => break,
            FrameAction::Continue => {}
            a => {
                if let FrameAction::Update(_) = a {
                    // The actor adds another actor during its update.
                    w.on_component_added(2, 20, true);
                }
                calls.push(a);
            }
        }
    }
    assert_eq!(calls, vec![FrameAction::Start(pair(1, 10)), FrameAction::Update(pair(1, 10))]);
    assert_eq!(w.pending_actors(), &vec![pair(2, 20)]);
    let next = run_frame(&mut w, &objs, &comps);
    assert_eq!(
        next,
        vec![
            FrameAction::Start(pair(2, 20)),
            FrameAction::Update(pair(1, 10)),
            FrameAction::Update(pair(2, 20))
        ]
    );
}

#[test]
fn destroyed_before_start_is_dropped_silently() {
    let mut w = world();
    w.on_component_added(1, 10, true);
    w.on_component_added(2, 20, true);
    let calls = run_frame(&mut w, &live(&[2]), &live(&[10, 20]));
    assert_eq!(calls, vec![FrameAction::Start(pair(2, 20)), FrameAction::Update(pair(2, 20))]);
    assert!(w.pending_actors().is_empty());
    assert_eq!(w.live_actors(), &vec![pair(2, 20)]);
}

#[test]
fn begin_frame_twice_is_refused() {
    let mut w = world();
    assert!(w.begin_frame());
    assert!(!w.begin_frame());
    assert_eq!(w.next_action(&live(&[]), &live(&[])), FrameAction::Continue);
    assert_eq!(w.next_action(&live(&[]), &live(&[])), FrameAction::Done);
    assert_eq!(w.next_action(&live(&[]), &live(&[])), FrameAction::Done);
    assert!(w.begin_frame());
}

#[test]
fn non_actor_component_is_ignored() {
    let mut w = world();
    w.on_component_added(1, 10, false);
    assert!(w.pending_actors().is_empty());
}

#[test]
fn removal_drops_removed_and_dead_registrations() {
    let mut w = world();
    w.on_component_added(1, 10, true);
    w.on_component_added(1, 11, true);
    w.on_component_added(2, 20, true);
    // 11 is removed; 20 is already dead; 10 lives.
    w.on_component_removed(11, true, &live(&[10, 11]));
    assert_eq!(w.pending_actors(), &vec![pair(1, 10)]);
}

#[test]
fn removal_of_non_actor_changes_nothing() {
    let mut w = world();
    w.on_component_added(1, 10, true);
    w.on_component_removed(10, false, &live(&[]));
    assert_eq!(w.pending_actors(), &vec![pair(1, 10)]);
}

#[test]
fn reset_clears_actors_and_objects() {
    let mut w = world();
    let (objs, comps) = (live(&[1]), live(&[10]));
    w.on_component_added(1, 10, true);
    run_frame(&mut w, &objs, &comps);
    w.new_game_object(1);
    w.reset();
    assert!(w.live_actors().is_empty());
    assert!(w.game_objects().is_empty());
    assert!(run_frame(&mut w, &objs, &comps).is_empty());
}

#[test]
fn game_objects_register_and_remove() {
    let mut w = world();
    w.new_game_object(1);
    w.new_game_object(2);
    w.new_game_object(1);
    assert_eq!(w.game_objects(), &vec![1, 2, 1]);
    w.remove_game_object(1);
    w.remove_game_object(3);
    assert_eq!(w.game_objects(), &vec![2]);
}

#[test]
fn builder_defaults() {
    let b = WorldBuilder::new("demo");
    assert_eq!(b.title(), "demo");
    assert_eq!(b.size(), (800, 600));
    assert!(!b.shown_stats());
}

#[test]
fn builder_with_size_and_stats() {
    let b = WorldBuilder::new("demo").with_size((1024, 768)).with_stats(true);
    assert_eq!(b.size(), (1024, 768));
    assert!(b.shown_stats());
    assert_eq!(b.title(), "demo");
    let w = b.build(5);
    assert_eq!(w.size(), (1024, 768));
    assert!(w.shown_stats());
    assert_eq!(w.fps().fps, 0);
    assert!(w.pending_actors().is_empty());
}

#[test]
fn fps_publishes_after_a_second() {
    let mut f = FPS::new(0);
    f.step(500);
    f.step(1000);
    assert_eq!(f.fps, 0);
    f.step(1001);
    assert_eq!(f.fps, 3);
    f.step(1500);
    assert_eq!(f.fps, 3);
    f.step(2002);
    assert_eq!(f.fps, 2);
}

#[test]
fn world_counts_frames() {
    let mut w = world();
    w.count_frame(400);
    w.count_frame(1200);
    assert_eq!(w.fps().fps, 2);
}

#[test]
fn live_set_membership() {
    let s = live(&[3, 5]);
    assert!(s.contains(3));
    assert!(s.contains(5));
    assert!(!s.contains(4));
}

#[test]
fn registering_a_pending_pair_again_is_ignored() {
    let mut w = world();
    w.on_component_added(1, 10, true);
    w.on_component_added(1, 10, true);
    assert_eq!(w.pending_actors(), &vec![pair(1, 10)]);
}

#[test]
fn registering_a_live_pair_again_does_not_restart_it() {
    let mut w = world();
    let (objs, comps) = (live(&[1]), live(&[10]));
    w.on_component_added(1, 10, true);
    run_frame(&mut w, &objs, &comps);
    w.on_component_added(1, 10, true);
    assert!(w.pending_actors().is_empty());
    assert_eq!(run_frame(&mut w, &objs, &comps), vec![FrameAction::Update(pair(1, 10))]);
}

#[test]
fn registering_a_pair_waiting_to_start_is_ignored() {
    let mut w = world();
    let (objs, comps) = (live(&[1]), live(&[10]));
    w.on_component_added(1, 10, true);
    assert!(w.begin_frame());
    w.on_component_added(1, 10, true);
    assert!(w.pending_actors().is_empty());
    assert_eq!(w.next_action(&objs, &comps), FrameAction::Start(pair(1, 10)));
}

#[test]
fn registering_again_after_reset_starts_anew() {
    let mut w = world();
    let (objs, comps) = (live(&[1]), live(&[10]));
    w.on_component_added(1, 10, true);
    run_frame(&mut w, &objs, &comps);
    w.reset();
    w.on_component_added(1, 10, true);
    assert_eq!(
        run_frame(&mut w, &objs, &comps),
        vec![FrameAction::Start(pair(1, 10)), FrameAction::Update(pair(1, 10))]
    );
}
