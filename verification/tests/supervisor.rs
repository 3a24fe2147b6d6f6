use screen_watch::supervisor::{NotifyState, NotifyStateResponse};

fn owned(items: &[&str]) -> Vec<String> {
    items.iter().map(|s| s.to_string()).collect()
}

#[test]
fn nothing_runs_at_startup() {
    let state = NotifyState::new();
    assert_eq!(state.is_notifying(), NotifyStateResponse { is_running: false });
}

#[test]
fn start_spawns_a_loop_and_reports_running() {
    let mut state = NotifyState::new();
    let started = state.start_notifying(owned(&["Enter Dungeon"]));
    assert_eq!(started.response, NotifyStateResponse { is_running: true });
    let detection = started.spawn.unwrap();
    assert_eq!(detection.phrases(), &owned(&["Enter Dungeon"]));
    assert!(!detection.is_stopped());
    assert!(state.is_notifying().is_running);
}

#[test]
fn starting_twice_spawns_one_loop() {
    let mut state = NotifyState::new();
    let first = state.start_notifying(owned(&["Enter Dungeon"]));
    let second = state.start_notifying(owned(&["Game Over"]));
    assert!(first.response.is_running);
    assert!(second.response.is_running);
    assert!(first.spawn.is_some());
    assert!(second.spawn.is_none());
    assert!(state.is_notifying().is_running);
    assert_eq!(first.spawn.unwrap().phrases(), &owned(&["Enter Dungeon"]));
}

#[test]
fn stopping_when_idle_changes_nothing() {
    let state = NotifyState::new();
    let stopped = state.stop_notifying();
    assert_eq!(stopped.response, NotifyStateResponse { is_running: false });
    assert!(!stopped.cancel);
    assert!(!state.is_notifying().is_running);
    let again = state.stop_notifying();
    assert!(!again.response.is_running);
    assert!(!again.cancel);
}

#[test]
fn stopping_a_running_loop_orders_the_cancellation() {
    let mut state = NotifyState::new();
    state.start_notifying(owned(&["Enter Dungeon"]));
    let stopped = state.stop_notifying();
    assert_eq!(stopped.response, NotifyStateResponse { is_running: false });
    assert!(stopped.cancel);
}

#[test]
fn the_loop_counts_as_running_until_it_has_left() {
    let mut state = NotifyState::new();
    state.start_notifying(owned(&["Enter Dungeon"]));
    state.stop_notifying();
    assert!(state.is_notifying().is_running);
    state.loop_exited();
    assert!(!state.is_notifying().is_running);
}

#[test]
fn a_start_before_the_loop_has_left_spawns_nothing() {
    let mut state = NotifyState::new();
    state.start_notifying(owned(&["Enter Dungeon"]));
    assert!(state.stop_notifying().cancel);
    let started = state.start_notifying(owned(&["Game Over"]));
    assert!(started.response.is_running);
    assert!(started.spawn.is_none());
}

#[test]
fn a_start_after_the_loop_has_left_spawns_again() {
    let mut state = NotifyState::new();
    state.start_notifying(owned(&["Enter Dungeon"]));
    state.stop_notifying();
    state.loop_exited();
    let started = state.start_notifying(owned(&["Game Over"]));
    assert!(started.response.is_running);
    assert_eq!(started.spawn.unwrap().phrases(), &owned(&["Game Over"]));
    assert!(state.is_notifying().is_running);
}

#[test]
fn starting_without_phrases_still_starts() {
    let mut state = NotifyState::new();
    let started = state.start_notifying(Vec::new());
    assert!(started.response.is_running);
    assert_eq!(started.spawn.unwrap().phrases(), &Vec::<String>::new());
}
