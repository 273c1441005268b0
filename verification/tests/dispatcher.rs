use docker_manager::dispatcher::{Dispatcher, RebuildOutcome};
use docker_manager::log_store::LogStore;

fn s(text: &str) -> String {
    text.to_string()
}

fn failed(reason: &str) -> RebuildOutcome {
    RebuildOutcome::Failed { reason: reason.to_string() }
}

#[test]
fn new_dispatcher_is_idle() {
    let dispatcher = Dispatcher::new();
    assert!(!dispatcher.is_busy());
    assert_eq!(dispatcher.queued(), 0);
}

#[test]
fn submit_to_idle_dispatcher_starts_the_rebuild() {
    let mut dispatcher = Dispatcher::new();
    let mut log = LogStore::new();
    let start = dispatcher.submit(s("a.txt"), &mut log);
    assert_eq!(start, Some(s("a.txt")));
    assert!(dispatcher.is_busy());
    assert_eq!(dispatcher.queued(), 0);
    assert_eq!(
        log.snapshot(),
        vec![s("File change detected: a.txt"), s("Rebuilding and restarting containers...")]
    );
}

#[test]
fn submit_to_busy_dispatcher_queues_the_trigger() {
    let mut dispatcher = Dispatcher::new();
    let mut log = LogStore::new();
    dispatcher.submit(s("a.txt"), &mut log);
    let start = dispatcher.submit(s("b.txt"), &mut log);
    assert_eq!(start, None);
    assert!(dispatcher.is_busy());
    assert_eq!(dispatcher.queued(), 1);
    assert_eq!(
        log.snapshot(),
        vec![
            s("File change detected: a.txt"),
            s("Rebuilding and restarting containers..."),
            s("File change detected: b.txt"),
        ]
    );
}

#[test]
fn complete_logs_success_and_goes_idle() {
    let mut dispatcher = Dispatcher::new();
    let mut log = LogStore::new();
    dispatcher.submit(s("a.txt"), &mut log);
    let next = dispatcher.complete(RebuildOutcome::Succeeded, &mut log);
    assert_eq!(next, None);
    assert!(!dispatcher.is_busy());
    assert_eq!(log.len(), 3);
    assert_eq!(log.snapshot()[2], s("Containers have been restarted."));
}

#[test]
fn complete_logs_failure_with_its_reason() {
    let mut dispatcher = Dispatcher::new();
    let mut log = LogStore::new();
    dispatcher.submit(s("a.txt"), &mut log);
    let next = dispatcher.complete(failed("Command failed"), &mut log);
    assert_eq!(next, None);
    assert!(!dispatcher.is_busy());
    assert_eq!(log.snapshot()[2], s("Error during build: Command failed"));
}

#[test]
fn queued_triggers_start_one_by_one_in_arrival_order() {
    let mut dispatcher = Dispatcher::new();
    let mut log = LogStore::new();
    assert_eq!(dispatcher.submit(s("a.txt"), &mut log), Some(s("a.txt")));
    assert_eq!(dispatcher.submit(s("b.txt"), &mut log), None);
    assert_eq!(dispatcher.submit(s("c.txt"), &mut log), None);
    assert_eq!(dispatcher.queued(), 2);

    assert_eq!(dispatcher.complete(RebuildOutcome::Succeeded, &mut log), Some(s("b.txt")));
    assert!(dispatcher.is_busy());
    assert_eq!(dispatcher.queued(), 1);
    assert_eq!(dispatcher.complete(failed("exit status 1"), &mut log), Some(s("c.txt")));
    assert_eq!(dispatcher.queued(), 0);
    assert_eq!(dispatcher.complete(RebuildOutcome::Succeeded, &mut log), None);
    assert!(!dispatcher.is_busy());

    assert_eq!(
        log.snapshot(),
        vec![
            s("File change detected: a.txt"),
            s("Rebuilding and restarting containers..."),
            s("File change detected: b.txt"),
            s("File change detected: c.txt"),
            s("Containers have been restarted."),
            s("Rebuilding and restarting containers..."),
            s("Error during build: exit status 1"),
            s("Rebuilding and restarting containers..."),
            s("Containers have been restarted."),
        ]
    );
}

#[test]
fn complete_while_idle_changes_nothing() {
    let mut dispatcher = Dispatcher::new();
    let mut log = LogStore::new();
    assert_eq!(dispatcher.complete(RebuildOutcome::Succeeded, &mut log), None);
    assert_eq!(dispatcher.complete(failed("late"), &mut log), None);
    assert!(!dispatcher.is_busy());
    assert_eq!(log.len(), 0);
}

#[test]
fn the_same_path_may_wait_behind_its_own_rebuild() {
    let mut dispatcher = Dispatcher::new();
    let mut log = LogStore::new();
    assert_eq!(dispatcher.submit(s("a.txt"), &mut log), Some(s("a.txt")));
    assert_eq!(dispatcher.submit(s("a.txt"), &mut log), None);
    assert_eq!(dispatcher.queued(), 1);
    assert_eq!(dispatcher.complete(RebuildOutcome::Succeeded, &mut log), Some(s("a.txt")));
    assert_eq!(dispatcher.complete(RebuildOutcome::Succeeded, &mut log), None);
}
