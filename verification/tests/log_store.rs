use docker_manager::log_store::LogStore;

fn s(text: &str) -> String {
    text.to_string()
}

#[test]
fn new_log_is_empty() {
    let log = LogStore::new();
    assert_eq!(log.len(), 0);
    assert!(log.snapshot().is_empty());
    assert!(log.lines().is_empty());
}

#[test]
fn append_keeps_order() {
    let mut log = LogStore::new();
    log.append(s("one"));
    log.append(s("two"));
    log.append(s("one"));
    assert_eq!(log.len(), 3);
    assert_eq!(log.snapshot(), vec![s("one"), s("two"), s("one")]);
    assert_eq!(log.lines(), &vec![s("one"), s("two"), s("one")]);
}

#[test]
fn earlier_snapshot_is_prefix_of_later_snapshot() {
    let mut log = LogStore::new();
    let mut snapshots: Vec<Vec<String>> = vec![log.snapshot()];
    for i in 0..20 {
        log.append(format!("line {}", i));
        snapshots.push(log.snapshot());
    }
    for early in 0..snapshots.len() {
        for late in early..snapshots.len() {
            let a = &snapshots[early];
            let b = &snapshots[late];
            assert!(a.len() <= b.len());
            assert_eq!(&b[..a.len()], &a[..]);
        }
    }
}

#[test]
fn snapshot_is_not_touched_by_later_appends() {
    let mut log = LogStore::new();
    log.append(s("first"));
    let snapshot = log.snapshot();
    log.append(s("second"));
    assert_eq!(snapshot, vec![s("first")]);
    assert_eq!(log.len(), 2);
}

#[test]
fn an_empty_line_is_a_line() {
    let mut log = LogStore::new();
    log.append(String::new());
    assert_eq!(log.len(), 1);
    assert_eq!(log.snapshot(), vec![String::new()]);
}
