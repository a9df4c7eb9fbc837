use securitytxtcrawl::dispatch::process_item;
use securitytxtcrawl::dispatch::run;
use securitytxtcrawl::dispatch::Dispatcher;
use securitytxtcrawl::dispatch::WorkOutcome;
use securitytxtcrawl::fetch::security_txt_url;
use securitytxtcrawl::fetch::FetchResult;
use securitytxtcrawl::progress::ProgressTracker;
use securitytxtcrawl::progress::Summary;
use securitytxtcrawl::source::parse_list_bytes;
use securitytxtcrawl::store::output_file_path;
use securitytxtcrawl::store::FileStore;

fn ok_outcome(body: &[u8]) -> WorkOutcome {
    WorkOutcome { fetch: FetchResult::Success(body.to_vec()), persist_ok: true }
}

#[test]
fn run_counts_every_domain() {
    let domains = vec!["a.test".to_string(), "b.test".to_string(), "c.test".to_string()];
    let outcomes = vec![
        ok_outcome(b"A"),
        WorkOutcome { fetch: FetchResult::Timeout, persist_ok: true },
        ok_outcome(b"C"),
    ];
    let mut store = FileStore::new();
    let s = run(&domains, 2, &outcomes, &mut store);
    assert_eq!(s, Summary { completed: 3, succeeded: 2, total: 3 });
}

#[test]
fn empty_list_gives_empty_summary() {
    let mut store = FileStore::new();
    let s = run(&Vec::new(), 1, &Vec::new(), &mut store);
    assert_eq!(s, Summary { completed: 0, succeeded: 0, total: 0 });
    assert_eq!(store.writes(), 0);
}

#[test]
fn two_records_both_succeed() {
    let text = b"1,a.test\n2,b.test\n".to_vec();
    let domains = parse_list_bytes(&text).unwrap();
    assert_eq!(domains, vec!["a.test".to_string(), "b.test".to_string()]);
    let outcomes = vec![ok_outcome(b"A"), ok_outcome(b"B")];
    let mut store = FileStore::new();
    let s = run(&domains, 2, &outcomes, &mut store);
    assert_eq!(s, Summary { completed: 2, succeeded: 2, total: 2 });
    assert_eq!(store.read(&"a.test".to_string()).unwrap().as_slice(), b"A");
    assert_eq!(store.read(&"b.test".to_string()).unwrap().as_slice(), b"B");
}

#[test]
fn one_transport_failure_still_counts() {
    let domains = vec!["a.test".to_string(), "b.test".to_string()];
    let outcomes = vec![
        ok_outcome(b"A"),
        WorkOutcome { fetch: FetchResult::Transport, persist_ok: true },
    ];
    let mut store = FileStore::new();
    let s = run(&domains, 1, &outcomes, &mut store);
    assert_eq!(s, Summary { completed: 2, succeeded: 1, total: 2 });
    assert_eq!(store.writes(), 1);
    assert!(store.read(&"a.test".to_string()).is_some());
    assert!(store.read(&"b.test".to_string()).is_none());
}

#[test]
fn duplicate_domain_last_write_wins() {
    let domains = vec!["a.test".to_string(), "a.test".to_string()];
    let outcomes = vec![ok_outcome(b"first"), ok_outcome(b"second")];
    let mut store = FileStore::new();
    let s = run(&domains, 1, &outcomes, &mut store);
    assert_eq!(s, Summary { completed: 2, succeeded: 2, total: 2 });
    assert_eq!(store.read(&"a.test".to_string()).unwrap().as_slice(), b"second");
}

#[test]
fn timeout_is_failed_and_never_written() {
    let mut store = FileStore::new();
    let outcome = WorkOutcome { fetch: FetchResult::Timeout, persist_ok: true };
    let succeeded = process_item(&"a.test".to_string(), &outcome, &mut store);
    assert!(!succeeded);
    assert!(store.read(&"a.test".to_string()).is_none());
    assert_eq!(store.writes(), 0);
}

#[test]
fn persist_failure_is_failed() {
    let mut store = FileStore::new();
    let outcome = WorkOutcome { fetch: FetchResult::Success(b"body".to_vec()), persist_ok: false };
    let succeeded = process_item(&"a.test".to_string(), &outcome, &mut store);
    assert!(!succeeded);
    assert!(store.read(&"a.test".to_string()).is_none());
}

#[test]
fn persist_read_round_trip() {
    let mut store = FileStore::new();
    store.persist(&"d.example".to_string(), vec![0, 159, 146, 150]);
    assert_eq!(
        store.read(&"d.example".to_string()).unwrap().as_slice(),
        &[0, 159, 146, 150]
    );
}

#[test]
fn test_write_file() {
    let mut store = FileStore::new();
    store.persist(&"test".to_string(), vec![1, 2, 3]);
    assert_eq!(store.read(&"test".to_string()).unwrap().as_slice(), &[1, 2, 3]);
}

#[test]
fn dispatcher_respects_cap() {
    let mut d = Dispatcher::new(3, 2);
    assert!(d.can_launch());
    d.launch();
    assert!(d.can_launch());
    d.launch();
    assert!(!d.can_launch());
    d.complete(true);
    assert!(d.can_launch());
    d.launch();
    assert!(!d.can_launch());
    d.complete(false);
    d.complete(true);
    assert!(d.is_done());
    let s = d.tracker.summary();
    assert_eq!(s, Summary { completed: 3, succeeded: 2, total: 3 });
}

#[test]
fn tracker_counts_once_per_item() {
    let mut t = ProgressTracker::new(2);
    t.record_completion(true);
    t.record_completion(false);
    let s = t.summary();
    assert_eq!(s, Summary { completed: 2, succeeded: 1, total: 2 });
}

#[test]
fn url_has_fixed_shape() {
    assert_eq!(
        security_txt_url("example.org"),
        "http://example.org/.well-known/security.txt"
    );
}

#[test]
fn output_path_joins_dir_and_domain() {
    assert_eq!(output_file_path("output", "a.test"), "output/a.test");
}
