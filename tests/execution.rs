use kamehameha::execution::{ino_exec, Mode, Reply, Worker};
use kamehameha::support::Settings;

fn settings(clients: usize, requests: usize, duration: Option<u64>) -> Settings {
    Settings {
        clients,
        requests,
        target: "https://x".to_string(),
        keep_alive: None,
        body: None,
        headers: None,
        duration,
        verbose: false,
    }
}

fn run_uncancelled(mut w: Worker) -> Vec<usize> {
    let mut issued = vec![];
    while let Some(i) = w.next_request(0) {
        issued.push(i);
        w.finish_request(false);
    }
    issued
}

#[test]
fn counted_mode_total_outcomes() {
    let s = settings(3, 10, None);
    let mut total = 0;
    for id in 0..s.clients {
        let w = Worker::ino_exec_iterator(id, &s);
        assert_eq!(w.mode, Mode::Counted { iterations: 3 });
        let issued = run_uncancelled(w);
        assert_eq!(issued, vec![0, 1, 2]);
        total += issued.len();
    }
    assert_eq!(total, 9);
}

#[test]
fn cancellation_stops_the_worker() {
    let s = settings(1, 100, None);
    let mut w = Worker::ino_exec_iterator(0, &s);
    assert_eq!(w.next_request(0), Some(0));
    w.finish_request(false);
    assert_eq!(w.next_request(0), Some(1));
    w.finish_request(true);
    assert!(w.stopped);
    assert_eq!(w.next_request(0), None);
    assert_eq!(w.next_request(0), None);
}

#[test]
fn timed_mode_zero_duration_issues_nothing() {
    let s = settings(2, 5, Some(0));
    let mut w = Worker::ino_exec_iterator(1, &s);
    assert_eq!(w.mode, Mode::Timed { seconds: 0 });
    assert_eq!(w.next_request(0), None);
    assert!(w.stopped);
}

#[test]
fn timed_mode_runs_until_elapsed() {
    let s = settings(1, 1, Some(2));
    let mut w = Worker::ino_exec_iterator(0, &s);
    assert_eq!(w.next_request(0), Some(0));
    w.finish_request(false);
    assert_eq!(w.next_request(1), Some(1));
    w.finish_request(false);
    assert_eq!(w.next_request(2), None);
    assert_eq!(w.next_request(0), None);
}

#[test]
fn outcome_of_each_reply() {
    let r = ino_exec(2, 7, 15, Reply::Response("200 OK".to_string()));
    assert_eq!(r.status, "200 OK");
    assert_eq!(r.duration, 15);
    assert_eq!(r.execution, 7);
    assert_eq!(r.num_client, 2);
    let r = ino_exec(0, 0, 3, Reply::Failure(Some("504 Gateway Timeout".to_string())));
    assert_eq!(r.status, "504 Gateway Timeout");
    let r = ino_exec(0, 0, 3, Reply::Failure(None));
    assert_eq!(r.status, "connection failed");
}
