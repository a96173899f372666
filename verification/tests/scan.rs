use zuul::{Build, DecodeError, Next, PageRequest, Scanner, Tail};
use std::time::Duration;

fn make_build(uuid: &str, end_time: i64) -> Build {
    Build {
        uuid: String::from(uuid),
        job_name: "job".to_string(),
        result: "SUCCESS".to_string(),
        start_time: end_time - 42 * 60,
        end_time,
        duration: 42,
        voting: true,
        log_url: Some("http://localhost/".to_string() + &String::from(uuid)),
        artifacts: [].to_vec(),
        project: "project".to_string(),
        branch: "main".to_string(),
        pipeline: "check".to_string(),
        change: Some(42),
        patchset: None,
        change_ref: "head".to_string(),
        event_id: "uuid".to_string(),
    }
}

fn build(uuid: &str) -> Build {
    make_build(uuid, 1634129922)
}

fn bad_row() -> Result<Build, DecodeError> {
    Err(DecodeError { message: "missing field `uuid`".to_string(), payload: "{}".to_string() })
}

fn uuids(builds: &Vec<Build>) -> Vec<String> {
    builds.iter().map(|b| b.uuid.clone()).collect()
}

fn tail_at(since: &str) -> Tail {
    Tail::new(Duration::from_millis(50), Some(since.to_string()))
}

#[test]
fn scanner_starts_at_the_top() {
    let scanner = Scanner::new();
    assert_eq!(scanner.request(), PageRequest { skip: 0, limit: 20 });
}

#[test]
fn scanner_skips_builds_of_a_sliding_page() {
    let mut scanner = Scanner::new();
    let first = scanner.absorb(vec![Ok(build("build1")), Ok(build("build2"))]);
    assert_eq!(first, vec![build("build1"), build("build2")]);
    assert_eq!(scanner.request(), PageRequest { skip: 2, limit: 20 });
    let second = scanner.absorb(vec![Ok(build("build2")), Ok(build("build3"))]);
    assert_eq!(second, vec![build("build3")]);
    assert_eq!(scanner.request(), PageRequest { skip: 4, limit: 20 });
    let third = scanner.absorb(vec![Ok(build("build1")), Ok(build("build3")), Ok(build("build2"))]);
    assert_eq!(third, Vec::new());
    assert_eq!(scanner.request().skip, 7);
}

#[test]
fn scanner_forwards_a_uuid_once_within_a_page() {
    let mut scanner = Scanner::new();
    let older = make_build("twin", 1000);
    let newer = make_build("twin", 2000);
    let fresh = scanner.absorb(vec![Ok(newer.clone()), Ok(build("other")), Ok(older)]);
    assert_eq!(fresh, vec![newer, build("other")]);
}

#[test]
fn scanner_advances_by_the_rows_of_the_page() {
    let mut scanner = Scanner::new();
    let mut page = Vec::new();
    for i in 0..19 {
        page.push(Ok(build(&format!("build{}", i))));
    }
    page.insert(7, bad_row());
    assert_eq!(page.len(), 20);
    let fresh = scanner.absorb(page);
    assert_eq!(fresh.len(), 19);
    assert_eq!(scanner.request().skip, 20);
    let fresh = scanner.absorb(vec![bad_row(), bad_row()]);
    assert_eq!(fresh.len(), 0);
    assert_eq!(scanner.request().skip, 22);
}

#[test]
fn scanner_stays_on_an_empty_page() {
    let mut scanner = Scanner::new();
    scanner.absorb(vec![Ok(build("a"))]);
    let fresh = scanner.absorb(Vec::new());
    assert_eq!(fresh, Vec::new());
    assert_eq!(scanner.request().skip, 1);
}

#[test]
fn two_scanners_share_nothing() {
    let mut one = Scanner::new();
    let mut other = Scanner::new();
    assert_eq!(one.absorb(vec![Ok(build("a"))]).len(), 1);
    assert_eq!(other.absorb(vec![Ok(build("a"))]).len(), 1);
    assert_eq!(one.absorb(vec![Ok(build("a"))]).len(), 0);
}

#[test]
fn tail_forwards_what_is_newer_than_the_checkpoint() {
    let mut tail = tail_at("X");
    assert_eq!(tail.request(), PageRequest { skip: 0, limit: 20 });
    let step = tail.on_page(vec![Ok(build("A")), Ok(build("B")), Ok(build("X")), Ok(build("C"))]);
    assert_eq!(uuids(&step.forward), vec!["A", "B"]);
    assert_eq!(step.next, Next::Sleep);
    assert_eq!(tail.since(), Some("A".to_string()));
    assert_eq!(tail.request(), PageRequest { skip: 0, limit: 20 });
}

#[test]
fn tail_bootstraps_from_the_latest_build() {
    let mut tail = Tail::new(Duration::from_millis(50), None);
    assert_eq!(tail.request(), PageRequest { skip: 0, limit: 1 });
    let step = tail.on_page(vec![Ok(build("L"))]);
    assert_eq!(step.forward, Vec::new());
    assert_eq!(step.next, Next::Sleep);
    assert_eq!(tail.since(), Some("L".to_string()));
    assert_eq!(tail.request(), PageRequest { skip: 0, limit: 20 });
}

#[test]
fn tail_is_fatal_on_an_empty_listing() {
    let mut tail = Tail::new(Duration::from_millis(50), None);
    let step = tail.on_page(Vec::new());
    assert_eq!(step.forward, Vec::new());
    assert_eq!(step.next, Next::Fatal);
    assert_eq!(tail.since(), None);
    assert_eq!(tail.request(), PageRequest { skip: 0, limit: 1 });
}

#[test]
fn tail_is_fatal_when_the_latest_build_does_not_decode() {
    let mut tail = Tail::new(Duration::from_millis(50), None);
    let step = tail.on_page(vec![bad_row()]);
    assert_eq!(step.next, Next::Fatal);
    assert_eq!(tail.since(), None);
}

#[test]
fn tail_with_nothing_new_keeps_the_checkpoint() {
    let mut tail = tail_at("X");
    let step = tail.on_page(vec![Ok(build("X")), Ok(build("W"))]);
    assert_eq!(step.forward, Vec::new());
    assert_eq!(step.next, Next::Sleep);
    assert_eq!(tail.since(), Some("X".to_string()));
}

#[test]
fn tail_scans_on_until_the_checkpoint() {
    let mut tail = tail_at("X");
    let step = tail.on_page(vec![Ok(build("A")), bad_row(), Ok(build("B"))]);
    assert_eq!(uuids(&step.forward), vec!["A", "B"]);
    assert_eq!(step.next, Next::Continue);
    assert_eq!(tail.since(), Some("X".to_string()));
    assert_eq!(tail.request(), PageRequest { skip: 3, limit: 20 });
    let step = tail.on_page(vec![Ok(build("B")), Ok(build("C")), Ok(build("X")), Ok(build("D"))]);
    assert_eq!(uuids(&step.forward), vec!["C"]);
    assert_eq!(step.next, Next::Sleep);
    assert_eq!(tail.since(), Some("A".to_string()));
    assert_eq!(tail.request(), PageRequest { skip: 0, limit: 20 });
    let step = tail.on_page(vec![Ok(build("A")), Ok(build("B"))]);
    assert_eq!(step.forward, Vec::new());
    assert_eq!(step.next, Next::Sleep);
    assert_eq!(tail.since(), Some("A".to_string()));
}

#[test]
fn tail_scans_on_over_empty_pages() {
    let mut tail = tail_at("gone");
    let step = tail.on_page(Vec::new());
    assert_eq!(step.forward, Vec::new());
    assert_eq!(step.next, Next::Continue);
    assert_eq!(tail.since(), Some("gone".to_string()));
    assert_eq!(tail.request().skip, 0);
}

#[test]
fn tail_follows_sliding_pages() {
    let now = 1634129922;
    let b0 = make_build("42", now);
    let b1 = make_build("build1", now);
    let b2 = make_build("build2", now);
    let b3 = make_build("build3", now);
    let mut tail = Tail::new(Duration::from_millis(50), None);
    let mut got = Vec::new();
    assert_eq!(tail.request().limit, 1);
    let step = tail.on_page(vec![Ok(b0)]);
    got.extend(step.forward);
    assert_eq!(step.next, Next::Sleep);
    assert_eq!(tail.request().skip, 0);
    let step = tail.on_page(vec![Ok(b1.clone()), Ok(b2.clone())]);
    got.extend(step.forward);
    assert_eq!(step.next, Next::Continue);
    assert_eq!(tail.request().skip, 2);
    let step = tail.on_page(vec![Ok(b2.clone()), Ok(b3.clone())]);
    got.extend(step.forward);
    assert_eq!(step.next, Next::Continue);
    assert_eq!(got, [b1, b2, b3].to_vec());
    assert_eq!(tail.loop_delay(), Duration::from_millis(50));
}

#[test]
fn tail_ends_when_a_request_fails_for_good() {
    let mut tail = tail_at("X");
    let step = tail.on_page(vec![Ok(build("A")), Ok(build("B"))]);
    assert_eq!(step.next, Next::Continue);
    assert_eq!(tail.on_failure(), Next::Fatal);
    assert_eq!(tail.since(), Some("X".to_string()));
    assert_eq!(tail.request(), PageRequest { skip: 2, limit: 20 });
    assert_eq!(tail.loop_delay(), Duration::from_millis(50));
    let mut tail = Tail::new(Duration::from_millis(50), None);
    assert_eq!(tail.on_failure(), Next::Fatal);
    assert_eq!(tail.since(), None);
    assert_eq!(tail.request(), PageRequest { skip: 0, limit: 1 });
}
