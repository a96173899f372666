use zuul::retry::{RETRY_BASE_MILLIS, RETRY_LIMIT, RETRY_MAX_DELAY_MILLIS};
use zuul::{Retry, Verdict};

const SCHEDULE: [u64; 10] = [10, 100, 1000, 10000, 13000, 13000, 13000, 13000, 13000, 13000];

#[test]
fn retry_policy_is_ten_tries_from_ten_milliseconds_to_thirteen_seconds() {
    assert_eq!(RETRY_BASE_MILLIS, 10);
    assert_eq!(RETRY_MAX_DELAY_MILLIS, 13000);
    assert_eq!(RETRY_LIMIT, 10);
}

#[test]
fn retry_hands_a_success_on() {
    let mut retry = Retry::new();
    let outcome: Result<u32, String> = Ok(7);
    assert_eq!(retry.settle(outcome), Verdict::Done(7));
    assert_eq!(retry.backoff(), Some(10));
}

#[test]
fn retry_backs_off_exponentially_up_to_the_cap() {
    let mut retry = Retry::new();
    for expected in SCHEDULE {
        assert_eq!(retry.backoff(), Some(expected));
        let outcome: Result<u32, String> = Err("down".to_string());
        match retry.settle(outcome) {
            Verdict::Wait(nanos) => assert!(nanos <= expected * 1_000_000),
            other => panic!("no wait but {:?}", other),
        }
    }
    assert_eq!(retry.backoff(), None);
}

#[test]
fn retry_gives_up_with_the_last_error() {
    let mut retry = Retry::new();
    let mut attempts = 0;
    let verdict = loop {
        attempts += 1;
        let outcome: Result<u32, String> = Err(format!("failure {}", attempts));
        match retry.settle(outcome) {
            Verdict::Wait(_) => assert!(attempts <= 10),
            verdict => break verdict,
        }
    };
    assert_eq!(attempts, 11);
    assert_eq!(verdict, Verdict::GiveUp("failure 11".to_string()));
    let outcome: Result<u32, String> = Err("once more".to_string());
    assert_eq!(retry.settle(outcome), Verdict::GiveUp("once more".to_string()));
}

#[test]
fn retry_succeeds_after_failures() {
    let mut retry = Retry::new();
    for _ in 0..3 {
        let outcome: Result<u32, String> = Err("down".to_string());
        assert!(matches!(retry.settle(outcome), Verdict::Wait(_)));
    }
    let outcome: Result<u32, String> = Ok(1);
    assert_eq!(retry.settle(outcome), Verdict::Done(1));
    assert_eq!(retry.backoff(), Some(10000));
}

#[test]
fn retry_waits_differ_by_chance_but_stay_below_the_bound() {
    let mut largest = 0;
    for _ in 0..50 {
        let mut retry = Retry::new();
        for _ in 0..4 {
            let outcome: Result<u32, String> = Err("down".to_string());
            retry.settle(outcome);
        }
        let outcome: Result<u32, String> = Err("down".to_string());
        match retry.settle(outcome) {
            Verdict::Wait(nanos) => {
                assert!(nanos <= 13_000_000_000);
                largest = largest.max(nanos);
            },
            other => panic!("no wait but {:?}", other),
        }
    }
    assert!(largest > 13_000_000);
}

#[test]
fn retry_takes_a_page_with_bad_rows_as_a_success() {
    let mut retry = Retry::new();
    let page: Vec<Result<u32, String>> = vec![Ok(1), Err("no build".to_string())];
    let outcome: Result<Vec<Result<u32, String>>, String> = Ok(page.clone());
    assert_eq!(retry.settle(outcome), Verdict::Done(page));
    assert_eq!(retry.backoff(), Some(10));
}
