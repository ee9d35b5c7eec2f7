use subfinder::config::ConfigError;
use subfinder::jobs::parse_domains;
use subfinder::pool::{JobState, Pool};
use subfinder::scan::{accept_response, ApiResponse};

#[test]
fn zero_concurrency_is_refused() {
    assert!(matches!(Pool::new(3, 0), Err(ConfigError::ZeroConcurrency)));
    assert!(matches!(Pool::new(0, 0), Err(ConfigError::ZeroConcurrency)));
}

#[test]
fn admission_follows_input_order_up_to_the_limit() {
    let mut p = Pool::new(3, 2).unwrap();
    assert_eq!(p.try_admit(), Some(0));
    assert_eq!(p.try_admit(), Some(1));
    assert_eq!(p.try_admit(), None);
    assert_eq!(p.in_flight(), 2);
    p.complete(1, true);
    assert_eq!(p.try_admit(), Some(2));
    assert_eq!(p.try_admit(), None);
    assert!(!p.is_finished());
}

#[test]
fn in_flight_never_exceeds_limit() {
    let mut p = Pool::new(10, 3).unwrap();
    let mut running: Vec<usize> = Vec::new();
    let mut max_seen = 0;
    while !p.is_finished() {
        while let Some(j) = p.try_admit() {
            running.push(j);
        }
        max_seen = max_seen.max(p.in_flight());
        assert!(p.in_flight() <= p.limit());
        let j = running.remove(running.len() / 2);
        p.complete(j, j % 2 == 0);
    }
    assert_eq!(max_seen, 3);
}

#[test]
fn tickets_all_come_back_when_every_job_fails() {
    let mut p = Pool::new(4, 2).unwrap();
    while !p.is_finished() {
        let mut admitted = Vec::new();
        while let Some(j) = p.try_admit() {
            admitted.push(j);
        }
        for j in admitted {
            p.complete(j, false);
        }
    }
    assert_eq!(p.acquired(), 4);
    assert_eq!(p.released(), 4);
    for j in 0..4 {
        assert_eq!(p.state(j), JobState::Failed);
    }
}

#[test]
fn failed_job_does_not_stop_the_others() {
    let n = 6;
    let mut p = Pool::new(n, 2).unwrap();
    while !p.is_finished() {
        let mut admitted = Vec::new();
        while let Some(j) = p.try_admit() {
            admitted.push(j);
        }
        for j in admitted.into_iter().rev() {
            assert!(p.is_running(j));
            p.complete(j, j != 2);
        }
    }
    for j in 0..n {
        let want = if j == 2 { JobState::Failed } else { JobState::Succeeded };
        assert_eq!(p.state(j), want);
    }
}

#[test]
fn three_domains_two_lines_each() {
    let jobs = parse_domains(b"one.com\ntwo.com\nthree.com\n");
    let mut p = Pool::new(jobs.len(), 2).unwrap();
    let mut output: Vec<u8> = Vec::new();
    while !p.is_finished() {
        let mut admitted = Vec::new();
        while let Some(j) = p.try_admit() {
            admitted.push(j);
        }
        assert!(p.in_flight() <= 2);
        for j in admitted {
            let resp = ApiResponse {
                success: true,
                count: 2,
                requests_left: 10,
                expires: "later".to_string(),
                data: vec!["a.x".to_string(), "b.x".to_string()],
            };
            let record = accept_response(&resp).unwrap();
            output.extend_from_slice(&record);
            p.complete(j, true);
        }
    }
    let text = String::from_utf8(output).unwrap();
    let lines: Vec<&str> = text.lines().collect();
    assert_eq!(lines.len(), 6);
    assert_eq!(lines.iter().filter(|l| **l == "a.x").count(), 3);
    assert_eq!(lines.iter().filter(|l| **l == "b.x").count(), 3);
}

#[test]
fn empty_run_is_finished_at_once() {
    let jobs = parse_domains(b"");
    let mut p = Pool::new(jobs.len(), 10).unwrap();
    assert!(p.is_finished());
    assert_eq!(p.try_admit(), None);
    assert_eq!(p.job_count(), 0);
}
