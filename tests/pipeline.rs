use fetcher::{chunked, normalize, parse_list, plan, PipelineError, Request, RetryPolicy, RetryState, RetryStep, Scheduler, Workflow};

fn strings(xs: &[&str]) -> Vec<String> {
    xs.iter().map(|s| s.to_string()).collect()
}

fn request(mode: Option<&str>, start: Option<&str>, end: Option<&str>, tickers: Option<&str>) -> Request {
    Request {
        mode: mode.map(|s| s.to_string()),
        start: start.map(|s| s.to_string()),
        end: end.map(|s| s.to_string()),
        tickers: tickers.map(|s| s.to_string()),
    }
}

#[test]
fn chunked_uneven_tail() {
    let xs: Vec<u32> = (0..12).collect();
    let groups = chunked(&xs, 5);
    assert_eq!(groups, vec![vec![0, 1, 2, 3, 4], vec![5, 6, 7, 8, 9], vec![10, 11]]);
}

#[test]
fn chunked_empty_input_gives_no_group() {
    let xs: Vec<u32> = Vec::new();
    assert!(chunked(&xs, 3).is_empty());
}

#[test]
fn chunked_size_equal_to_length_gives_one_group() {
    let xs = strings(&["a", "b", "c"]);
    assert_eq!(chunked(&xs, 3), vec![xs.clone()]);
}

#[test]
fn chunked_concatenation_gives_input_back() {
    let xs: Vec<u32> = (0..23).collect();
    for g in 1..30usize {
        let groups = chunked(&xs, g);
        let joined: Vec<u32> = groups.iter().flatten().cloned().collect();
        assert_eq!(joined, xs);
        assert!(groups.iter().all(|grp| grp.len() <= g && !grp.is_empty()));
        let short = groups.iter().filter(|grp| grp.len() < g).count();
        assert!(short <= 1);
        if short == 1 {
            assert!(groups.last().unwrap().len() < g);
        }
    }
}

#[test]
fn normalize_trims_uppercases_dedups_and_sorts() {
    let ids = strings(&[" msft", "AAPL", "", "aapl ", "  ", "GOOG", "MSFT"]);
    assert_eq!(normalize(&ids), strings(&["AAPL", "GOOG", "MSFT"]));
}

#[test]
fn normalize_output_is_distinct_subset() {
    let ids = strings(&["b", "a", "b", " c ", "a", "", "C"]);
    let out = normalize(&ids);
    let canon: Vec<String> = ids.iter().map(|s| s.trim().to_uppercase()).collect();
    for (i, x) in out.iter().enumerate() {
        assert!(canon.contains(x));
        assert!(!x.is_empty());
        for y in &out[i + 1..] {
            assert!(x < y);
        }
    }
    assert_eq!(out, strings(&["A", "B", "C"]));
}

#[test]
fn normalize_empty_input() {
    assert!(normalize(&Vec::new()).is_empty());
}

#[test]
fn parse_list_splits_on_commas() {
    assert_eq!(parse_list(" aapl, MSFT,,aapl ,tsla"), strings(&["AAPL", "MSFT", "TSLA"]));
    assert!(parse_list("").is_empty());
    assert!(parse_list(" , ,").is_empty());
}

#[test]
fn scheduler_refuses_zero_concurrency() {
    assert_eq!(Scheduler::new(3, 0), Err(PipelineError::ConcurrencyConfig));
}

/// Drives a scheduler with every group completing in submission order;
/// returns the groups handed out and the largest window seen.
fn drive(total: usize, limit: usize, failing: Option<usize>) -> (Vec<usize>, usize, Scheduler) {
    let mut s = Scheduler::new(total, limit).unwrap();
    let mut started = Vec::new();
    let mut queue = std::collections::VecDeque::new();
    let mut widest = 0;
    loop {
        while let Some(g) = s.next_submission() {
            started.push(g);
            queue.push_back(g);
        }
        widest = widest.max(s.outstanding);
        match queue.pop_front() {
            Some(g) => s.complete(g, Some(g) != failing),
            None => break,
        }
    }
    assert!(s.is_finished());
    (started, widest, s)
}

#[test]
fn scheduler_window_never_exceeds_min_of_limit_and_groups() {
    for total in 0..9usize {
        for limit in 1..6usize {
            let (started, widest, s) = drive(total, limit, None);
            assert_eq!(started, (0..total).collect::<Vec<_>>());
            assert!(widest <= limit.min(total));
            assert_eq!(s.failed, None);
        }
    }
}

#[test]
fn scheduler_keeps_window_full() {
    let mut s = Scheduler::new(10, 3).unwrap();
    assert_eq!(s.next_submission(), Some(0));
    assert_eq!(s.next_submission(), Some(1));
    assert_eq!(s.next_submission(), Some(2));
    assert_eq!(s.next_submission(), None);
    s.complete(1, true);
    assert_eq!(s.next_submission(), Some(3));
    assert_eq!(s.outstanding, 3);
}

#[test]
fn scheduler_stops_after_first_failure() {
    let (started, _, s) = drive(10, 2, Some(1));
    assert_eq!(s.failed, Some(1));
    // groups 0 and 1 were out; 0 completed and let 2 in; 1 failed; nothing after
    assert_eq!(started, vec![0, 1, 2]);
    assert_eq!(s.outstanding, 0);
}

#[test]
fn scheduler_keeps_first_failure() {
    let mut s = Scheduler::new(4, 4).unwrap();
    for _ in 0..4 {
        s.next_submission();
    }
    s.complete(2, false);
    s.complete(0, false);
    assert_eq!(s.failed, Some(2));
    assert!(!s.is_finished());
    s.complete(1, true);
    s.complete(3, true);
    assert!(s.is_finished());
}

#[test]
fn nominal_delay_doubles_up_to_ceiling() {
    let p = RetryPolicy::standard();
    let got: Vec<u64> = (1..=9).map(|n| p.nominal_delay_after(n)).collect();
    assert_eq!(got, vec![100, 200, 400, 800, 1600, 3200, 4000, 4000, 4000]);
    assert_eq!(p.nominal_delay_after(60), 4000);
}

#[test]
fn nominal_delay_is_monotone() {
    let p = RetryPolicy { max_attempts: 30, base_delay_ms: 7, max_delay_ms: 1000, min_delay_ms: 3 };
    for n in 1..40u32 {
        let a = p.nominal_delay_after(n);
        let b = p.nominal_delay_after(n + 1);
        assert!(a <= b && b <= 1000);
    }
}

#[test]
fn backoff_delay_within_floor_and_nominal() {
    let p = RetryPolicy::standard();
    for n in 1..8u32 {
        for _ in 0..50 {
            let d = p.backoff_delay(n);
            assert!(d >= 100 && d <= p.nominal_delay_after(n));
        }
    }
    assert_eq!(p.backoff_delay(1), 100);
}

#[test]
fn retry_partial_rejection_then_success() {
    let p = RetryPolicy::standard();
    let st = RetryState::new(vec![1u32, 2, 3, 4, 5]);
    let mut attempts = 1;
    let mut sleeps = 0;
    let step = st.advance(vec![2, 4], &p);
    let st = match step {
        RetryStep::Retry { next, nominal_delay_ms } => {
            sleeps += 1;
            assert_eq!(nominal_delay_ms, 100);
            next
        }
        other => panic!("expected a retry, got {:?}", other),
    };
    assert_eq!(st.attempt, 2);
    assert_eq!(st.remainder, vec![2, 4]);
    attempts += 1;
    assert_eq!(st.advance(Vec::new(), &p), RetryStep::Done);
    assert_eq!(attempts, 2);
    assert_eq!(sleeps, 1);
}

#[test]
fn retry_full_rejection_exhausts_budget() {
    let p = RetryPolicy::standard();
    let group = vec!["a", "b", "c", "d", "e"];
    let mut st = RetryState::new(group.clone());
    let mut attempts = 0;
    loop {
        attempts += 1;
        assert!(attempts <= 8);
        match st.advance(group.clone(), &p) {
            RetryStep::Retry { next, .. } => {
                assert_eq!(next.remainder, group);
                st = next;
            }
            RetryStep::Exhausted { leftover } => {
                assert_eq!(leftover, 5);
                break;
            }
            RetryStep::Done => panic!("nothing was accepted"),
        }
    }
    assert_eq!(attempts, 8);
}

#[test]
fn retry_remainder_shrinks() {
    let p = RetryPolicy::standard();
    let st = RetryState::new(vec![10u8, 20, 30, 40]);
    let st = match st.advance(vec![20, 30, 40], &p) {
        RetryStep::Retry { next, .. } => next,
        _ => panic!(),
    };
    let st = match st.advance(vec![40], &p) {
        RetryStep::Retry { next, nominal_delay_ms } => {
            assert_eq!(nominal_delay_ms, 200);
            next
        }
        _ => panic!(),
    };
    assert_eq!(st.remainder, vec![40]);
    assert_eq!(st.attempt, 3);
}

#[test]
fn plan_backfill_without_end_is_refused() {
    let r = request(Some("backfill"), Some("2024-01-01"), None, Some("AAPL"));
    assert_eq!(plan(&r, "MSFT"), Err(PipelineError::MissingEnd));
}

#[test]
fn plan_backfill_without_start_is_refused() {
    let r = request(Some("backfill"), None, Some("2024-02-01"), None);
    assert_eq!(plan(&r, "MSFT"), Err(PipelineError::MissingStart));
}

#[test]
fn plan_backfill_defaults_to_aapl() {
    let r = request(Some("backfill"), Some("2024-01-01"), Some("2024-02-01"), None);
    assert_eq!(
        plan(&r, "MSFT"),
        Ok(Workflow::Backfill {
            start: "2024-01-01".to_string(),
            end: "2024-02-01".to_string(),
            tickers: strings(&["AAPL"]),
        })
    );
}

#[test]
fn plan_backfill_uses_request_list() {
    let r = request(Some("backfill"), Some("a"), Some("b"), Some("tsla, msft,tsla"));
    match plan(&r, "X").unwrap() {
        Workflow::Backfill { tickers, .. } => assert_eq!(tickers, strings(&["MSFT", "TSLA"])),
        other => panic!("expected a backfill, got {:?}", other),
    }
}

#[test]
fn plan_snapshot_uses_configured_list() {
    let r = request(None, None, None, Some("ignored"));
    assert_eq!(plan(&r, "msft, aapl"), Ok(Workflow::Snapshot { tickers: strings(&["AAPL", "MSFT"]) }));
    let r = request(Some("daily"), None, None, None);
    assert_eq!(plan(&r, ""), Ok(Workflow::Snapshot { tickers: Vec::new() }));
}

#[test]
fn end_to_end_all_succeed() {
    let ids: Vec<String> = (0..12).map(|i| format!("T{:02}", i)).collect();
    let items = normalize(&ids);
    assert_eq!(items.len(), 12);
    let fetch_groups = chunked(&items, 5);
    let (fetched, widest, _) = drive(fetch_groups.len(), 4, None);
    assert_eq!(fetched.len(), 3);
    assert!(widest <= 3);
    let records: Vec<String> = fetched.iter().flat_map(|g| fetch_groups[*g].clone()).collect();
    let write_groups = chunked(&records, 5);
    let (written, _, _) = drive(write_groups.len(), 4, None);
    assert_eq!(written.len(), 3);
    let p = RetryPolicy::standard();
    let mut retries = 0;
    let mut total = 0;
    for g in written {
        let st = RetryState::new(write_groups[g].clone());
        total += st.remainder.len();
        match st.advance(Vec::new(), &p) {
            RetryStep::Done => {}
            _ => retries += 1,
        }
    }
    assert_eq!(retries, 0);
    assert_eq!(total, 12);
}
