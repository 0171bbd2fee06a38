use z6m_prover::fetcher::{
    matches_interval, posts_block, FetchAction, FetchEnd, FetchEvent, FetchPhase, FetchRules, Fetcher,
    FIRST_HEAD_RETRIES, HEAD_RETRIES, PROVER_QUEUE_CAPACITY,
};
use z6m_prover::retry::{after_failed_attempt, RetryStep};

fn rules(start: Option<u64>, end: Option<u64>) -> FetchRules {
    FetchRules {
        start_block: start,
        end_block: end,
        prove_every: Some(4),
        execute_every: Some(2),
        save_all_responses: false,
        has_client: true,
        post_every: None,
    }
}

/// Carries on until the fetcher asks for something that is not a block or room in the queue, and
/// collects the blocks with whether they are executed, proved and announced.
fn drain(
    rules: &FetchRules,
    mut at: (Fetcher, FetchAction),
    seen: &mut Vec<(u64, bool, bool, bool)>,
) -> (Fetcher, FetchAction) {
    loop {
        at = match at.1 {
            FetchAction::Fetch { block } => {
                rules.step(at.0, FetchEvent::Fetched(Some(format!("b{}", block))))
            }
            FetchAction::Queue { item, announce } => {
                assert_eq!(item.bundle_path, format!("b{}", item.block_number));
                seen.push((item.block_number, item.execute, item.prove, announce));
                rules.step(at.0, FetchEvent::Queued(true))
            }
            _ => return at,
        }
    }
}

#[test]
fn intervals_pick_every_nth_block() {
    assert!(matches_interval(Some(3), 0));
    assert!(matches_interval(Some(3), 9));
    assert!(!matches_interval(Some(3), 10));
    assert!(matches_interval(Some(1), 7));
    assert!(!matches_interval(Some(0), 0));
    assert!(!matches_interval(None, 0));
}

#[test]
fn the_collector_is_told_by_interval() {
    assert!(posts_block(true, None, 7));
    assert!(posts_block(true, Some(7), 7));
    assert!(!posts_block(true, Some(7), 8));
    assert!(!posts_block(true, Some(0), 0));
    assert!(!posts_block(false, None, 7));
}

#[test]
fn each_wanted_block_of_a_range_is_queued_once() {
    let rules = rules(Some(3), Some(9));
    let mut seen = Vec::new();
    let (fetcher, action) = drain(&rules, rules.start(false), &mut seen);
    assert_eq!(
        seen,
        vec![
            (4, false, true, true),
            (6, true, false, false),
            (8, false, true, true),
        ]
    );
    assert!(matches!(action, FetchAction::Sleep { millis: 300 }));
    let (fetcher, action) = rules.step(fetcher, FetchEvent::Woken { closed: false });
    assert!(matches!(action, FetchAction::Stop(FetchEnd::Finished)));
    assert_eq!(fetcher.phase, FetchPhase::Stopped);
}

#[test]
fn an_empty_range_is_finished_at_once() {
    let (fetcher, action) = rules(Some(10), Some(9)).start(true);
    assert!(matches!(action, FetchAction::Stop(FetchEnd::Finished)));
    assert_eq!(fetcher.phase, FetchPhase::Stopped);
}

#[test]
fn saved_responses_make_all_blocks_wanted() {
    let rules = FetchRules {
        prove_every: None,
        execute_every: None,
        save_all_responses: true,
        ..rules(Some(1), Some(3))
    };
    let mut seen = Vec::new();
    drain(&rules, rules.start(false), &mut seen);
    assert_eq!(
        seen,
        vec![(1, false, false, false), (2, false, false, false), (3, false, false, false)]
    );
}

#[test]
fn the_queue_is_not_announced_without_a_client() {
    let rules = FetchRules { has_client: false, ..rules(Some(4), Some(4)) };
    let mut seen = Vec::new();
    drain(&rules, rules.start(false), &mut seen);
    assert_eq!(seen, vec![(4, false, true, false)]);
}

#[test]
fn a_block_that_cannot_be_fetched_is_passed_over() {
    let rules = rules(Some(4), Some(6));
    let (fetcher, action) = rules.start(false);
    assert!(matches!(action, FetchAction::Fetch { block: 4 }));
    let (_, action) = rules.step(fetcher, FetchEvent::Fetched(None));
    assert!(matches!(action, FetchAction::Fetch { block: 6 }));
}

#[test]
fn the_fetcher_exits_when_the_worker_is_gone() {
    let rules = rules(Some(4), None);
    let (fetcher, action) = rules.start(false);
    assert!(matches!(action, FetchAction::AskHead { max_retries: HEAD_RETRIES }));
    let (fetcher, _) = rules.step(fetcher, FetchEvent::Head(Some(4)));
    let (fetcher, _) = rules.step(fetcher, FetchEvent::Fetched(Some(String::from("p"))));
    let (_, action) = rules.step(fetcher, FetchEvent::Queued(false));
    assert!(matches!(action, FetchAction::Stop(FetchEnd::WorkerGone)));
}

#[test]
fn without_a_start_the_fetcher_begins_after_the_head() {
    let rules = rules(None, None);
    let (fetcher, action) = rules.start(true);
    assert!(matches!(action, FetchAction::AskHead { max_retries: FIRST_HEAD_RETRIES }));
    let (fetcher, action) = rules.step(fetcher, FetchEvent::Head(Some(7)));
    assert!(matches!(action, FetchAction::AskHead { max_retries: HEAD_RETRIES }));
    assert_eq!(fetcher.phase, FetchPhase::Asking { next: 8 });
    let mut seen = Vec::new();
    let (fetcher, action) =
        drain(&rules, rules.step(fetcher, FetchEvent::Head(Some(10))), &mut seen);
    assert_eq!(seen, vec![(8, false, true, true), (10, true, false, false)]);
    assert!(matches!(action, FetchAction::AwaitHead { timeout_millis: 2000 }));
    assert_eq!(fetcher.phase, FetchPhase::Waiting { next: 11 });
}

#[test]
fn the_first_block_number_does_not_overflow() {
    let rules = rules(None, None);
    let (fetcher, _) = rules.start(false);
    let (fetcher, _) = rules.step(fetcher, FetchEvent::Head(Some(u64::MAX)));
    assert_eq!(fetcher.phase, FetchPhase::Asking { next: u64::MAX });
}

#[test]
fn without_a_first_head_the_fetcher_fails() {
    let rules = rules(None, Some(9));
    let (fetcher, _) = rules.start(false);
    let (_, action) = rules.step(fetcher, FetchEvent::Head(None));
    assert!(matches!(action, FetchAction::Stop(FetchEnd::NoFirstHead)));
}

#[test]
fn without_a_later_head_the_fetcher_rests() {
    let rules = rules(Some(5), None);
    let (fetcher, _) = rules.start(false);
    let (fetcher, action) = rules.step(fetcher, FetchEvent::Head(None));
    assert!(matches!(action, FetchAction::Pause { millis: 30000 }));
    let (fetcher, action) = rules.step(fetcher, FetchEvent::Paused);
    assert!(matches!(action, FetchAction::AskHead { max_retries: HEAD_RETRIES }));
    assert_eq!(fetcher.phase, FetchPhase::Asking { next: 5 });
}

#[test]
fn a_closed_subscription_leads_to_polling() {
    let rules = FetchRules { prove_every: None, execute_every: None, ..rules(Some(5), None) };
    let (fetcher, _) = rules.start(true);
    let (fetcher, action) = rules.step(fetcher, FetchEvent::Head(Some(6)));
    assert!(matches!(action, FetchAction::AwaitHead { .. }));
    let (fetcher, _) = rules.step(fetcher, FetchEvent::Woken { closed: true });
    assert!(!fetcher.subscribed);
    let (_, action) = rules.step(fetcher, FetchEvent::Head(Some(7)));
    assert!(matches!(action, FetchAction::Sleep { millis: 300 }));
}

#[test]
fn a_head_that_falls_behind_does_not_take_the_fetcher_back() {
    let rules = FetchRules { prove_every: Some(1), execute_every: None, ..rules(Some(100), None) };
    let (fetcher, _) = rules.start(false);
    let mut seen = Vec::new();
    let (fetcher, _) = drain(&rules, rules.step(fetcher, FetchEvent::Head(Some(50))), &mut seen);
    assert!(seen.is_empty());
    assert_eq!(fetcher.phase, FetchPhase::Waiting { next: 100 });
    let mut fetcher = fetcher;
    for head in [101, 99, 101, 103] {
        let (woken, _) = rules.step(fetcher, FetchEvent::Woken { closed: false });
        (fetcher, _) = drain(&rules, rules.step(woken, FetchEvent::Head(Some(head))), &mut seen);
    }
    let blocks: Vec<u64> = seen.iter().map(|item| item.0).collect();
    assert_eq!(blocks, vec![100, 101, 102, 103]);
    assert_eq!(fetcher.phase, FetchPhase::Waiting { next: 104 });
}

#[test]
fn only_every_nth_block_is_announced() {
    let announced = |post_every, has_client| {
        let rules = FetchRules {
            prove_every: Some(1),
            execute_every: None,
            post_every,
            has_client,
            ..rules(Some(1), Some(10))
        };
        let mut seen = Vec::new();
        drain(&rules, rules.start(false), &mut seen);
        assert_eq!(seen.len(), 10);
        assert!(seen.iter().all(|item| item.2));
        seen.into_iter().filter(|item| item.3).map(|item| item.0).collect::<Vec<u64>>()
    };
    assert_eq!(announced(Some(5), true), vec![5, 10]);
    assert_eq!(announced(None, true), (1..=10).collect::<Vec<u64>>());
    assert_eq!(announced(Some(0), true), Vec::<u64>::new());
    assert_eq!(announced(Some(5), false), Vec::<u64>::new());
}

#[test]
fn a_first_block_at_the_end_of_the_numbers_is_waited_for() {
    let rules = rules(Some(u64::MAX), None);
    let (fetcher, _) = rules.start(false);
    let (fetcher, _) = rules.step(fetcher, FetchEvent::Head(Some(5)));
    assert_eq!(fetcher.phase, FetchPhase::Waiting { next: u64::MAX });
}

#[test]
fn waits_between_attempts_double() {
    assert_eq!(
        after_failed_attempt(0, 6),
        RetryStep::RetryAfter { attempts: 1, delay_secs: 2 }
    );
    assert_eq!(
        after_failed_attempt(1, 6),
        RetryStep::RetryAfter { attempts: 2, delay_secs: 4 }
    );
    assert_eq!(
        after_failed_attempt(4, 6),
        RetryStep::RetryAfter { attempts: 5, delay_secs: 32 }
    );
    assert_eq!(after_failed_attempt(5, 6), RetryStep::GiveUp);
    assert_eq!(after_failed_attempt(0, 0), RetryStep::GiveUp);
    assert_eq!(after_failed_attempt(0, 1), RetryStep::GiveUp);
    assert_eq!(
        after_failed_attempt(62, 100),
        RetryStep::RetryAfter { attempts: 63, delay_secs: 1 << 63 }
    );
}

#[test]
fn giving_up_takes_a_fixed_time() {
    let mut attempts = 0;
    let mut waited = 0;
    while let RetryStep::RetryAfter { attempts: failed, delay_secs } =
        after_failed_attempt(attempts, 6)
    {
        attempts = failed;
        waited += delay_secs;
    }
    assert_eq!(attempts + 1, 6);
    assert_eq!(waited, 64 - 2);
}

#[test]
fn the_queue_holds_four_blocks() {
    assert_eq!(PROVER_QUEUE_CAPACITY, 4);
}
