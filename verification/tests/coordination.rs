use stock_tracker::coordinator::{fetch_stock_price, Action, Coordinator, Mode, Phase, CLI};

fn settings(codes: &str, interval: u64, use_async: bool) -> CLI {
    CLI { codes: codes.to_string(), interval, use_async }
}

fn describe(action: Action) -> String {
    match action {
        Action::Run { code } => format!("run {code}"),
        Action::Launch { code } => format!("launch {code}"),
        Action::Sleep { seconds } => format!("sleep {seconds}"),
    }
}

fn schedule(coordinator: &mut Coordinator, steps: usize) -> Vec<String> {
    let mut actions = Vec::new();
    for _ in 0..steps {
        actions.push(describe(coordinator.advance()));
    }
    actions
}

#[test]
fn the_switch_selects_the_mode() {
    let sequential = fetch_stock_price(settings("AAPL:NASDAQ,BBCA:IDX", 10, true));
    assert_eq!(sequential.mode, Mode::Sequential);
    assert_eq!(sequential.codes, vec!["AAPL:NASDAQ", "BBCA:IDX"]);
    assert_eq!(sequential.interval, 10);
    assert_eq!(sequential.phase, Phase::Idle);
    let concurrent = fetch_stock_price(settings("AAPL:NASDAQ,BBCA:IDX", 10, false));
    assert_eq!(concurrent.mode, Mode::Concurrent);
    assert_eq!(concurrent.codes, vec!["AAPL:NASDAQ", "BBCA:IDX"]);
    assert_eq!(concurrent.phase, Phase::Idle);
}

#[test]
fn a_new_coordinator_has_the_codes_cut_at_commas() {
    let coordinator = Coordinator::new(Mode::Concurrent, "A,B", 7);
    assert_eq!(coordinator.mode, Mode::Concurrent);
    assert_eq!(coordinator.codes, vec!["A", "B"]);
    assert_eq!(coordinator.interval, 7);
    assert_eq!(coordinator.phase, Phase::Idle);
}

#[test]
fn sequential_ticks_run_the_codes_in_order_and_sleep() {
    let mut coordinator = fetch_stock_price(settings("AAPL:NASDAQ,BBCA:IDX,TLKM:IDX", 10, true));
    assert_eq!(
        schedule(&mut coordinator, 9),
        vec![
            "run AAPL:NASDAQ",
            "run BBCA:IDX",
            "run TLKM:IDX",
            "sleep 10",
            "run AAPL:NASDAQ",
            "run BBCA:IDX",
            "run TLKM:IDX",
            "sleep 10",
            "run AAPL:NASDAQ",
        ]
    );
    assert_eq!(coordinator.phase, Phase::Dispatching { tick: 2, next: 1 });
}

#[test]
fn concurrent_ticks_launch_the_codes_in_order_and_sleep() {
    let mut coordinator = fetch_stock_price(settings("AAPL:NASDAQ,BBCA:IDX", 3, false));
    assert_eq!(
        schedule(&mut coordinator, 6),
        vec!["launch AAPL:NASDAQ", "launch BBCA:IDX", "sleep 3", "launch AAPL:NASDAQ", "launch BBCA:IDX", "sleep 3"]
    );
    assert_eq!(coordinator.phase, Phase::Sleeping { tick: 1 });
}

#[test]
fn phases_follow_each_other() {
    let mut coordinator = Coordinator::new(Mode::Sequential, "A,B", 5);
    assert_eq!(coordinator.phase, Phase::Idle);
    coordinator.advance();
    assert_eq!(coordinator.phase, Phase::Dispatching { tick: 0, next: 1 });
    coordinator.advance();
    assert_eq!(coordinator.phase, Phase::Dispatching { tick: 0, next: 2 });
    coordinator.advance();
    assert_eq!(coordinator.phase, Phase::Sleeping { tick: 0 });
    coordinator.advance();
    assert_eq!(coordinator.phase, Phase::Dispatching { tick: 1, next: 1 });
}

#[test]
fn an_empty_list_of_codes_is_one_empty_code() {
    let mut coordinator = Coordinator::new(Mode::Sequential, "", 2);
    assert_eq!(coordinator.codes, vec![""]);
    assert_eq!(schedule(&mut coordinator, 4), vec!["run ", "sleep 2", "run ", "sleep 2"]);
}

#[test]
fn a_coordinator_without_codes_only_sleeps() {
    let mut coordinator =
        Coordinator { mode: Mode::Concurrent, codes: Vec::new(), interval: 4, phase: Phase::Idle };
    assert_eq!(schedule(&mut coordinator, 3), vec!["sleep 4", "sleep 4", "sleep 4"]);
    assert_eq!(coordinator.phase, Phase::Sleeping { tick: 2 });
}

#[test]
fn the_tick_count_stops_at_its_largest_value() {
    let mut coordinator = Coordinator {
        mode: Mode::Sequential,
        codes: vec!["A".to_string()],
        interval: 1,
        phase: Phase::Sleeping { tick: u64::MAX - 1 },
    };
    assert_eq!(schedule(&mut coordinator, 2), vec!["run A", "sleep 1"]);
    assert_eq!(coordinator.phase, Phase::Sleeping { tick: u64::MAX });
    assert_eq!(schedule(&mut coordinator, 2), vec!["run A", "sleep 1"]);
    assert_eq!(coordinator.phase, Phase::Sleeping { tick: u64::MAX });
}

#[test]
fn an_index_past_the_codes_ends_the_tick() {
    let mut coordinator = Coordinator {
        mode: Mode::Sequential,
        codes: vec!["A".to_string()],
        interval: 1,
        phase: Phase::Dispatching { tick: 3, next: 9 },
    };
    assert_eq!(describe(coordinator.advance()), "sleep 1");
    assert_eq!(coordinator.phase, Phase::Sleeping { tick: 3 });
}
