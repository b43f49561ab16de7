use agentalpha::{
    commit_signal, compute_signal_hash, record_outcome, register_provider, reveal_signal,
    AgentAlphaError, CommitSignal, Event, Ledger, Phase, Pubkey, RecordOutcome,
    RegisterProvider, RevealSignal,
};

const BTC_DIGEST: [u8; 32] = [
    149, 106, 141, 102, 222, 33, 157, 89, 88, 15, 212, 57, 169, 144, 205, 139, 122, 98, 150, 12,
    152, 224, 25, 148, 148, 34, 53, 31, 98, 44, 14, 31,
];

fn scenario_owner() -> Pubkey {
    Pubkey::new([0xA1; 32])
}

fn scenario_reporter() -> Pubkey {
    Pubkey::new([0x0C; 32])
}

fn scenario_registered() -> Ledger {
    let mut ledger = Ledger::new(scenario_reporter());
    let done = register_provider(
        &mut ledger,
        RegisterProvider { authority: scenario_owner(), now: 1_700_000_000 },
        String::from("AlphaBot"),
        String::from("https://x"),
        vec![1, 2],
        1_000_000,
    );
    assert_eq!(done, Ok(()));
    ledger
}

fn scenario_committed() -> Ledger {
    let mut ledger = scenario_registered();
    let done = commit_signal(
        &mut ledger,
        CommitSignal { provider: scenario_owner(), authority: scenario_owner(), now: 1_700_000_100 },
        BTC_DIGEST,
    );
    assert_eq!(done, Ok(()));
    ledger
}

fn scenario_reveal(ledger: &mut Ledger, now: i64) -> Result<(), AgentAlphaError> {
    reveal_signal(
        ledger,
        RevealSignal {
            provider: scenario_owner(),
            signal_hash: BTC_DIGEST,
            authority: scenario_owner(),
            now,
        },
        String::from("BTC"),
        0,
        6_500_000,
        6_700_000,
        6_400_000,
        24,
        80,
    )
}

fn scenario_resolve(ledger: &mut Ledger, now: i64) -> Result<(), AgentAlphaError> {
    record_outcome(
        ledger,
        RecordOutcome {
            provider: scenario_owner(),
            signal_hash: BTC_DIGEST,
            oracle: scenario_reporter(),
            now,
        },
        1,
        6_700_000,
        308,
    )
}

#[test]
fn scenario_register_gives_a_provider_at_zero() {
    let ledger = scenario_registered();
    let provider = ledger.provider(&scenario_owner()).expect("registered");
    assert_eq!(provider.authority, scenario_owner());
    assert_eq!(provider.name, "AlphaBot");
    assert_eq!(provider.endpoint, "https://x");
    assert_eq!(provider.categories, vec![1, 2]);
    assert_eq!(provider.price_lamports, 1_000_000);
    assert_eq!(provider.total_signals, 0);
    assert_eq!(provider.correct_signals, 0);
    assert_eq!(provider.total_return_bps, 0);
    assert_eq!(provider.hit_rate_bps(), 0);
    assert_eq!(provider.avg_return_bps(), 0);
    assert_eq!(provider.created_at, 1_700_000_000);
    assert_eq!(provider.updated_at, 1_700_000_000);
    assert_eq!(ledger.events().len(), 1);
    match &ledger.events()[0] {
        Event::ProviderRegistered(e) => {
            assert_eq!(e.provider, scenario_owner());
            assert_eq!(e.authority, scenario_owner());
            assert_eq!(e.name, "AlphaBot");
            assert_eq!(e.endpoint, "https://x");
        }
        other => panic!("unexpected entry {:?}", other),
    }
}

#[test]
fn scenario_digest_of_the_btc_prediction() {
    let digest = compute_signal_hash("BTC", 0, 6_500_000, 6_700_000, 6_400_000, 24, 80);
    assert_eq!(digest, BTC_DIGEST);
}

#[test]
fn scenario_commit_gives_an_unrevealed_record() {
    let ledger = scenario_committed();
    let commit = ledger.commitment(&scenario_owner(), &BTC_DIGEST).expect("committed");
    assert_eq!(commit.provider, scenario_owner());
    assert_eq!(commit.signal_hash, BTC_DIGEST);
    assert_eq!(commit.committed_at, 1_700_000_100);
    assert!(!commit.revealed);
    assert!(!commit.outcome_recorded);
    assert!(commit.signal.is_none());
    assert!(commit.resolution.is_none());
    assert_eq!(commit.phase(), Phase::Committed);
    assert_eq!(ledger.events().len(), 2);
    match &ledger.events()[1] {
        Event::SignalCommitted(e) => {
            assert_eq!(e.provider, scenario_owner());
            assert_eq!(e.signal_hash, BTC_DIGEST);
            assert_eq!(e.committed_at, 1_700_000_100);
        }
        other => panic!("unexpected entry {:?}", other),
    }
}

#[test]
fn scenario_reveal_succeeds_and_a_repeat_fails() {
    let mut ledger = scenario_committed();
    assert_eq!(scenario_reveal(&mut ledger, 1_700_000_200), Ok(()));
    {
        let commit = ledger.commitment(&scenario_owner(), &BTC_DIGEST).expect("committed");
        assert!(commit.revealed);
        assert!(!commit.outcome_recorded);
        assert_eq!(commit.phase(), Phase::Revealed);
        let signal = commit.signal.as_ref().expect("revealed");
        assert_eq!(signal.token, "BTC");
        assert_eq!(signal.direction, agentalpha::Direction::Buy);
        assert_eq!(signal.entry_cents, 6_500_000);
        assert_eq!(signal.tp_cents, 6_700_000);
        assert_eq!(signal.sl_cents, 6_400_000);
        assert_eq!(signal.timeframe_hours, 24);
        assert_eq!(signal.confidence, 80);
        assert_eq!(signal.revealed_at, 1_700_000_200);
    }
    assert_eq!(ledger.events().len(), 3);
    match &ledger.events()[2] {
        Event::SignalRevealed(e) => {
            assert_eq!(e.provider, scenario_owner());
            assert_eq!(e.signal_hash, BTC_DIGEST);
            assert_eq!(e.token, "BTC");
            assert_eq!(e.direction, 0);
            assert_eq!(e.entry_cents, 6_500_000);
            assert_eq!(e.tp_cents, 6_700_000);
            assert_eq!(e.sl_cents, 6_400_000);
            assert_eq!(e.timeframe_hours, 24);
            assert_eq!(e.confidence, 80);
        }
        other => panic!("unexpected entry {:?}", other),
    }
    assert_eq!(
        scenario_reveal(&mut ledger, 1_700_000_300),
        Err(AgentAlphaError::AlreadyRevealed)
    );
    let commit = ledger.commitment(&scenario_owner(), &BTC_DIGEST).expect("committed");
    assert_eq!(commit.signal.as_ref().expect("revealed").revealed_at, 1_700_000_200);
    assert_eq!(ledger.events().len(), 3);
}

#[test]
fn scenario_resolve_counts_once_and_a_repeat_fails() {
    let mut ledger = scenario_committed();
    assert_eq!(scenario_reveal(&mut ledger, 1_700_000_200), Ok(()));
    assert_eq!(scenario_resolve(&mut ledger, 1_700_090_000), Ok(()));
    {
        let commit = ledger.commitment(&scenario_owner(), &BTC_DIGEST).expect("committed");
        assert!(commit.outcome_recorded);
        assert_eq!(commit.phase(), Phase::Resolved);
        let resolution = commit.resolution.expect("resolved");
        assert_eq!(resolution.outcome, agentalpha::Outcome::TargetHit);
        assert_eq!(resolution.final_price_cents, 6_700_000);
        assert!(resolution.was_correct);
        assert_eq!(resolution.return_bps, 308);
        assert_eq!(resolution.evaluated_at, 1_700_090_000);
        let provider = ledger.provider(&scenario_owner()).expect("registered");
        assert_eq!(provider.total_signals, 1);
        assert_eq!(provider.correct_signals, 1);
        assert_eq!(provider.total_return_bps, 308);
        assert_eq!(provider.hit_rate_bps(), 10000);
        assert_eq!(provider.avg_return_bps(), 308);
        assert_eq!(provider.updated_at, 1_700_090_000);
    }
    assert_eq!(ledger.events().len(), 4);
    match &ledger.events()[3] {
        Event::OutcomeRecorded(e) => {
            assert_eq!(e.provider, scenario_owner());
            assert_eq!(e.signal_hash, BTC_DIGEST);
            assert_eq!(e.outcome, 1);
            assert!(e.was_correct);
            assert_eq!(e.return_bps, 308);
            assert_eq!(e.total_signals, 1);
            assert_eq!(e.correct_signals, 1);
        }
        other => panic!("unexpected entry {:?}", other),
    }
    assert_eq!(
        scenario_resolve(&mut ledger, 1_700_099_000),
        Err(AgentAlphaError::AlreadyResolved)
    );
    let provider = ledger.provider(&scenario_owner()).expect("registered");
    assert_eq!(provider.total_signals, 1);
    assert_eq!(provider.correct_signals, 1);
    assert_eq!(provider.total_return_bps, 308);
    assert_eq!(provider.updated_at, 1_700_090_000);
    assert_eq!(ledger.events().len(), 4);
}
