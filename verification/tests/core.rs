use telecom::provider::{resolve_step, MockTelecomProvider, TelecomProvider};
use telecom::repo::{VerificationEntry, VerificationKeeper, VerificationRepo, VerificationStep};
use telecom::{Balancer, BalancerType, Error, RoundRobinBalancer, VerificationRequest, VerificationServer};

fn entry(carrier: &str, number: &str, step: VerificationStep) -> VerificationEntry {
    VerificationEntry {
        carrier: carrier.to_owned(),
        number: number.to_owned(),
        time_ms: chrono::Utc::now().timestamp_millis(),
        step,
    }
}

fn mean(sum: u128, attempts: usize) -> f32 {
    sum as f32 / attempts as f32
}

#[test]
fn test_new_keeper() {
    let mut keeper =
        VerificationKeeper::new([1, 2, 3, 4, 5]).expect("failed to create new keeper");
    keeper
        .store_attempt(entry("carrier_1", "0177", VerificationStep::FirstSMS))
        .unwrap();

    let rank = keeper.get_provider_rank();
    assert_eq!(rank.len(), 1);
    assert_eq!(rank[0].carrier, "carrier_1".to_owned());
    assert_eq!(mean(rank[0].weighted_sum, rank[0].attempts), 1.0);

    keeper
        .store_attempt(entry("carrier_1", "0178", VerificationStep::Unreachable))
        .unwrap();
    keeper
        .store_attempt(entry("carrier_2", "0179", VerificationStep::FirstSMS))
        .unwrap();
    keeper
        .store_attempt(entry("carrier_2", "0180", VerificationStep::SecondSMS))
        .unwrap();

    let rank = keeper.get_provider_rank();
    assert_eq!(rank.len(), 2);
    assert_eq!(rank[0].carrier, "carrier_2".to_owned());
    assert_eq!(mean(rank[0].weighted_sum, rank[0].attempts), 1.5);
    assert_eq!(rank[1].carrier, "carrier_1".to_owned());
    assert_eq!(mean(rank[1].weighted_sum, rank[1].attempts), 3.0);
}

#[test]
fn round_robin_cycles_each_index_exactly_k_times() {
    let mut b = RoundRobinBalancer::new();
    let n: usize = 3;
    let k: usize = 4;
    let mut counts = vec![0usize; n];
    let mut expected: usize = 0;
    for _ in 0..k * n {
        let idx = b.next_idx(n);
        assert_eq!(idx, expected, "indices must come in cyclic ascending order");
        counts[idx] += 1;
        expected = (expected + 1) % n;
    }
    for c in counts {
        assert_eq!(c, k);
    }
}

#[test]
fn round_robin_single_provider_always_zero() {
    let mut b = RoundRobinBalancer::new();
    for _ in 0..10 {
        assert_eq!(b.next_idx(1), 0);
    }
}

#[test]
fn empty_pool_short_circuits_without_touching_ledger() {
    let keeper = VerificationKeeper::new([1, 2, 3, 4, 5]).unwrap();
    let mut server =
        VerificationServer::new(BalancerType::RoundRobin, Vec::new(), keeper).unwrap();
    assert!(server.get_provider_rank().rank.is_empty());
    let req = VerificationRequest { number: "0170".to_owned(), time_ms: 0 };
    let resp = server.handle_request(&req).unwrap();
    assert_eq!(resp.token, None);
    assert_eq!(resp.error, Some("no carriers found".to_owned()));
    assert!(server.get_provider_rank().rank.is_empty());
}

#[test]
fn weight_table_rejects_descending_values() {
    assert!(VerificationKeeper::new([1, 2, 3, 4, 5]).is_ok());
    assert!(VerificationKeeper::new([0, 0, 0, 0, 0]).is_ok());
    assert!(VerificationKeeper::new([1, 1, 2, 2, 3]).is_ok());
    assert!(VerificationKeeper::new([5, 4, 3, 2, 1]).is_err());
    assert!(VerificationKeeper::new([1, 2, 5, 4, 5]).is_err());
    assert!(VerificationKeeper::new([2, 1, 3, 4, 5]).is_err());
    match VerificationKeeper::new([9, 1, 1, 1, 1]) {
        Err(e) => assert!(matches!(e, Error::ConfigurationError)),
        Ok(_) => panic!("descending table must be rejected"),
    }
}

#[test]
fn single_first_sms_entry_ranks_at_mean_one() {
    let mut keeper = VerificationKeeper::new([1, 2, 3, 4, 5]).unwrap();
    keeper
        .store_attempt(entry("A", "0101", VerificationStep::FirstSMS))
        .unwrap();
    let rank = keeper.get_provider_rank();
    assert_eq!(rank.len(), 1);
    assert_eq!(rank[0].carrier, "A".to_owned());
    assert_eq!(mean(rank[0].weighted_sum, rank[0].attempts), 1.0);
}

#[test]
fn ranking_orders_two_carriers_by_ascending_mean() {
    let mut keeper = VerificationKeeper::new([1, 2, 3, 4, 5]).unwrap();
    keeper
        .store_attempt(entry("A", "0101", VerificationStep::FirstSMS))
        .unwrap();
    keeper
        .store_attempt(entry("A", "0102", VerificationStep::Unreachable))
        .unwrap();
    keeper
        .store_attempt(entry("B", "0103", VerificationStep::FirstSMS))
        .unwrap();
    keeper
        .store_attempt(entry("B", "0104", VerificationStep::SecondSMS))
        .unwrap();
    let rank = keeper.get_provider_rank();
    assert_eq!(rank.len(), 2);
    assert_eq!(rank[0].carrier, "B".to_owned());
    assert_eq!(mean(rank[0].weighted_sum, rank[0].attempts), 1.5);
    assert_eq!(rank[1].carrier, "A".to_owned());
    assert_eq!(mean(rank[1].weighted_sum, rank[1].attempts), 3.0);
}

#[test]
fn certain_sms_provider_always_resolves_first_sms() {
    let p = MockTelecomProvider::new("sure", 100, 37).unwrap();
    let number = "0172".to_owned();
    for _ in 0..50 {
        assert!(p.send_sms(&number));
        let e = p.verify(&number);
        assert_eq!(e.step, VerificationStep::FirstSMS);
        assert_eq!(e.carrier, "sure".to_owned());
        assert_eq!(e.number, number);
    }
}

#[test]
fn zero_chance_provider_always_unreachable() {
    let p = MockTelecomProvider::new("dead", 0, 0).unwrap();
    let number = "0173".to_owned();
    for _ in 0..50 {
        assert!(!p.send_sms(&number));
        assert!(!p.send_voice(&number));
        let e = p.verify(&number);
        assert_eq!(e.step, VerificationStep::Unreachable);
    }
}

#[test]
fn provider_rejects_chances_above_one_hundred() {
    assert!(MockTelecomProvider::new("a", 101, 50).is_err());
    assert!(MockTelecomProvider::new("b", 50, 101).is_err());
    assert!(MockTelecomProvider::new("c", 100, 100).is_ok());
    assert!(MockTelecomProvider::new("d", 0, 0).is_ok());
    match MockTelecomProvider::new("e", 255, 0) {
        Err(e) => assert!(matches!(e, Error::ConfigurationError)),
        Ok(_) => panic!("a chance above 100 must be rejected"),
    }
}

#[test]
fn resolve_step_reaches_every_step_deterministically() {
    assert_eq!(resolve_step(60, 60, 10, 99, 99, 99), VerificationStep::FirstSMS);
    assert_eq!(resolve_step(60, 60, 80, 10, 99, 99), VerificationStep::SecondSMS);
    assert_eq!(resolve_step(60, 60, 80, 80, 10, 99), VerificationStep::FirstTextToSpeech);
    assert_eq!(resolve_step(60, 60, 80, 80, 80, 10), VerificationStep::SecondTextToSpeech);
    assert_eq!(resolve_step(60, 60, 80, 80, 80, 80), VerificationStep::Unreachable);
    assert_eq!(resolve_step(0, 0, 0, 0, 0, 0), VerificationStep::Unreachable);
    assert_eq!(resolve_step(100, 0, 99, 0, 0, 0), VerificationStep::FirstSMS);
}

#[test]
fn successful_outcome_carries_nonempty_token_failure_none() {
    let keeper = VerificationKeeper::new([1, 2, 3, 4, 5]).unwrap();
    let sure = MockTelecomProvider::new("sure", 100, 100).unwrap();
    let mut server =
        VerificationServer::new(BalancerType::RoundRobin, vec![sure], keeper).unwrap();
    let req = VerificationRequest { number: "0174".to_owned(), time_ms: 1_700_000_000_000 };
    for _ in 0..10 {
        let resp = server.handle_request(&req).unwrap();
        let token = resp.token.expect("a successful outcome must carry a token");
        assert!(!token.is_empty());
        assert!(token.starts_with("Authorization: Bearer ey"));
        assert_eq!(resp.error, None);
    }

    let keeper = VerificationKeeper::new([1, 2, 3, 4, 5]).unwrap();
    let dead = MockTelecomProvider::new("dead", 0, 0).unwrap();
    let mut server =
        VerificationServer::new(BalancerType::RoundRobin, vec![dead], keeper).unwrap();
    for _ in 0..10 {
        let resp = server.handle_request(&req).unwrap();
        assert_eq!(resp.token, None);
        assert_eq!(resp.error, Some("verification unsuccessful".to_owned()));
    }
}

#[test]
fn dispatcher_records_every_dispatched_attempt() {
    let keeper = VerificationKeeper::new([1, 2, 3, 4, 5]).unwrap();
    let sure = MockTelecomProvider::new("sure", 100, 100).unwrap();
    let mut server =
        VerificationServer::new(BalancerType::RoundRobin, vec![sure], keeper).unwrap();
    let req = VerificationRequest { number: "0175".to_owned(), time_ms: 0 };
    for _ in 0..7 {
        server.handle_request(&req).unwrap();
    }
    let rank = server.get_provider_rank().rank;
    assert_eq!(rank.len(), 1);
    assert_eq!(rank[0].carrier, "sure".to_owned());
    assert_eq!(rank[0].attempts, 7);
    assert_eq!(mean(rank[0].weighted_sum, rank[0].attempts), 1.0);
}

#[test]
fn best_strategy_is_recognized_but_unsupported() {
    let keeper = VerificationKeeper::new([1, 2, 3, 4, 5]).unwrap();
    match VerificationServer::new(BalancerType::Best, Vec::new(), keeper) {
        Err(e) => assert!(matches!(e, Error::UnsupportedStrategy)),
        Ok(_) => panic!("the best-provider strategy is not implemented"),
    }
    let keeper = VerificationKeeper::new([1, 2, 3, 4, 5]).unwrap();
    assert!(VerificationServer::new(BalancerType::RoundRobin, Vec::new(), keeper).is_ok());
}

#[test]
fn strategy_selector_parses_both_spellings() {
    assert_eq!(BalancerType::parse("rr"), Ok(BalancerType::RoundRobin));
    assert_eq!(BalancerType::parse("round-robin"), Ok(BalancerType::RoundRobin));
    assert_eq!(BalancerType::parse("b"), Ok(BalancerType::Best));
    assert_eq!(BalancerType::parse("best"), Ok(BalancerType::Best));
    assert_eq!(BalancerType::parse("bogus"), Err(Error::ConfigurationError));
    assert_eq!(BalancerType::parse(""), Err(Error::ConfigurationError));
}

#[test]
fn strategy_selector_works_through_from_str() {
    assert_eq!("rr".parse::<BalancerType>(), Ok(BalancerType::RoundRobin));
    assert_eq!("best".parse::<BalancerType>(), Ok(BalancerType::Best));
    assert_eq!("nope".parse::<BalancerType>(), Err(Error::ConfigurationError));
}

#[test]
fn error_messages_are_not_empty() {
    assert!(!Error::ConfigurationError.message().is_empty());
    assert!(!Error::UnsupportedStrategy.message().is_empty());
    assert!(!Error::PersistenceFailure.message().is_empty());
}

#[test]
fn dispatcher_rotates_through_the_pool() {
    let keeper = VerificationKeeper::new([1, 2, 3, 4, 5]).unwrap();
    let a = MockTelecomProvider::new("a", 100, 100).unwrap();
    let b = MockTelecomProvider::new("b", 0, 0).unwrap();
    let mut server =
        VerificationServer::new(BalancerType::RoundRobin, vec![a, b], keeper).unwrap();
    let req = VerificationRequest { number: "0176".to_owned(), time_ms: 0 };
    // carrier "a" always succeeds, carrier "b" never does: with round-robin
    // dispatch the outcomes must alternate, starting at pool index 0
    for turn in 0..6 {
        let resp = server.handle_request(&req).unwrap();
        if turn % 2 == 0 {
            assert!(resp.token.is_some());
        } else {
            assert_eq!(resp.error, Some("verification unsuccessful".to_owned()));
        }
    }
    let rank = server.get_provider_rank().rank;
    assert_eq!(rank.len(), 2);
    assert_eq!(rank[0].carrier, "a".to_owned());
    assert_eq!(rank[0].attempts, 3);
    assert_eq!(mean(rank[0].weighted_sum, rank[0].attempts), 1.0);
    assert_eq!(rank[1].carrier, "b".to_owned());
    assert_eq!(rank[1].attempts, 3);
    assert_eq!(mean(rank[1].weighted_sum, rank[1].attempts), 5.0);
}
