use soroban_sdk::testutils::EnvTestConfig;
use soroban_sdk::{Env, Symbol};
use stellar_lend::{Identity, StorageKey};

fn host() -> Env {
    Env::new_with_config(EnvTestConfig { capture_snapshot_at_drop: false })
}

#[test]
fn test_key_uniqueness() {
    let env = host();

    let admin = StorageKey::admin(&env);
    let oracle = StorageKey::oracle(&env);
    let gov_counter = StorageKey::gov_counter(&env);
    let oracle_mode = StorageKey::oracle_mode(&env);

    assert_ne!(admin, oracle);
    assert_ne!(admin, gov_counter);
    assert_ne!(oracle, gov_counter);
    assert_ne!(gov_counter, oracle_mode);
}

#[test]
fn test_namespaced_keys() {
    let env = host();

    let gov_proposals = StorageKey::gov_proposals(&env);
    let gov_counter = StorageKey::gov_counter(&env);

    let oracle_mode = StorageKey::oracle_mode(&env);
    let oracle_perf = StorageKey::oracle_perf_count(&env);

    assert_ne!(gov_proposals, gov_counter);
    assert_ne!(oracle_mode, oracle_perf);
}

#[test]
fn keys_spell_their_names() {
    let env = host();
    let expected = [
        (StorageKey::admin(&env), "admin"),
        (StorageKey::oracle(&env), "oracle"),
        (StorageKey::min_collateral_ratio(&env), "min_ratio"),
        (StorageKey::flash_loan_fee_bps(&env), "flash_fee_bps"),
        (StorageKey::reentrancy_guard(&env), "reentrancy"),
        (StorageKey::interest_config(&env), "interest_config"),
        (StorageKey::interest_state(&env), "interest_state"),
        (StorageKey::risk_config(&env), "risk_config"),
        (StorageKey::emergency_state(&env), "emergency_state"),
        (StorageKey::event_aggregates(&env), "event_aggregates"),
        (StorageKey::event_logs(&env), "event_logs"),
        (StorageKey::event_summary(&env), "event_summary"),
        (StorageKey::token_registry(&env), "token_registry"),
        (StorageKey::primary_asset(&env), "primary_asset"),
        (StorageKey::gov_proposals(&env), "gov_proposals"),
        (StorageKey::gov_counter(&env), "gov_counter"),
        (StorageKey::gov_quorum_bps(&env), "gov_quorum_bps"),
        (StorageKey::gov_timelock(&env), "gov_timelock"),
        (StorageKey::oracle_heartbeat_ttl(&env), "oracle_heartbeat_ttl"),
        (StorageKey::oracle_mode(&env), "oracle_mode"),
        (StorageKey::oracle_perf_count(&env), "oracle_perf_count"),
        (StorageKey::amm_pairs(&env), "amm_pairs"),
        (StorageKey::amm_swap_history(&env), "amm_swap_history"),
        (StorageKey::amm_pair_count(&env), "amm_pair_count"),
        (StorageKey::analytics_protocol(&env), "analytics_protocol"),
        (StorageKey::analytics_performance(&env), "analytics_performance"),
    ];
    for (key, name) in expected {
        assert_eq!(key, Symbol::new(&env, name));
    }
}

#[test]
fn keys_of_an_entity_carry_it() {
    let env = host();
    let who = Identity::account([5u8; 32]);
    assert_eq!(StorageKey::gov_receipts(&env, 7), (Symbol::new(&env, "gov_receipts"), 7));
    assert_eq!(StorageKey::gov_delegation(&env, &who), (Symbol::new(&env, "gov_delegation"), who));
    assert_eq!(StorageKey::oracle_sources(&env, &who), (Symbol::new(&env, "oracle_sources"), who));
    assert_eq!(StorageKey::analytics_user(&env, &who), (Symbol::new(&env, "analytics_user"), who));
    assert_eq!(StorageKey::analytics_asset(&env, &who), (Symbol::new(&env, "analytics_asset"), who));
}

#[test]
fn names_of_all_kinds_differ() {
    let who = Identity::contract([0u8; 32]);
    let kinds = [
        StorageKey::Admin,
        StorageKey::Oracle,
        StorageKey::MinCollateralRatio,
        StorageKey::FlashLoanFeeBps,
        StorageKey::ReentrancyGuard,
        StorageKey::UserProfile(who),
        StorageKey::Position(who),
        StorageKey::InterestConfig,
        StorageKey::InterestState,
        StorageKey::RiskConfig,
        StorageKey::EmergencyState,
        StorageKey::EventAggregates,
        StorageKey::EventLogs,
        StorageKey::EventSummary,
        StorageKey::TokenRegistry,
        StorageKey::PrimaryAsset,
        StorageKey::GovProposals,
        StorageKey::GovReceipts(1),
        StorageKey::GovCounter,
        StorageKey::GovQuorumBps,
        StorageKey::GovTimelock,
        StorageKey::GovDelegation(who),
        StorageKey::OracleSources(who),
        StorageKey::OracleHeartbeatTtl,
        StorageKey::OracleMode,
        StorageKey::OraclePerfCount,
        StorageKey::AmmPairs,
        StorageKey::AmmSwapHistory,
        StorageKey::AmmPairCount,
        StorageKey::AnalyticsProtocol,
        StorageKey::AnalyticsUser(who),
        StorageKey::AnalyticsAsset(who),
        StorageKey::AnalyticsPerformance,
    ];
    let env = host();
    for (i, a) in kinds.iter().enumerate() {
        assert!(a.name().len() <= 32);
        assert_eq!(a.symbol(&env), Symbol::new(&env, a.name()));
        for b in kinds.iter().skip(i + 1) {
            assert_ne!(a.name(), b.name());
        }
    }
    assert_eq!(StorageKey::GovReceipts(1).name(), StorageKey::GovReceipts(2).name());
}
