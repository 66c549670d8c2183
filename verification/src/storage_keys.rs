//! The names under which the protocol keeps its data in the host's storage.
//!
//! Every kind of record has a name of its own, so that no feature can write over what
//! another has stored. A record that belongs to one proposal, user or asset is kept under
//! the name of its kind together with that entity.
use vstd::prelude::*;
use crate::host::{symbol, symbol_chars, symbol_text};
use crate::identity::Identity;

verus! {

/// The kinds of record that the protocol stores, each with the entity it belongs to where
/// there is one.
#[derive(Clone, Copy, Debug, PartialEq, Eq)]
pub enum StorageKey {
    /// The protocol's administrator.
    Admin,
    /// The address of the oracle contract.
    Oracle,
    /// The minimum collateral ratio.
    MinCollateralRatio,
    /// The flash-loan fee, in basis points.
    FlashLoanFeeBps,
    /// The flag that guards against re-entry.
    ReentrancyGuard,
    /// The profile of a user.
    UserProfile(Identity),
    /// The position of a user.
    Position(Identity),
    /// The interest-rate configuration.
    InterestConfig,
    /// The interest-rate state.
    InterestState,
    /// The risk parameters.
    RiskConfig,
    /// The emergency state and controls.
    EmergencyState,
    /// The event aggregates, by type.
    EventAggregates,
    /// The event logs, by type.
    EventLogs,
    /// The event summary.
    EventSummary,
    /// The registry of token assets.
    TokenRegistry,
    /// The address of the primary asset.
    PrimaryAsset,
    /// The governance proposals.
    GovProposals,
    /// The vote receipts of one proposal.
    GovReceipts(u64),
    /// The proposal counter.
    GovCounter,
    /// The governance quorum, in basis points.
    GovQuorumBps,
    /// The governance timelock, in seconds.
    GovTimelock,
    /// The delegate of one delegator.
    GovDelegation(Identity),
    /// The price sources of one asset.
    OracleSources(Identity),
    /// The oracle's heartbeat time-to-live.
    OracleHeartbeatTtl,
    /// The oracle's aggregation mode.
    OracleMode,
    /// The oracle's count of aggregations.
    OraclePerfCount,
    /// The registry of market-maker pairs.
    AmmPairs,
    /// The history of swaps.
    AmmSwapHistory,
    /// The count of market-maker pairs.
    AmmPairCount,
    /// The protocol's metrics.
    AnalyticsProtocol,
    /// The metrics of one user.
    AnalyticsUser(Identity),
    /// The metrics of one asset.
    AnalyticsAsset(Identity),
    /// The performance metrics.
    AnalyticsPerformance,
}

impl StorageKey {
    /// The name of the key's kind.
    pub open spec fn name_of(self) -> Seq<char> {
        match self {
            StorageKey::Admin => "admin"@,
            StorageKey::Oracle => "oracle"@,
            StorageKey::MinCollateralRatio => "min_ratio"@,
            StorageKey::FlashLoanFeeBps => "flash_fee_bps"@,
            StorageKey::ReentrancyGuard => "reentrancy"@,
            StorageKey::UserProfile(_) => "user_profile"@,
            StorageKey::Position(_) => "position"@,
            StorageKey::InterestConfig => "interest_config"@,
            StorageKey::InterestState => "interest_state"@,
            StorageKey::RiskConfig => "risk_config"@,
            StorageKey::EmergencyState => "emergency_state"@,
            StorageKey::EventAggregates => "event_aggregates"@,
            StorageKey::EventLogs => "event_logs"@,
            StorageKey::EventSummary => "event_summary"@,
            StorageKey::TokenRegistry => "token_registry"@,
            StorageKey::PrimaryAsset => "primary_asset"@,
            StorageKey::GovProposals => "gov_proposals"@,
            StorageKey::GovReceipts(_) => "gov_receipts"@,
            StorageKey::GovCounter => "gov_counter"@,
            StorageKey::GovQuorumBps => "gov_quorum_bps"@,
            StorageKey::GovTimelock => "gov_timelock"@,
            StorageKey::GovDelegation(_) => "gov_delegation"@,
            StorageKey::OracleSources(_) => "oracle_sources"@,
            StorageKey::OracleHeartbeatTtl => "oracle_heartbeat_ttl"@,
            StorageKey::OracleMode => "oracle_mode"@,
            StorageKey::OraclePerfCount => "oracle_perf_count"@,
            StorageKey::AmmPairs => "amm_pairs"@,
            StorageKey::AmmSwapHistory => "amm_swap_history"@,
            StorageKey::AmmPairCount => "amm_pair_count"@,
            StorageKey::AnalyticsProtocol => "analytics_protocol"@,
            StorageKey::AnalyticsUser(_) => "analytics_user"@,
            StorageKey::AnalyticsAsset(_) => "analytics_asset"@,
            StorageKey::AnalyticsPerformance => "analytics_performance"@,
        }
    }

    /// Whether `self` and `other` are keys of the same kind, whatever entity each belongs
    /// to.
    pub open spec fn same_kind(self, other: StorageKey) -> bool {
        match self {
            StorageKey::Admin => other is Admin,
            StorageKey::Oracle => other is Oracle,
            StorageKey::MinCollateralRatio => other is MinCollateralRatio,
            StorageKey::FlashLoanFeeBps => other is FlashLoanFeeBps,
            StorageKey::ReentrancyGuard => other is ReentrancyGuard,
            StorageKey::UserProfile(_) => other is UserProfile,
            StorageKey::Position(_) => other is Position,
            StorageKey::InterestConfig => other is InterestConfig,
            StorageKey::InterestState => other is InterestState,
            StorageKey::RiskConfig => other is RiskConfig,
            StorageKey::EmergencyState => other is EmergencyState,
            StorageKey::EventAggregates => other is EventAggregates,
            StorageKey::EventLogs => other is EventLogs,
            StorageKey::EventSummary => other is EventSummary,
            StorageKey::TokenRegistry => other is TokenRegistry,
            StorageKey::PrimaryAsset => other is PrimaryAsset,
            StorageKey::GovProposals => other is GovProposals,
            StorageKey::GovReceipts(_) => other is GovReceipts,
            StorageKey::GovCounter => other is GovCounter,
            StorageKey::GovQuorumBps => other is GovQuorumBps,
            StorageKey::GovTimelock => other is GovTimelock,
            StorageKey::GovDelegation(_) => other is GovDelegation,
            StorageKey::OracleSources(_) => other is OracleSources,
            StorageKey::OracleHeartbeatTtl => other is OracleHeartbeatTtl,
            StorageKey::OracleMode => other is OracleMode,
            StorageKey::OraclePerfCount => other is OraclePerfCount,
            StorageKey::AmmPairs => other is AmmPairs,
            StorageKey::AmmSwapHistory => other is AmmSwapHistory,
            StorageKey::AmmPairCount => other is AmmPairCount,
            StorageKey::AnalyticsProtocol => other is AnalyticsProtocol,
            StorageKey::AnalyticsUser(_) => other is AnalyticsUser,
            StorageKey::AnalyticsAsset(_) => other is AnalyticsAsset,
            StorageKey::AnalyticsPerformance => other is AnalyticsPerformance,
        }
    }

    /// The name of the key's kind. Every name can be made into a host symbol.
    pub fn name(&self) -> (name: &'static str)
        ensures
            name@ == self.name_of(),
            symbol_text(name@),
    {
        proof {
            lemma_names_are_symbols(*self);
        }
        match self {
            StorageKey::Admin => "admin",
            StorageKey::Oracle => "oracle",
            StorageKey::MinCollateralRatio => "min_ratio",
            StorageKey::FlashLoanFeeBps => "flash_fee_bps",
            StorageKey::ReentrancyGuard => "reentrancy",
            StorageKey::UserProfile(_) => "user_profile",
            StorageKey::Position(_) => "position",
            StorageKey::InterestConfig => "interest_config",
            StorageKey::InterestState => "interest_state",
            StorageKey::RiskConfig => "risk_config",
            StorageKey::EmergencyState => "emergency_state",
            StorageKey::EventAggregates => "event_aggregates",
            StorageKey::EventLogs => "event_logs",
            StorageKey::EventSummary => "event_summary",
            StorageKey::TokenRegistry => "token_registry",
            StorageKey::PrimaryAsset => "primary_asset",
            StorageKey::GovProposals => "gov_proposals",
            StorageKey::GovReceipts(_) => "gov_receipts",
            StorageKey::GovCounter => "gov_counter",
            StorageKey::GovQuorumBps => "gov_quorum_bps",
            StorageKey::GovTimelock => "gov_timelock",
            StorageKey::GovDelegation(_) => "gov_delegation",
            StorageKey::OracleSources(_) => "oracle_sources",
            StorageKey::OracleHeartbeatTtl => "oracle_heartbeat_ttl",
            StorageKey::OracleMode => "oracle_mode",
            StorageKey::OraclePerfCount => "oracle_perf_count",
            StorageKey::AmmPairs => "amm_pairs",
            StorageKey::AmmSwapHistory => "amm_swap_history",
            StorageKey::AmmPairCount => "amm_pair_count",
            StorageKey::AnalyticsProtocol => "analytics_protocol",
            StorageKey::AnalyticsUser(_) => "analytics_user",
            StorageKey::AnalyticsAsset(_) => "analytics_asset",
            StorageKey::AnalyticsPerformance => "analytics_performance",
        }
    }

    /// The host symbol that spells the name of the key's kind.
    pub fn symbol(&self, env: &soroban_sdk::Env) -> (symbol: soroban_sdk::Symbol)
        ensures
            symbol_chars(symbol) == self.name_of(),
    {
        symbol(env, self.name())
    }

    /// The key of the protocol's administrator.
    pub fn admin(env: &soroban_sdk::Env) -> (key: soroban_sdk::Symbol)
        ensures
            symbol_chars(key) == StorageKey::Admin.name_of(),
    {
        StorageKey::Admin.symbol(env)
    }

    /// The key of the address of the oracle contract.
    pub fn oracle(env: &soroban_sdk::Env) -> (key: soroban_sdk::Symbol)
        ensures
            symbol_chars(key) == StorageKey::Oracle.name_of(),
    {
        StorageKey::Oracle.symbol(env)
    }

    /// The key of the minimum collateral ratio.
    pub fn min_collateral_ratio(env: &soroban_sdk::Env) -> (key: soroban_sdk::Symbol)
        ensures
            symbol_chars(key) == StorageKey::MinCollateralRatio.name_of(),
    {
        StorageKey::MinCollateralRatio.symbol(env)
    }

    /// The key of the flash-loan fee, in basis points.
    pub fn flash_loan_fee_bps(env: &soroban_sdk::Env) -> (key: soroban_sdk::Symbol)
        ensures
            symbol_chars(key) == StorageKey::FlashLoanFeeBps.name_of(),
    {
        StorageKey::FlashLoanFeeBps.symbol(env)
    }

    /// The key of the flag that guards against re-entry.
    pub fn reentrancy_guard(env: &soroban_sdk::Env) -> (key: soroban_sdk::Symbol)
        ensures
            symbol_chars(key) == StorageKey::ReentrancyGuard.name_of(),
    {
        StorageKey::ReentrancyGuard.symbol(env)
    }

    /// The key of the interest-rate configuration.
    pub fn interest_config(env: &soroban_sdk::Env) -> (key: soroban_sdk::Symbol)
        ensures
            symbol_chars(key) == StorageKey::InterestConfig.name_of(),
    {
        StorageKey::InterestConfig.symbol(env)
    }

    /// The key of the interest-rate state.
    pub fn interest_state(env: &soroban_sdk::Env) -> (key: soroban_sdk::Symbol)
        ensures
            symbol_chars(key) == StorageKey::InterestState.name_of(),
    {
        StorageKey::InterestState.symbol(env)
    }

    /// The key of the risk parameters.
    pub fn risk_config(env: &soroban_sdk::Env) -> (key: soroban_sdk::Symbol)
        ensures
            symbol_chars(key) == StorageKey::RiskConfig.name_of(),
    {
        StorageKey::RiskConfig.symbol(env)
    }

    /// The key of the emergency state and controls.
    pub fn emergency_state(env: &soroban_sdk::Env) -> (key: soroban_sdk::Symbol)
        ensures
            symbol_chars(key) == StorageKey::EmergencyState.name_of(),
    {
        StorageKey::EmergencyState.symbol(env)
    }

    /// The key of the event aggregates, by type.
    pub fn event_aggregates(env: &soroban_sdk::Env) -> (key: soroban_sdk::Symbol)
        ensures
            symbol_chars(key) == StorageKey::EventAggregates.name_of(),
    {
        StorageKey::EventAggregates.symbol(env)
    }

    /// The key of the event logs, by type.
    pub fn event_logs(env: &soroban_sdk::Env) -> (key: soroban_sdk::Symbol)
        ensures
            symbol_chars(key) == StorageKey::EventLogs.name_of(),
    {
        StorageKey::EventLogs.symbol(env)
    }

    /// The key of the event summary.
    pub fn event_summary(env: &soroban_sdk::Env) -> (key: soroban_sdk::Symbol)
        ensures
            symbol_chars(key) == StorageKey::EventSummary.name_of(),
    {
        StorageKey::EventSummary.symbol(env)
    }

    /// The key of the registry of token assets.
    pub fn token_registry(env: &soroban_sdk::Env) -> (key: soroban_sdk::Symbol)
        ensures
            symbol_chars(key) == StorageKey::TokenRegistry.name_of(),
    {
        StorageKey::TokenRegistry.symbol(env)
    }

    /// The key of the address of the primary asset.
    pub fn primary_asset(env: &soroban_sdk::Env) -> (key: soroban_sdk::Symbol)
        ensures
            symbol_chars(key) == StorageKey::PrimaryAsset.name_of(),
    {
        StorageKey::PrimaryAsset.symbol(env)
    }

    /// The key of the governance proposals.
    pub fn gov_proposals(env: &soroban_sdk::Env) -> (key: soroban_sdk::Symbol)
        ensures
            symbol_chars(key) == StorageKey::GovProposals.name_of(),
    {
        StorageKey::GovProposals.symbol(env)
    }

    /// The key of the vote receipts of one proposal.
    pub fn gov_receipts(env: &soroban_sdk::Env, proposal_id: u64) -> (key: (soroban_sdk::Symbol, u64))
        ensures
            symbol_chars(key.0) == StorageKey::GovReceipts(proposal_id).name_of(),
            key.1 == proposal_id,
    {
        (StorageKey::GovReceipts(proposal_id).symbol(env), proposal_id)
    }

    /// The key of the proposal counter.
    pub fn gov_counter(env: &soroban_sdk::Env) -> (key: soroban_sdk::Symbol)
        ensures
            symbol_chars(key) == StorageKey::GovCounter.name_of(),
    {
        StorageKey::GovCounter.symbol(env)
    }

    /// The key of the governance quorum, in basis points.
    pub fn gov_quorum_bps(env: &soroban_sdk::Env) -> (key: soroban_sdk::Symbol)
        ensures
            symbol_chars(key) == StorageKey::GovQuorumBps.name_of(),
    {
        StorageKey::GovQuorumBps.symbol(env)
    }

    /// The key of the governance timelock, in seconds.
    pub fn gov_timelock(env: &soroban_sdk::Env) -> (key: soroban_sdk::Symbol)
        ensures
            symbol_chars(key) == StorageKey::GovTimelock.name_of(),
    {
        StorageKey::GovTimelock.symbol(env)
    }

    /// The key of the delegate of one delegator.
    pub fn gov_delegation(env: &soroban_sdk::Env, delegator: &Identity) -> (key: (soroban_sdk::Symbol, Identity))
        ensures
            symbol_chars(key.0) == StorageKey::GovDelegation(*delegator).name_of(),
            key.1 == *delegator,
    {
        (StorageKey::GovDelegation(*delegator).symbol(env), *delegator)
    }

    /// The key of the price sources of one asset.
    pub fn oracle_sources(env: &soroban_sdk::Env, asset: &Identity) -> (key: (soroban_sdk::Symbol, Identity))
        ensures
            symbol_chars(key.0) == StorageKey::OracleSources(*asset).name_of(),
            key.1 == *asset,
    {
        (StorageKey::OracleSources(*asset).symbol(env), *asset)
    }

    /// The key of the oracle's heartbeat time-to-live.
    pub fn oracle_heartbeat_ttl(env: &soroban_sdk::Env) -> (key: soroban_sdk::Symbol)
        ensures
            symbol_chars(key) == StorageKey::OracleHeartbeatTtl.name_of(),
    {
        StorageKey::OracleHeartbeatTtl.symbol(env)
    }

    /// The key of the oracle's aggregation mode.
    pub fn oracle_mode(env: &soroban_sdk::Env) -> (key: soroban_sdk::Symbol)
        ensures
            symbol_chars(key) == StorageKey::OracleMode.name_of(),
    {
        StorageKey::OracleMode.symbol(env)
    }

    /// The key of the oracle's count of aggregations.
    pub fn oracle_perf_count(env: &soroban_sdk::Env) -> (key: soroban_sdk::Symbol)
        ensures
            symbol_chars(key) == StorageKey::OraclePerfCount.name_of(),
    {
        StorageKey::OraclePerfCount.symbol(env)
    }

    /// The key of the registry of market-maker pairs.
    pub fn amm_pairs(env: &soroban_sdk::Env) -> (key: soroban_sdk::Symbol)
        ensures
            symbol_chars(key) == StorageKey::AmmPairs.name_of(),
    {
        StorageKey::AmmPairs.symbol(env)
    }

    /// The key of the history of swaps.
    pub fn amm_swap_history(env: &soroban_sdk::Env) -> (key: soroban_sdk::Symbol)
        ensures
            symbol_chars(key) == StorageKey::AmmSwapHistory.name_of(),
    {
        StorageKey::AmmSwapHistory.symbol(env)
    }

    /// The key of the count of market-maker pairs.
    pub fn amm_pair_count(env: &soroban_sdk::Env) -> (key: soroban_sdk::Symbol)
        ensures
            symbol_chars(key) == StorageKey::AmmPairCount.name_of(),
    {
        StorageKey::AmmPairCount.symbol(env)
    }

    /// The key of the protocol's metrics.
    pub fn analytics_protocol(env: &soroban_sdk::Env) -> (key: soroban_sdk::Symbol)
        ensures
            symbol_chars(key) == StorageKey::AnalyticsProtocol.name_of(),
    {
        StorageKey::AnalyticsProtocol.symbol(env)
    }

    /// The key of the metrics of one user.
    pub fn analytics_user(env: &soroban_sdk::Env, user: &Identity) -> (key: (soroban_sdk::Symbol, Identity))
        ensures
            symbol_chars(key.0) == StorageKey::AnalyticsUser(*user).name_of(),
            key.1 == *user,
    {
        (StorageKey::AnalyticsUser(*user).symbol(env), *user)
    }

    /// The key of the metrics of one asset.
    pub fn analytics_asset(env: &soroban_sdk::Env, asset: &Identity) -> (key: (soroban_sdk::Symbol, Identity))
        ensures
            symbol_chars(key.0) == StorageKey::AnalyticsAsset(*asset).name_of(),
            key.1 == *asset,
    {
        (StorageKey::AnalyticsAsset(*asset).symbol(env), *asset)
    }

    /// The key of the performance metrics.
    pub fn analytics_performance(env: &soroban_sdk::Env) -> (key: soroban_sdk::Symbol)
        ensures
            symbol_chars(key) == StorageKey::AnalyticsPerformance.name_of(),
    {
        StorageKey::AnalyticsPerformance.symbol(env)
    }
}

/// What the names are like: each can be made into a host symbol, and two keys with one
/// name are of one kind. The names tell themselves apart by their length, their first
/// and their fifth character.
proof fn lemma_names(a: StorageKey, b: StorageKey)
    ensures
        symbol_text(a.name_of()),
        a.name_of() == b.name_of() ==> a.same_kind(b),
{
    reveal_strlit("admin");
    reveal_strlit("oracle");
    reveal_strlit("min_ratio");
    reveal_strlit("flash_fee_bps");
    reveal_strlit("reentrancy");
    reveal_strlit("user_profile");
    reveal_strlit("position");
    reveal_strlit("interest_config");
    reveal_strlit("interest_state");
    reveal_strlit("risk_config");
    reveal_strlit("emergency_state");
    reveal_strlit("event_aggregates");
    reveal_strlit("event_logs");
    reveal_strlit("event_summary");
    reveal_strlit("token_registry");
    reveal_strlit("primary_asset");
    reveal_strlit("gov_proposals");
    reveal_strlit("gov_receipts");
    reveal_strlit("gov_counter");
    reveal_strlit("gov_quorum_bps");
    reveal_strlit("gov_timelock");
    reveal_strlit("gov_delegation");
    reveal_strlit("oracle_sources");
    reveal_strlit("oracle_heartbeat_ttl");
    reveal_strlit("oracle_mode");
    reveal_strlit("oracle_perf_count");
    reveal_strlit("amm_pairs");
    reveal_strlit("amm_swap_history");
    reveal_strlit("amm_pair_count");
    reveal_strlit("analytics_protocol");
    reveal_strlit("analytics_user");
    reveal_strlit("analytics_asset");
    reveal_strlit("analytics_performance");
    if a.name_of() == b.name_of() {
        let left = a.name_of();
        let right = b.name_of();
        assert(left.len() == right.len() && left[0] == right[0] && left[4] == right[4]);
    }
}

/// Every key's name can be made into a host symbol: it has at most 32 characters, all of
/// them letters, digits or underscores.
pub proof fn lemma_names_are_symbols(key: StorageKey)
    ensures
        symbol_text(key.name_of()),
{
    lemma_names(key, key);
}

/// No two kinds of record share a name: keys with the same name are of the same kind.
pub proof fn law_names_do_not_collide(a: StorageKey, b: StorageKey)
    requires
        a.name_of() == b.name_of(),
    ensures
        a.same_kind(b),
{
    lemma_names(a, b);
}

} // verus!
