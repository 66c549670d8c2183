use soroban_sdk::address_payload::AddressPayload;
use soroban_sdk::testutils::{Address as _, ContractFunctionSet, EnvTestConfig};
use soroban_sdk::{Address, Env, IntoVal, Val};
use stellar_lend::aggregation::{MODE_MEAN, MODE_MEDIAN};
use stellar_lend::oracle::DEFAULT_HEARTBEAT_TTL;
use stellar_lend::{Identity, Oracle, OracleSource, OracleStorage, ProtocolError};

/// A price source that always answers with the same number.
struct FixedPrice(i128);

impl ContractFunctionSet for FixedPrice {
    fn call(&self, func: &str, env: Env, _args: &[Val]) -> Option<Val> {
        if func == "get_price" {
            Some(self.0.into_val(&env))
        } else {
            None
        }
    }
}

/// A contract that knows no `get_price`.
struct NoPrice;

impl ContractFunctionSet for NoPrice {
    fn call(&self, _func: &str, _env: Env, _args: &[Val]) -> Option<Val> {
        None
    }
}

/// A source that answers with something that is no number.
struct OddAnswer;

impl ContractFunctionSet for OddAnswer {
    fn call(&self, func: &str, env: Env, _args: &[Val]) -> Option<Val> {
        if func == "get_price" {
            Some(true.into_val(&env))
        } else {
            None
        }
    }
}

fn host() -> Env {
    Env::new_with_config(EnvTestConfig { capture_snapshot_at_drop: false })
}

fn identity_of(address: &Address) -> Identity {
    match AddressPayload::from_address(address) {
        Some(AddressPayload::ContractIdHash(hash)) => Identity::contract(hash.to_array()),
        Some(AddressPayload::AccountIdPublicKeyEd25519(key)) => Identity::account(key.to_array()),
        None => panic!("an address of another kind"),
    }
}

fn source_answering(env: &Env, price: i128, heartbeat: u64) -> OracleSource {
    let address = env.register(FixedPrice(price), ());
    OracleSource::new(identity_of(&address), 1, heartbeat)
}

fn asset() -> Identity {
    Identity::contract([9u8; 32])
}

fn prices(env: &Env, items: &[i128]) -> soroban_sdk::Vec<i128> {
    soroban_sdk::Vec::from_slice(env, items)
}

fn items(list: &soroban_sdk::Vec<i128>) -> Vec<i128> {
    list.iter().collect()
}

fn store_with(sources: &[OracleSource]) -> OracleStorage {
    let mut store = OracleStorage::new();
    for source in sources {
        assert_eq!(Oracle::set_source(&mut store, Ok(()), &asset(), *source), Ok(()));
    }
    store
}

#[test]
fn new_oracle_store_has_the_default_tunables() {
    let store = OracleStorage::new();
    assert_eq!(store.get_heartbeat_ttl(), 300);
    assert_eq!(DEFAULT_HEARTBEAT_TTL, 300);
    assert_eq!(store.get_mode(), 0);
    assert_eq!((MODE_MEDIAN, MODE_MEAN), (0, 1));
    assert_eq!(store.get_sources(&asset()), Vec::<OracleSource>::new());
}

#[test]
fn only_the_administrator_sets_tunables() {
    let mut store = OracleStorage::new();
    assert_eq!(
        store.set_heartbeat_ttl(Err(ProtocolError::Unauthorized), 10),
        Err(ProtocolError::Unauthorized)
    );
    assert_eq!(store.set_mode(Err(ProtocolError::Unauthorized), 1), Err(ProtocolError::Unauthorized));
    assert_eq!((store.get_heartbeat_ttl(), store.get_mode()), (300, 0));
    assert_eq!(store.set_heartbeat_ttl(Ok(()), 10), Ok(()));
    assert_eq!(store.set_mode(Ok(()), 1), Ok(()));
    assert_eq!((store.get_heartbeat_ttl(), store.get_mode()), (10, 1));
}

#[test]
fn inc_perf_counts_up_by_one() {
    let mut store = OracleStorage::new();
    assert_eq!(store.inc_perf(), 1);
    assert_eq!(store.inc_perf(), 2);
}

#[test]
fn put_sources_replaces_the_list_of_one_asset() {
    let mut store = OracleStorage::new();
    let a = OracleSource::new(Identity::contract([1u8; 32]), 1, 10);
    let b = OracleSource::new(Identity::contract([2u8; 32]), 2, 20);
    store.put_sources(&asset(), &vec![a, b]);
    assert_eq!(store.get_sources(&asset()), vec![a, b]);
    assert_eq!(store.get_sources(&Identity::contract([8u8; 32])), Vec::<OracleSource>::new());
    store.put_sources(&asset(), &vec![b]);
    assert_eq!(store.get_sources(&asset()), vec![b]);
}

#[test]
fn set_source_appends_in_order() {
    let a = OracleSource::new(Identity::contract([1u8; 32]), 1, 10);
    let b = OracleSource::new(Identity::contract([2u8; 32]), 2, 20);
    let c = OracleSource::new(Identity::account([1u8; 32]), 3, 30);
    let store = store_with(&[a, b, c]);
    assert_eq!(store.get_sources(&asset()), vec![a, b, c]);
}

#[test]
fn set_source_twice_updates_in_place() {
    let a = OracleSource::new(Identity::contract([1u8; 32]), 1, 10);
    let b = OracleSource::new(Identity::contract([2u8; 32]), 2, 20);
    let c = OracleSource::new(Identity::contract([3u8; 32]), 3, 30);
    let mut store = store_with(&[a, b, c]);
    let newer = OracleSource::new(b.addr, 7, 99);
    assert_eq!(Oracle::set_source(&mut store, Ok(()), &asset(), newer), Ok(()));
    assert_eq!(store.get_sources(&asset()), vec![a, newer, c]);
    assert_eq!(Oracle::set_source(&mut store, Ok(()), &asset(), b), Ok(()));
    assert_eq!(store.get_sources(&asset()), vec![a, b, c]);
}

#[test]
fn set_source_keeps_assets_apart() {
    let a = OracleSource::new(Identity::contract([1u8; 32]), 1, 10);
    let mut store = store_with(&[a]);
    let other = Identity::contract([8u8; 32]);
    let b = OracleSource::new(a.addr, 5, 50);
    assert_eq!(Oracle::set_source(&mut store, Ok(()), &other, b), Ok(()));
    assert_eq!(store.get_sources(&asset()), vec![a]);
    assert_eq!(store.get_sources(&other), vec![b]);
}

#[test]
fn set_source_is_for_the_administrator() {
    let a = OracleSource::new(Identity::contract([1u8; 32]), 1, 10);
    let mut store = OracleStorage::new();
    assert_eq!(
        Oracle::set_source(&mut store, Err(ProtocolError::Unauthorized), &asset(), a),
        Err(ProtocolError::Unauthorized)
    );
    assert_eq!(store.get_sources(&asset()), Vec::<OracleSource>::new());
}

#[test]
fn remove_source_drops_every_match() {
    let a = OracleSource::new(Identity::contract([1u8; 32]), 1, 10);
    let b = OracleSource::new(Identity::contract([2u8; 32]), 2, 20);
    let mut store = OracleStorage::new();
    store.put_sources(&asset(), &vec![a, b, a]);
    assert_eq!(
        Oracle::remove_source(&mut store, Err(ProtocolError::Unauthorized), &asset(), &a.addr),
        Err(ProtocolError::Unauthorized)
    );
    assert_eq!(store.get_sources(&asset()), vec![a, b, a]);
    assert_eq!(Oracle::remove_source(&mut store, Ok(()), &asset(), &a.addr), Ok(()));
    assert_eq!(store.get_sources(&asset()), vec![b]);
    // Removing what is not there changes nothing.
    assert_eq!(Oracle::remove_source(&mut store, Ok(()), &asset(), &a.addr), Ok(()));
    assert_eq!(store.get_sources(&asset()), vec![b]);
}

#[test]
fn live_sources_are_those_within_the_heartbeat() {
    let fresh = OracleSource::new(Identity::contract([1u8; 32]), 1, 700);
    let edge = OracleSource::new(Identity::contract([2u8; 32]), 1, 700 - 300);
    let stale = OracleSource::new(Identity::contract([3u8; 32]), 1, 700 - 301);
    let ahead = OracleSource::new(Identity::contract([4u8; 32]), 1, 5_000);
    let store = store_with(&[fresh, edge, stale, ahead]);
    assert_eq!(Oracle::live_sources(&store, &asset(), 700), vec![fresh, edge, ahead]);
    assert_eq!(Oracle::live_sources(&store, &asset(), 10_000), Vec::<OracleSource>::new());
}

#[test]
fn median_with_trim_of_four_prices() {
    let env = host();
    assert_eq!(Oracle::aggregate(prices(&env, &[100, 102, 98, 1000]), 0), Some(101));
}

#[test]
fn mean_of_four_prices() {
    let env = host();
    assert_eq!(Oracle::aggregate(prices(&env, &[100, 102, 98, 1000]), 1), Some(325));
}

#[test]
fn aggregate_of_nothing_is_nothing() {
    let env = host();
    assert_eq!(Oracle::aggregate(prices(&env, &[]), 0), None);
    assert_eq!(Oracle::aggregate(prices(&env, &[]), 1), None);
}

#[test]
fn median_of_short_lists_is_not_trimmed() {
    let env = host();
    assert_eq!(Oracle::aggregate(prices(&env, &[7]), 0), Some(7));
    assert_eq!(Oracle::aggregate(prices(&env, &[9, 4]), 0), Some(6));
    assert_eq!(Oracle::aggregate(prices(&env, &[4, 9]), 0), Some(6));
}

#[test]
fn median_sets_one_lowest_and_one_highest_aside() {
    let env = host();
    // Three prices leave the middle one.
    assert_eq!(Oracle::aggregate(prices(&env, &[30, 10, 20]), 0), Some(20));
    // Five prices leave three.
    assert_eq!(Oracle::aggregate(prices(&env, &[5, 1, 4, 2, 3]), 0), Some(3));
    // Equal extremes: one of each goes, the others stay.
    assert_eq!(Oracle::aggregate(prices(&env, &[1, 1, 1, 9, 9]), 0), Some(1));
    assert_eq!(Oracle::aggregate(prices(&env, &[1, 1, 9, 9]), 0), Some(5));
    // Six prices leave four; the mean of the middle two is truncated.
    assert_eq!(Oracle::aggregate(prices(&env, &[60, 10, 20, 50, 31, 40]), 0), Some(35));
}

#[test]
fn any_mode_but_the_mean_is_the_median() {
    let env = host();
    assert_eq!(Oracle::aggregate(prices(&env, &[100, 102, 98, 1000]), 2), Some(101));
    assert_eq!(Oracle::aggregate(prices(&env, &[100, 102, 98, 1000]), -1), Some(101));
}

#[test]
fn mean_is_truncated_and_does_not_overflow() {
    let env = host();
    assert_eq!(Oracle::aggregate(prices(&env, &[1, 2]), 1), Some(1));
    assert_eq!(Oracle::aggregate(prices(&env, &[2, 3, 5]), 1), Some(3));
    assert_eq!(Oracle::aggregate(prices(&env, &[i128::MAX, i128::MAX, i128::MAX]), 1), Some(i128::MAX));
    assert_eq!(Oracle::aggregate(prices(&env, &[i128::MAX, 1]), 1), Some(i128::MAX / 2 + 1));
}

#[test]
fn median_of_large_prices_does_not_overflow() {
    let env = host();
    assert_eq!(Oracle::aggregate(prices(&env, &[i128::MAX, i128::MAX]), 0), Some(i128::MAX));
    assert_eq!(Oracle::aggregate(prices(&env, &[i128::MAX, i128::MAX - 2]), 0), Some(i128::MAX - 1));
    assert_eq!(Oracle::aggregate(prices(&env, &[3, 4]), 0), Some(3));
}

#[test]
fn usable_prices_are_the_positive_answers_in_order() {
    let env = host();
    assert_eq!(items(&Oracle::usable_prices(&env, &vec![5, 0, -2, 7, 5])), vec![5, 7, 5]);
    assert_eq!(items(&Oracle::usable_prices(&env, &vec![0, -1])), Vec::<i128>::new());
    assert_eq!(items(&Oracle::usable_prices(&env, &vec![])), Vec::<i128>::new());
    let prices = Oracle::usable_prices(&env, &vec![100, 102, -7, 98, 1000]);
    assert_eq!(Oracle::aggregate(prices, 0), Some(101));
}

#[test]
fn no_positive_answer_gives_no_price() {
    let env = host();
    for mode in [0, 1, 2] {
        assert_eq!(Oracle::aggregate(Oracle::usable_prices(&env, &vec![0, -5, -1]), mode), None);
    }
}

#[test]
fn accept_quote_keeps_positive_answers() {
    let env = host();
    let mut list = prices(&env, &[5]);
    assert_eq!(Oracle::accept_quote(&mut list, Some(8)), Ok(()));
    assert_eq!(Oracle::accept_quote(&mut list, Some(0)), Ok(()));
    assert_eq!(Oracle::accept_quote(&mut list, Some(-3)), Ok(()));
    assert_eq!(items(&list), vec![5, 8]);
    assert_eq!(Oracle::accept_quote(&mut list, None), Err(ProtocolError::ExternalCallFailed));
    assert_eq!(items(&list), vec![5, 8]);
}

#[test]
fn fetch_prices_asks_the_live_sources_in_order() {
    let env = host();
    let store = store_with(&[
        source_answering(&env, 100, 1_000),
        source_answering(&env, 102, 1_000),
        source_answering(&env, 98, 1_000),
        source_answering(&env, 1000, 1_000),
    ]);
    let fetched = Oracle::fetch_prices(&env, &store, &asset(), 1_100).unwrap();
    assert_eq!(items(&fetched), vec![100, 102, 98, 1000]);
}

#[test]
fn fetch_prices_with_no_source_is_empty() {
    let env = host();
    let store = OracleStorage::new();
    let fetched = Oracle::fetch_prices(&env, &store, &asset(), 5).unwrap();
    assert_eq!(items(&fetched), Vec::<i128>::new());
}

#[test]
fn stale_source_is_left_out_whatever_it_reports() {
    let env = host();
    let store = store_with(&[
        source_answering(&env, 100, 1_000),
        source_answering(&env, 1, 699),
        source_answering(&env, 104, 700),
    ]);
    let fetched = Oracle::fetch_prices(&env, &store, &asset(), 1_000).unwrap();
    assert_eq!(items(&fetched), vec![100, 104]);
    // Not even a stale source that cannot be called gets in the way.
    let gone = OracleSource::new(identity_of(&Address::generate(&env)), 1, 0);
    let store = store_with(&[gone, source_answering(&env, 7, 1_000)]);
    let fetched = Oracle::fetch_prices(&env, &store, &asset(), 1_000).unwrap();
    assert_eq!(items(&fetched), vec![7]);
}

#[test]
fn heartbeat_in_the_future_counts_as_fresh() {
    let env = host();
    let store = store_with(&[source_answering(&env, 55, 2_000)]);
    let fetched = Oracle::fetch_prices(&env, &store, &asset(), 1_000).unwrap();
    assert_eq!(items(&fetched), vec![55]);
}

#[test]
fn fetch_prices_drops_answers_that_are_not_positive() {
    let env = host();
    let store = store_with(&[
        source_answering(&env, 0, 10),
        source_answering(&env, 12, 10),
        source_answering(&env, -5, 10),
    ]);
    let fetched = Oracle::fetch_prices(&env, &store, &asset(), 10).unwrap();
    assert_eq!(items(&fetched), vec![12]);
}

#[test]
fn one_failing_source_fails_the_fetch() {
    let env = host();
    let missing = OracleSource::new(identity_of(&Address::generate(&env)), 1, 10);
    let store = store_with(&[source_answering(&env, 12, 10), missing]);
    assert_eq!(
        Oracle::fetch_prices(&env, &store, &asset(), 10).err(),
        Some(ProtocolError::ExternalCallFailed)
    );
    let mute = OracleSource::new(identity_of(&env.register(NoPrice, ())), 1, 10);
    let store = store_with(&[mute, source_answering(&env, 12, 10)]);
    assert_eq!(
        Oracle::fetch_prices(&env, &store, &asset(), 10).err(),
        Some(ProtocolError::ExternalCallFailed)
    );
    let odd = OracleSource::new(identity_of(&env.register(OddAnswer, ())), 1, 10);
    let store = store_with(&[odd]);
    assert_eq!(
        Oracle::fetch_prices(&env, &store, &asset(), 10).err(),
        Some(ProtocolError::ExternalCallFailed)
    );
}

#[test]
fn sources_are_asked_by_get_price() {
    let env = host();
    assert_eq!(Oracle::price_function(&env), soroban_sdk::Symbol::new(&env, "get_price"));
    // A contract that answers to another name only is no source.
    struct OtherName;
    impl ContractFunctionSet for OtherName {
        fn call(&self, func: &str, env: Env, _args: &[Val]) -> Option<Val> {
            if func == "price" {
                Some(5i128.into_val(&env))
            } else {
                None
            }
        }
    }
    let other = OracleSource::new(identity_of(&env.register(OtherName, ())), 1, 10);
    let store = store_with(&[other]);
    assert_eq!(
        Oracle::fetch_prices(&env, &store, &asset(), 10).err(),
        Some(ProtocolError::ExternalCallFailed)
    );
}

#[test]
fn live_account_fails_the_fetch_whatever_the_others_answer() {
    let env = host();
    let account = OracleSource::new(Identity::account([3u8; 32]), 1, 10);
    for sources in [
        vec![account, source_answering(&env, 3, 10)],
        vec![source_answering(&env, 3, 10), account],
        vec![source_answering(&env, 0, 10), account, source_answering(&env, 8, 10)],
    ] {
        let mut store = store_with(&sources);
        assert_eq!(
            Oracle::fetch_prices(&env, &store, &asset(), 10).err(),
            Some(ProtocolError::ExternalCallFailed)
        );
        assert_eq!(
            Oracle::aggregate_price(&env, &mut store, &asset(), 10),
            Err(ProtocolError::ExternalCallFailed)
        );
        assert_eq!(store.perf_count(), 0);
    }
}

#[test]
fn source_that_is_an_account_cannot_be_asked() {
    let env = host();
    let account = OracleSource::new(Identity::account([3u8; 32]), 1, 10);
    let store = store_with(&[account]);
    assert_eq!(
        Oracle::fetch_prices(&env, &store, &asset(), 10).err(),
        Some(ProtocolError::ExternalCallFailed)
    );
    // While it is stale it is not even tried.
    let store = store_with(&[account, source_answering(&env, 3, 1_000)]);
    let fetched = Oracle::fetch_prices(&env, &store, &asset(), 1_000).unwrap();
    assert_eq!(items(&fetched), vec![3]);
}

#[test]
fn asset_that_is_an_account_can_be_priced() {
    let env = host();
    let store = {
        let mut store = OracleStorage::new();
        let source = source_answering(&env, 17, 10);
        assert_eq!(Oracle::set_source(&mut store, Ok(()), &Identity::account([4u8; 32]), source), Ok(()));
        store
    };
    let fetched = Oracle::fetch_prices(&env, &store, &Identity::account([4u8; 32]), 10).unwrap();
    assert_eq!(items(&fetched), vec![17]);
}

#[test]
fn aggregate_price_takes_the_trimmed_median_by_default() {
    let env = host();
    let mut store = store_with(&[
        source_answering(&env, 100, 1_000),
        source_answering(&env, 102, 1_000),
        source_answering(&env, 98, 1_000),
        source_answering(&env, 1000, 1_000),
    ]);
    assert_eq!(Oracle::aggregate_price(&env, &mut store, &asset(), 1_100), Ok(Some(101)));
    assert_eq!(store.inc_perf(), 2);
}

#[test]
fn aggregate_price_takes_the_mean_in_mean_mode() {
    let env = host();
    let mut store = store_with(&[
        source_answering(&env, 100, 1_000),
        source_answering(&env, 102, 1_000),
        source_answering(&env, 98, 1_000),
        source_answering(&env, 1000, 1_000),
    ]);
    assert_eq!(store.set_mode(Ok(()), MODE_MEAN), Ok(()));
    assert_eq!(Oracle::aggregate_price(&env, &mut store, &asset(), 1_100), Ok(Some(325)));
}

#[test]
fn aggregate_price_is_none_without_a_usable_source() {
    let env = host();
    // No source at all.
    let mut store = OracleStorage::new();
    assert_eq!(Oracle::aggregate_price(&env, &mut store, &asset(), 10), Ok(None));
    // Every source stale.
    let mut store = store_with(&[source_answering(&env, 100, 10), source_answering(&env, 90, 20)]);
    assert_eq!(Oracle::aggregate_price(&env, &mut store, &asset(), 1_000), Ok(None));
    // Every live source without a positive price.
    let mut store = store_with(&[
        source_answering(&env, 0, 990),
        source_answering(&env, -4, 990),
        source_answering(&env, 100, 10),
    ]);
    assert_eq!(Oracle::aggregate_price(&env, &mut store, &asset(), 1_000), Ok(None));
    // Each attempt was counted.
    assert_eq!(store.inc_perf(), 2);
}

#[test]
fn aggregate_price_fails_with_a_failing_source_and_counts_nothing() {
    let env = host();
    let missing = OracleSource::new(identity_of(&Address::generate(&env)), 1, 10);
    let mut store = store_with(&[source_answering(&env, 12, 10), missing]);
    assert_eq!(
        Oracle::aggregate_price(&env, &mut store, &asset(), 10),
        Err(ProtocolError::ExternalCallFailed)
    );
    assert_eq!(store.inc_perf(), 1);
}

#[test]
fn sources_are_asked_about_the_asset() {
    struct Echo;
    impl ContractFunctionSet for Echo {
        fn call(&self, func: &str, env: Env, args: &[Val]) -> Option<Val> {
            if func != "get_price" || args.len() != 1 {
                return None;
            }
            let asked: Address = args[0].into_val(&env);
            let price: i128 = if identity_of(&asked) == Identity::contract([9u8; 32]) { 41 } else { -1 };
            Some(price.into_val(&env))
        }
    }
    let env = host();
    let echo = OracleSource::new(identity_of(&env.register(Echo, ())), 1, 10);
    let store = store_with(&[echo]);
    let fetched = Oracle::fetch_prices(&env, &store, &asset(), 10).unwrap();
    assert_eq!(items(&fetched), vec![41]);
}
