//! The price oracle: a registry of sources per asset, and the aggregation of what the
//! live sources report into one price.
use vstd::prelude::*;
use crate::error::ProtocolError;
use crate::identity::{HolderKind, Identity};
use crate::aggregation::{aggregate_of, all_positive, MODE_MEDIAN};
use crate::host::{
    ask_price, listed, lists_prices, price_items, price_list, push_price, symbol, symbol_chars,
};
use crate::table::Table;

verus! {

/// A registered price source of one asset.
#[derive(Clone, Copy, Debug, PartialEq, Eq)]
pub struct OracleSource {
    /// The contract that answers for the source.
    pub addr: Identity,
    /// A relative weight; kept, and not used in aggregation.
    pub weight: i128,
    /// When the source was last known to be alive, in seconds since the epoch.
    pub last_heartbeat: u64,
}

impl OracleSource {
    /// A source at `addr` with the given weight and last heartbeat.
    pub fn new(addr: Identity, weight: i128, last_heartbeat: u64) -> (source: Self)
        ensures
            source == (OracleSource { addr, weight, last_heartbeat }),
    {
        OracleSource { addr, weight, last_heartbeat }
    }
}

/// How long a source stays live after its last heartbeat, unless set otherwise: 300 seconds.
pub const DEFAULT_HEARTBEAT_TTL: u64 = 300;

/// What the oracle's store holds.
pub ghost struct OracleState {
    /// The registered sources of each asset that has a list, in the order of registration.
    pub sources: Map<Identity, Seq<OracleSource>>,
    /// How many seconds a source stays live after its last heartbeat.
    pub heartbeat_ttl: u64,
    /// The aggregation mode.
    pub mode: i128,
    /// How many aggregations have been made.
    pub perf_count: i128,
}

impl OracleState {
    /// The sources of `asset`: its list, or the empty list where it has none.
    pub open spec fn sources_of(self, asset: Identity) -> Seq<OracleSource> {
        if self.sources.contains_key(asset) {
            self.sources[asset]
        } else {
            Seq::empty()
        }
    }
}

/// A list of its own with the sources of `list`, in the same order.
fn copy_of(list: &Vec<OracleSource>) -> (copy: Vec<OracleSource>)
    ensures
        copy@ == list@,
{
    let mut copy: Vec<OracleSource> = Vec::new();
    let mut i: usize = 0;
    while i < list.len()
        invariant
            i <= list@.len(),
            copy@ == list@.take(i as int),
        decreases list@.len() - i,
    {
        copy.push(list[i]);
        assert(list@.take(i + 1) =~= list@.take(i as int).push(list@[i as int]));
        i += 1;
    }
    assert(list@.take(list@.len() as int) =~= list@);
    copy
}

/// The oracle's store: the source lists and the three tunables.
pub struct OracleStorage {
    sources: Table<Identity, Vec<OracleSource>>,
    heartbeat_ttl: u64,
    mode: i128,
    perf_count: i128,
}

impl View for OracleStorage {
    type V = OracleState;

    closed spec fn view(&self) -> OracleState {
        OracleState {
            sources: self.sources@.map_values(|list: Vec<OracleSource>| list@),
            heartbeat_ttl: self.heartbeat_ttl,
            mode: self.mode,
            perf_count: self.perf_count,
        }
    }
}

impl OracleStorage {
    /// The store is in order: no asset has two lists, and every list fits a host vector,
    /// which counts its items in 32 bits.
    pub closed spec fn wf(&self) -> bool {
        &&& self.sources.wf()
        &&& forall|asset: Identity| #[trigger]
            self.sources@.contains_key(asset) ==> self.sources@[asset]@.len() <= u32::MAX
    }

    /// In a store that is in order every list fits a host vector.
    pub proof fn lemma_lists_fit(&self, asset: Identity)
        requires
            self.wf(),
        ensures
            self@.sources_of(asset).len() <= u32::MAX,
    {
    }

    /// A store with no sources and the default tunables.
    pub fn new() -> (store: Self)
        ensures
            store.wf(),
            store@ == (OracleState {
                sources: Map::empty(),
                heartbeat_ttl: DEFAULT_HEARTBEAT_TTL,
                mode: MODE_MEDIAN,
                perf_count: 0,
            }),
    {
        let store = OracleStorage {
            sources: Table::new(),
            heartbeat_ttl: DEFAULT_HEARTBEAT_TTL,
            mode: MODE_MEDIAN,
            perf_count: 0,
        };
        assert(store@.sources =~= Map::empty());
        store
    }

    /// A store without sources that takes up where an earlier one left off: with the
    /// tunables and the count that were last kept.
    pub fn restored(heartbeat_ttl: u64, mode: i128, perf_count: i128) -> (store: Self)
        ensures
            store.wf(),
            store@ == (OracleState { sources: Map::empty(), heartbeat_ttl, mode, perf_count }),
    {
        let store = OracleStorage { sources: Table::new(), heartbeat_ttl, mode, perf_count };
        assert(store@.sources =~= Map::empty());
        store
    }

    /// The sources registered for `asset`, in order; none where the asset has no list.
    pub fn get_sources(&self, asset: &Identity) -> (sources: Vec<OracleSource>)
        requires
            self.wf(),
        ensures
            sources@ == self@.sources_of(*asset),
    {
        match self.sources.get(asset) {
            Some(list) => copy_of(list),
            None => Vec::new(),
        }
    }

    /// Makes `sources` the list of `asset`.
    pub fn put_sources(&mut self, asset: &Identity, sources: &Vec<OracleSource>)
        requires
            old(self).wf(),
            sources@.len() <= u32::MAX,
        ensures
            final(self).wf(),
            final(self)@ == (OracleState {
                sources: old(self)@.sources.insert(*asset, sources@),
                ..old(self)@
            }),
    {
        self.sources.put(*asset, copy_of(sources));
        assert(self@.sources =~= old(self)@.sources.insert(*asset, sources@));
    }

    /// How many seconds a source stays live after its last heartbeat.
    pub fn get_heartbeat_ttl(&self) -> (ttl: u64)
        ensures
            ttl == self@.heartbeat_ttl,
    {
        self.heartbeat_ttl
    }

    /// Sets the heartbeat time-to-live, for the administrator only: `gate` is what the
    /// administrator check said of the caller, and its refusal is handed back.
    pub fn set_heartbeat_ttl(
        &mut self,
        gate: Result<(), ProtocolError>,
        ttl: u64,
    ) -> (done: Result<(), ProtocolError>)
        ensures
            done == gate,
            final(self).wf() == old(self).wf(),
            final(self)@ == if gate is Ok {
                OracleState { heartbeat_ttl: ttl, ..old(self)@ }
            } else {
                old(self)@
            },
    {
        if gate.is_ok() {
            self.heartbeat_ttl = ttl;
        }
        gate
    }

    /// Sets the aggregation mode, for the administrator only: `gate` is what the
    /// administrator check said of the caller, and its refusal is handed back.
    pub fn set_mode(
        &mut self,
        gate: Result<(), ProtocolError>,
        mode: i128,
    ) -> (done: Result<(), ProtocolError>)
        ensures
            done == gate,
            final(self).wf() == old(self).wf(),
            final(self)@ == if gate is Ok {
                OracleState { mode, ..old(self)@ }
            } else {
                old(self)@
            },
    {
        if gate.is_ok() {
            self.mode = mode;
        }
        gate
    }

    /// The aggregation mode.
    pub fn get_mode(&self) -> (mode: i128)
        ensures
            mode == self@.mode,
    {
        self.mode
    }

    /// How many aggregations have been made.
    pub fn perf_count(&self) -> (count: i128)
        ensures
            count == self@.perf_count,
    {
        self.perf_count
    }

    /// Counts one more aggregation and gives the new count.
    pub fn inc_perf(&mut self) -> (count: i128)
        requires
            old(self)@.perf_count < i128::MAX,
        ensures
            count == old(self)@.perf_count + 1,
            final(self).wf() == old(self).wf(),
            final(self)@ == (OracleState { perf_count: count, ..old(self)@ }),
    {
        self.perf_count = self.perf_count + 1;
        self.perf_count
    }
}

/// Whether `list` holds a source with address `addr`.
pub open spec fn registered(list: Seq<OracleSource>, addr: Identity) -> bool {
    exists|i: int| 0 <= i < list.len() && (#[trigger] list[i]).addr == addr
}

/// What setting `source` makes of an entry: `source` itself where the entry has its
/// address, the entry otherwise.
pub open spec fn overwritten(source: OracleSource) -> spec_fn(OracleSource) -> OracleSource {
    |s: OracleSource|
        if s.addr == source.addr {
            source
        } else {
            s
        }
}

/// `list` after `source` is set: every entry with its address is overwritten where it
/// stands; where there is none, `source` is added at the end.
pub open spec fn upsert(list: Seq<OracleSource>, source: OracleSource) -> Seq<OracleSource> {
    if registered(list, source.addr) {
        list.map_values(overwritten(source))
    } else {
        list.push(source)
    }
}

/// The test that keeps every source but those with address `addr`.
pub open spec fn other_than(addr: Identity) -> spec_fn(OracleSource) -> bool {
    |s: OracleSource| s.addr != addr
}

/// Whether `source` is stale at `now`: its last heartbeat lies more than `ttl` seconds
/// back. A heartbeat in the future counts as fresh.
pub open spec fn is_stale(source: OracleSource, now: u64, ttl: u64) -> bool {
    now > source.last_heartbeat && now - source.last_heartbeat > ttl
}

/// The test that keeps the sources that are not stale.
pub open spec fn alive(now: u64, ttl: u64) -> spec_fn(OracleSource) -> bool {
    |s: OracleSource| !is_stale(s, now, ttl)
}

/// The sources of `list` that are asked for a price at `now`, in order.
pub open spec fn live(list: Seq<OracleSource>, now: u64, ttl: u64) -> Seq<OracleSource> {
    list.filter(alive(now, ttl))
}

/// The test that keeps a positive answer.
pub open spec fn positive() -> spec_fn(i128) -> bool {
    |q: i128| q > 0
}

/// The prices among the answers `quotes`: the positive ones, in order.
pub open spec fn usable(quotes: Seq<i128>) -> Seq<i128> {
    quotes.filter(positive())
}

/// Whether one of the sources of `list` is an account, which has no function to call.
pub open spec fn has_account(list: Seq<OracleSource>) -> bool {
    exists|k: int| 0 <= k < list.len() && (#[trigger] list[k]).addr.kind is Account
}

/// Whether every call of `outcomes` came back: none of them is a failure.
pub open spec fn all_answered(outcomes: Seq<Option<i128>>) -> bool {
    forall|i: int| 0 <= i < outcomes.len() ==> (#[trigger] outcomes[i]) is Some
}

/// The answers in `outcomes`, in order; meaningful where `all_answered(outcomes)`.
pub open spec fn answers(outcomes: Seq<Option<i128>>) -> Seq<i128> {
    Seq::new(outcomes.len(), |i: int| outcomes[i].unwrap())
}

/// What comes of asking sources whose calls came out as `outcomes`, `None` standing for a
/// call that failed: the usable answers where every call came back, and a failure where
/// one did not.
pub open spec fn collected(outcomes: Seq<Option<i128>>) -> Result<Seq<i128>, ProtocolError> {
    if all_answered(outcomes) {
        Ok(usable(answers(outcomes)))
    } else {
        Err(ProtocolError::ExternalCallFailed)
    }
}

/// The price that comes of asking sources whose calls came out as `outcomes`, under
/// `mode`.
pub open spec fn priced(outcomes: Seq<Option<i128>>, mode: i128) -> Result<Option<i128>, ProtocolError> {
    match collected(outcomes) {
        Ok(prices) => Ok(aggregate_of(prices, mode)),
        Err(failure) => Err(failure),
    }
}

/// Filtering one item more: the item is added where it passes the test.
proof fn lemma_filter_step<A>(s: Seq<A>, pred: spec_fn(A) -> bool, i: int)
    requires
        0 <= i < s.len(),
    ensures
        s.take(i + 1).filter(pred) == if pred(s[i]) {
            s.take(i).filter(pred).push(s[i])
        } else {
            s.take(i).filter(pred)
        },
{
    reveal(Seq::filter);
    assert(s.take(i + 1).drop_last() =~= s.take(i));
}

/// The oracle's operations.
pub struct Oracle;

impl Oracle {
    /// Registers `source` for `asset`, for the administrator only: `gate` is what the
    /// administrator check said of the caller, and its refusal is handed back with the
    /// store untouched.
    ///
    /// An entry with the source's address is overwritten where it stands; where there is
    /// none, the source is added at the end. The order of the others stays.
    pub fn set_source(
        store: &mut OracleStorage,
        gate: Result<(), ProtocolError>,
        asset: &Identity,
        source: OracleSource,
    ) -> (done: Result<(), ProtocolError>)
        requires
            old(store).wf(),
            gate is Ok && !registered(old(store)@.sources_of(*asset), source.addr) ==> old(
                store,
            )@.sources_of(*asset).len() < u32::MAX,
        ensures
            done == gate,
            final(store).wf(),
            final(store)@ == if gate is Ok {
                OracleState {
                    sources: old(store)@.sources.insert(
                        *asset,
                        upsert(old(store)@.sources_of(*asset), source),
                    ),
                    ..old(store)@
                }
            } else {
                old(store)@
            },
    {
        if gate.is_err() {
            return gate;
        }
        let list = store.get_sources(asset);
        let mut replaced = false;
        let mut out: Vec<OracleSource> = Vec::new();
        let mut i: usize = 0;
        while i < list.len()
            invariant
                i <= list@.len(),
                out@ == list@.take(i as int).map_values(overwritten(source)),
                replaced == registered(list@.take(i as int), source.addr),
            decreases list@.len() - i,
        {
            let ghost seen = list@.take(i as int);
            let ghost next = list@.take(i + 1);
            assert(next =~= seen.push(list@[i as int]));
            assert(next.map_values(overwritten(source)) =~= seen.map_values(overwritten(source)).push(
                overwritten(source)(list@[i as int]),
            ));
            proof {
                if registered(seen, source.addr) {
                    let k = choose|k: int| 0 <= k < seen.len() && (#[trigger] seen[k]).addr == source.addr;
                    assert(next[k].addr == source.addr);
                }
                if registered(next, source.addr) && list@[i as int].addr != source.addr {
                    let k = choose|k: int| 0 <= k < next.len() && (#[trigger] next[k]).addr == source.addr;
                    assert(seen[k].addr == source.addr);
                }
                if list@[i as int].addr == source.addr {
                    assert(next[i as int].addr == source.addr);
                }
            }
            if list[i].addr.same(&source.addr) {
                out.push(source);
                replaced = true;
            } else {
                out.push(list[i]);
            }
            i += 1;
        }
        assert(list@.take(list@.len() as int) =~= list@);
        if !replaced {
            assert forall|k: int| 0 <= k < list@.len() implies overwritten(source)(#[trigger] list@[k]) == list@[k] by {
                assert(list@[k].addr != source.addr);
            }
            assert(list@.map_values(overwritten(source)) =~= list@);
            out.push(source);
        } else {
            assert(out@.len() == list@.len());
            proof {
                store.lemma_lists_fit(*asset);
            }
        }
        store.put_sources(asset, &out);
        gate
    }

    /// Removes every source with address `addr` from the list of `asset`, for the
    /// administrator only: `gate` is what the administrator check said of the caller, and
    /// its refusal is handed back with the store untouched.
    pub fn remove_source(
        store: &mut OracleStorage,
        gate: Result<(), ProtocolError>,
        asset: &Identity,
        addr: &Identity,
    ) -> (done: Result<(), ProtocolError>)
        requires
            old(store).wf(),
        ensures
            done == gate,
            final(store).wf(),
            final(store)@ == if gate is Ok {
                OracleState {
                    sources: old(store)@.sources.insert(
                        *asset,
                        old(store)@.sources_of(*asset).filter(other_than(*addr)),
                    ),
                    ..old(store)@
                }
            } else {
                old(store)@
            },
    {
        if gate.is_err() {
            return gate;
        }
        let list = store.get_sources(asset);
        let mut out: Vec<OracleSource> = Vec::new();
        let mut i: usize = 0;
        assert(list@.take(0) =~= Seq::<OracleSource>::empty()) by {
            reveal(Seq::filter);
        }
        assert(list@.take(0).filter(other_than(*addr)) =~= Seq::<OracleSource>::empty()) by {
            reveal(Seq::filter);
        }
        while i < list.len()
            invariant
                i <= list@.len(),
                out@ == list@.take(i as int).filter(other_than(*addr)),
            decreases list@.len() - i,
        {
            proof {
                lemma_filter_step(list@, other_than(*addr), i as int);
            }
            if !list[i].addr.same(addr) {
                out.push(list[i]);
            }
            i += 1;
        }
        assert(list@.take(list@.len() as int) =~= list@);
        proof {
            list@.lemma_filter_len(other_than(*addr));
            store.lemma_lists_fit(*asset);
        }
        store.put_sources(asset, &out);
        gate
    }

    /// The sources of `asset` that are asked for a price at `now`: those whose last
    /// heartbeat lies no more than the heartbeat time-to-live back, in order.
    pub fn live_sources(store: &OracleStorage, asset: &Identity, now: u64) -> (asked: Vec<OracleSource>)
        requires
            store.wf(),
        ensures
            asked@ == live(store@.sources_of(*asset), now, store@.heartbeat_ttl),
    {
        let list = store.get_sources(asset);
        let ttl = store.get_heartbeat_ttl();
        let mut asked: Vec<OracleSource> = Vec::new();
        let mut i: usize = 0;
        assert(list@.take(0).filter(alive(now, ttl)) =~= Seq::<OracleSource>::empty()) by {
            reveal(Seq::filter);
        }
        while i < list.len()
            invariant
                i <= list@.len(),
                asked@ == list@.take(i as int).filter(alive(now, ttl)),
            decreases list@.len() - i,
        {
            proof {
                lemma_filter_step(list@, alive(now, ttl), i as int);
            }
            let heartbeat = list[i].last_heartbeat;
            let stale = now > heartbeat && now - heartbeat > ttl;
            if !stale {
                asked.push(list[i]);
            }
            i += 1;
        }
        assert(list@.take(list@.len() as int) =~= list@);
        asked
    }

    /// Takes in what one source answered: a positive answer is a price and joins `prices`,
    /// any other answer is dropped, and a failed call fails the whole collection.
    pub fn accept_quote(
        prices: &mut soroban_sdk::Vec<i128>,
        quote: Option<i128>,
    ) -> (done: Result<(), ProtocolError>)
        requires
            price_items(*old(prices)).len() < u32::MAX,
        ensures
            lists_prices(*old(prices)) ==> lists_prices(*final(prices)),
            match quote {
                Some(answer) => done is Ok && listed(*final(prices)) == if answer > 0 {
                    listed(*old(prices)).push(answer)
                } else {
                    listed(*old(prices))
                },
                None => done == Err::<(), ProtocolError>(ProtocolError::ExternalCallFailed) && listed(
                    *final(prices),
                ) == listed(*old(prices)),
            },
    {
        match quote {
            Some(answer) => {
                if answer > 0 {
                    push_price(prices, answer);
                    assert(listed(*prices) =~= listed(*old(prices)).push(answer));
                }
                Ok(())
            },
            None => Err(ProtocolError::ExternalCallFailed),
        }
    }

    /// The prices among the answers `quotes`, as a host vector: the positive ones, in order.
    pub fn usable_prices(env: &soroban_sdk::Env, quotes: &Vec<i128>) -> (prices: soroban_sdk::Vec<i128>)
        requires
            quotes@.len() <= u32::MAX,
        ensures
            lists_prices(prices),
            all_positive(listed(prices)),
            listed(prices) == usable(quotes@),
    {
        let mut prices = price_list(env);
        assert(listed(prices) =~= Seq::<i128>::empty());
        assert(quotes@.take(0).filter(positive()) =~= Seq::<i128>::empty()) by {
            reveal(Seq::filter);
        }
        let mut i: usize = 0;
        while i < quotes.len()
            invariant
                i <= quotes@.len() <= u32::MAX,
                lists_prices(prices),
                listed(prices) == quotes@.take(i as int).filter(positive()),
                price_items(prices).len() <= i,
            decreases quotes@.len() - i,
        {
            proof {
                lemma_filter_step(quotes@, positive(), i as int);
            }
            let ghost before = listed(prices);
            assert(before.len() == price_items(prices).len());
            let _ = Self::accept_quote(&mut prices, Some(quotes[i]));
            assert(listed(prices).len() <= before.len() + 1);
            i += 1;
        }
        assert(quotes@.take(quotes@.len() as int) =~= quotes@);
        proof {
            assert forall|k: int| 0 <= k < listed(prices).len() implies (#[trigger] listed(prices)[k]) > 0 by {
                quotes@.lemma_filter_pred(positive(), k);
            }
        }
        prices
    }

    /// The name of the function that a source is asked by: `get_price`.
    pub fn price_function(env: &soroban_sdk::Env) -> (func: soroban_sdk::Symbol)
        ensures
            symbol_chars(func) == "get_price"@,
    {
        proof {
            reveal_strlit("get_price");
        }
        symbol(env, "get_price")
    }

    /// Asks every live source of `asset` for its price, in order, and collects the positive
    /// answers.
    ///
    /// A source is asked by calling the function that `price_function` names, of its
    /// contract, with the asset as the one argument. Stale sources are not asked. The
    /// first call that fails ends the collection with `ExternalCallFailed`; there is no
    /// partial result. A live source that is an account has nothing to call, which fails
    /// the collection whatever the other sources answer.
    ///
    /// What the sources answer is theirs to say; what is promised is that the result is
    /// `collected` of some outcomes, one for each live source.
    pub fn fetch_prices(
        env: &soroban_sdk::Env,
        store: &OracleStorage,
        asset: &Identity,
        now: u64,
    ) -> (fetched: Result<soroban_sdk::Vec<i128>, ProtocolError>)
        requires
            store.wf(),
        ensures
            fetched matches Ok(prices) ==> (lists_prices(prices) && all_positive(listed(prices))),
            has_account(live(store@.sources_of(*asset), now, store@.heartbeat_ttl)) ==> fetched is Err,
            exists|outcomes: Seq<Option<i128>>|
                {
                    &&& outcomes.len() == live(store@.sources_of(*asset), now, store@.heartbeat_ttl).len()
                    &&& #[trigger] collected(outcomes) == match fetched {
                        Ok(prices) => Ok::<Seq<i128>, ProtocolError>(listed(prices)),
                        Err(failure) => Err::<Seq<i128>, ProtocolError>(failure),
                    }
                },
    {
        let asked = Self::live_sources(store, asset, now);
        proof {
            store.lemma_lists_fit(*asset);
            store@.sources_of(*asset).lemma_filter_len(alive(now, store@.heartbeat_ttl));
        }
        let func = Self::price_function(env);
        let mut prices = price_list(env);
        let ghost mut outcomes: Seq<Option<i128>> = Seq::empty();
        assert(usable(answers(outcomes)) =~= Seq::<i128>::empty()) by {
            reveal(Seq::filter);
        }
        assert(listed(prices) =~= Seq::<i128>::empty());
        let mut i: usize = 0;
        while i < asked.len()
            invariant
                i <= asked@.len() <= u32::MAX,
                asked@ == live(store@.sources_of(*asset), now, store@.heartbeat_ttl),
                forall|j: int| 0 <= j < i ==> (#[trigger] asked@[j]).addr.kind is Contract,
                lists_prices(prices),
                outcomes.len() == i,
                all_answered(outcomes),
                listed(prices) == usable(answers(outcomes)),
                listed(prices).len() <= i,
            decreases asked@.len() - i,
        {
            let source = asked[i].addr;
            let quote = match source.kind {
                HolderKind::Contract => ask_price(env, &source.key, &func, asset),
                HolderKind::Account => None,
            };
            let ghost asked_so_far = outcomes;
            let ghost before = listed(prices);
            proof {
                outcomes = outcomes.push(quote);
                assert(before.len() == price_items(prices).len());
            }
            match Self::accept_quote(&mut prices, quote) {
                Ok(()) => {
                    proof {
                        assert(source.kind is Contract);
                        let more = answers(outcomes);
                        assert(more.take(i as int) =~= answers(asked_so_far));
                        assert(more.take(i + 1) =~= more);
                        lemma_filter_step(more, positive(), i as int);
                        assert(listed(prices).len() <= before.len() + 1);
                    }
                },
                Err(failure) => {
                    proof {
                        let rest = (asked@.len() - i - 1) as nat;
                        let all = outcomes + Seq::new(rest, |k: int| None::<i128>);
                        assert(all[i as int] is None);
                        assert(collected(all) == Err::<Seq<i128>, ProtocolError>(failure));
                    }
                    return Err(failure);
                },
            }
            i += 1;
        }
        proof {
            assert forall|k: int| 0 <= k < listed(prices).len() implies (#[trigger] listed(prices)[k]) > 0 by {
                answers(outcomes).lemma_filter_pred(positive(), k);
            }
            assert(collected(outcomes) == Ok::<Seq<i128>, ProtocolError>(listed(prices)));
            assert(!has_account(asked@)) by {
                if has_account(asked@) {
                    let k = choose|k: int| 0 <= k < asked@.len() && (#[trigger] asked@[k]).addr.kind is Account;
                    assert(asked@[k].addr.kind is Contract);
                }
            }
        }
        Ok(prices)
    }

    /// The price of `asset` at `now`: what the live sources answer, aggregated under the
    /// store's mode, or nothing where no source gave a usable price.
    ///
    /// Every aggregation that gets its answers is counted, also one that finds no price.
    /// A failed call to a source fails the aggregation and leaves the store as it was, and
    /// so does a live source that is an account.
    ///
    /// What the sources answer is theirs to say; what is promised is that the result is
    /// `priced` of some outcomes, one for each live source.
    pub fn aggregate_price(
        env: &soroban_sdk::Env,
        store: &mut OracleStorage,
        asset: &Identity,
        now: u64,
    ) -> (aggregated: Result<Option<i128>, ProtocolError>)
        requires
            old(store).wf(),
            old(store)@.perf_count < i128::MAX,
        ensures
            final(store).wf(),
            final(store)@ == if aggregated is Ok {
                OracleState { perf_count: (old(store)@.perf_count + 1) as i128, ..old(store)@ }
            } else {
                old(store)@
            },
            has_account(live(old(store)@.sources_of(*asset), now, old(store)@.heartbeat_ttl))
                ==> aggregated is Err,
            exists|outcomes: Seq<Option<i128>>|
                {
                    &&& outcomes.len() == live(
                        old(store)@.sources_of(*asset),
                        now,
                        old(store)@.heartbeat_ttl,
                    ).len()
                    &&& #[trigger] priced(outcomes, old(store)@.mode) == aggregated
                },
    {
        let fetched = Self::fetch_prices(env, store, asset, now);
        let ghost outcomes = choose|outcomes: Seq<Option<i128>>|
            {
                &&& outcomes.len() == live(store@.sources_of(*asset), now, store@.heartbeat_ttl).len()
                &&& #[trigger] collected(outcomes) == match fetched {
                    Ok(prices) => Ok::<Seq<i128>, ProtocolError>(listed(prices)),
                    Err(failure) => Err::<Seq<i128>, ProtocolError>(failure),
                }
            };
        let aggregated = match fetched {
            Ok(prices) => {
                store.inc_perf();
                Ok(Self::aggregate(prices, store.get_mode()))
            },
            Err(failure) => Err(failure),
        };
        assert(priced(outcomes, old(store)@.mode) == aggregated);
        aggregated
    }
}

/// Filtering a list of which no item passes the test leaves nothing.
proof fn lemma_filter_none<A>(s: Seq<A>, pred: spec_fn(A) -> bool)
    requires
        forall|i: int| 0 <= i < s.len() ==> !pred(#[trigger] s[i]),
    ensures
        s.filter(pred) == Seq::<A>::empty(),
    decreases s.len(),
{
    reveal(Seq::filter);
    if s.len() > 0 {
        assert forall|i: int| 0 <= i < s.drop_last().len() implies !pred(#[trigger] s.drop_last()[i]) by {
            assert(s.drop_last()[i] == s[i]);
        }
        lemma_filter_none(s.drop_last(), pred);
    }
}

/// Whether no two entries of `list` have the same address.
pub open spec fn distinct_addresses(list: Seq<OracleSource>) -> bool {
    forall|i: int, j: int|
        0 <= i < j < list.len() ==> (#[trigger] list[i]).addr != (#[trigger] list[j]).addr
}

/// Setting a source keeps the addresses of a list distinct, and where the list has an
/// entry with the source's address, that entry alone changes, where it stands.
pub proof fn law_set_source_in_place(list: Seq<OracleSource>, source: OracleSource)
    requires
        distinct_addresses(list),
    ensures
        distinct_addresses(upsert(list, source)),
        registered(upsert(list, source), source.addr),
        forall|k: int|
            0 <= k < list.len() && (#[trigger] list[k]).addr == source.addr ==> upsert(list, source)
                == list.update(k, source),
{
    let after = upsert(list, source);
    if registered(list, source.addr) {
        let k = choose|k: int| 0 <= k < list.len() && (#[trigger] list[k]).addr == source.addr;
        assert(after[k].addr == source.addr);
        assert forall|i: int, j: int| 0 <= i < j < after.len() implies (#[trigger] after[i]).addr != (
        #[trigger] after[j]).addr by {
            assert(after[i].addr == list[i].addr && after[j].addr == list[j].addr);
        }
        assert forall|m: int| 0 <= m < list.len() && (#[trigger] list[m]).addr == source.addr implies after
            == list.update(m, source) by {
            assert forall|i: int| 0 <= i < list.len() implies after[i] == list.update(m, source)[i] by {
                if i != m {
                    if i < m {
                        assert(list[i].addr != list[m].addr);
                    } else {
                        assert(list[m].addr != list[i].addr);
                    }
                }
            }
            assert(after =~= list.update(m, source));
        }
    } else {
        assert(after[list.len() as int].addr == source.addr);
        assert forall|i: int, j: int| 0 <= i < j < after.len() implies (#[trigger] after[i]).addr != (
        #[trigger] after[j]).addr by {
            if j < list.len() {
                assert(list[i].addr != list[j].addr);
            } else {
                assert(list[i].addr != source.addr);
            }
        }
    }
}

/// Setting a source twice under one address does not duplicate it: the second call leaves
/// the length as the first made it, every entry with that address holds what was set
/// last, and the other entries stay.
pub proof fn law_set_source_twice(list: Seq<OracleSource>, first: OracleSource, second: OracleSource)
    requires
        first.addr == second.addr,
    ensures
        upsert(upsert(list, first), second).len() == upsert(list, first).len(),
        forall|i: int|
            0 <= i < upsert(list, first).len() ==> (#[trigger] upsert(upsert(list, first), second)[i])
                == if upsert(list, first)[i].addr == first.addr {
                second
            } else {
                upsert(list, first)[i]
            },
{
    let once = upsert(list, first);
    if registered(list, first.addr) {
        let k = choose|k: int| 0 <= k < list.len() && (#[trigger] list[k]).addr == first.addr;
        assert(once[k].addr == first.addr);
    } else {
        assert(once[list.len() as int].addr == first.addr);
    }
    assert(registered(once, second.addr));
}

/// A source that was removed is registered no more, and the sources that stay keep their
/// order.
pub proof fn law_removed_source_is_gone(list: Seq<OracleSource>, addr: Identity)
    ensures
        !registered(list.filter(other_than(addr)), addr),
        !registered(list, addr) ==> list.filter(other_than(addr)) == list,
    decreases list.len(),
{
    reveal(Seq::filter);
    let kept = list.filter(other_than(addr));
    if registered(kept, addr) {
        let k = choose|k: int| 0 <= k < kept.len() && (#[trigger] kept[k]).addr == addr;
        list.lemma_filter_pred(other_than(addr), k);
    }
    if list.len() > 0 {
        law_removed_source_is_gone(list.drop_last(), addr);
        if !registered(list, addr) {
            assert(list.last() == list[list.len() - 1]);
            assert(list[list.len() - 1].addr != addr);
            if registered(list.drop_last(), addr) {
                let k = choose|k: int|
                    0 <= k < list.drop_last().len() && (#[trigger] list.drop_last()[k]).addr == addr;
                assert(list[k].addr == addr);
            }
            assert(list.drop_last().push(list.last()) =~= list);
        }
    }
}

/// A stale source is excluded whatever it would answer: it is not among the sources that
/// are asked, and these are the same as if it had never been registered.
pub proof fn law_stale_source_is_excluded(list: Seq<OracleSource>, now: u64, ttl: u64, i: int)
    requires
        0 <= i < list.len(),
        is_stale(list[i], now, ttl),
    ensures
        !live(list, now, ttl).contains(list[i]),
        live(list.remove(i), now, ttl) == live(list, now, ttl),
{
    let keep = alive(now, ttl);
    if live(list, now, ttl).contains(list[i]) {
        let k = choose|k: int| 0 <= k < live(list, now, ttl).len() && live(list, now, ttl)[k] == list[i];
        list.lemma_filter_pred(keep, k);
    }
    let before = list.take(i);
    let it = seq![list[i]];
    let after = list.skip(i + 1);
    assert(list =~= before + it + after);
    assert(list.remove(i) =~= before + after);
    lemma_filter_none(it, keep);
    Seq::filter_distributes_over_add(before, it, keep);
    Seq::filter_distributes_over_add(before + it, after, keep);
    Seq::filter_distributes_over_add(before, after, keep);
    assert(before.filter(keep) + Seq::<OracleSource>::empty() =~= before.filter(keep));
}

/// Where every registered source is stale, none is asked.
pub proof fn law_all_stale_none_asked(list: Seq<OracleSource>, now: u64, ttl: u64)
    requires
        forall|i: int| 0 <= i < list.len() ==> is_stale(#[trigger] list[i], now, ttl),
    ensures
        live(list, now, ttl).len() == 0,
{
    lemma_filter_none(list, alive(now, ttl));
}

/// Answers that are all positive are all usable.
pub proof fn lemma_positive_answers_are_usable(quotes: Seq<i128>)
    requires
        all_positive(quotes),
    ensures
        usable(quotes) == quotes,
    decreases quotes.len(),
{
    reveal(Seq::filter);
    if quotes.len() > 0 {
        assert forall|i: int| 0 <= i < quotes.drop_last().len() implies (#[trigger] quotes.drop_last()[i])
            > 0 by {
            assert(quotes.drop_last()[i] == quotes[i]);
        }
        lemma_positive_answers_are_usable(quotes.drop_last());
        assert(quotes.drop_last().push(quotes.last()) =~= quotes);
    }
}

/// Where no live source gives a positive answer there is no price, under any mode: be
/// it that no source is live, or that each one answers with zero or less.
pub proof fn law_no_price_without_positive_answer(outcomes: Seq<Option<i128>>, mode: i128)
    requires
        forall|i: int|
            0 <= i < outcomes.len() ==> ((#[trigger] outcomes[i]) matches Some(answer) && answer <= 0),
    ensures
        collected(outcomes) == Ok::<Seq<i128>, ProtocolError>(Seq::<i128>::empty()),
        priced(outcomes, mode) == Ok::<Option<i128>, ProtocolError>(None),
{
    assert(all_answered(outcomes));
    lemma_filter_none(answers(outcomes), positive());
}

/// One call that fails fails the whole: there is no price from the sources that did
/// answer.
pub proof fn law_one_failure_fails_all(outcomes: Seq<Option<i128>>, mode: i128, i: int)
    requires
        0 <= i < outcomes.len(),
        outcomes[i] is None,
    ensures
        collected(outcomes) == Err::<Seq<i128>, ProtocolError>(ProtocolError::ExternalCallFailed),
        priced(outcomes, mode) == Err::<Option<i128>, ProtocolError>(ProtocolError::ExternalCallFailed),
{
}

} // verus!
