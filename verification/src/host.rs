//! The host environment, as far as the protocol reaches into it.
//!
//! Everything here is taken on trust from `soroban_sdk`: the opaque host types, and one
//! small function for each host call that the verified code makes. Each states no more
//! than the call's own source shows. The host meters every call; where it runs out of
//! budget it ends the whole invocation, and nothing here accounts for that.
use vstd::prelude::*;
use soroban_sdk::address_payload::AddressPayload;
use soroban_sdk::{BytesN, IntoVal};
use crate::identity::{HolderKind, Identity};

verus! {

/// `soroban_sdk::Env`, the handle to the host. Nothing is known of what is behind it.
#[verifier::external_type_specification]
#[verifier::external_body]
pub struct ExEnv(soroban_sdk::Env);

/// `soroban_sdk::Symbol`, a short name in the host's spelling. The characters that one
/// holds are named by `symbol_chars`.
#[verifier::external_type_specification]
#[verifier::external_body]
pub struct ExSymbol(soroban_sdk::Symbol);

/// `soroban_sdk::String`, a text that lives in the host. Nothing is known of what one
/// holds; the library keeps it and hands it on.
#[verifier::external_type_specification]
#[verifier::external_body]
pub struct ExHostString(soroban_sdk::String);

/// `soroban_sdk::Vec`, a vector that lives in the host. What one of 128-bit integers
/// holds is named by `price_items`.
#[verifier::external_type_specification]
#[verifier::external_body]
#[verifier::reject_recursive_types(T)]
pub struct ExHostVec<T>(soroban_sdk::Vec<T>);

/// Whether `c` may stand in a host symbol: a letter, a digit or an underscore.
pub open spec fn symbol_char(c: char) -> bool {
    c == '_' || ('0' <= c && c <= '9') || ('a' <= c && c <= 'z') || ('A' <= c && c <= 'Z')
}

/// Whether `text` can be made into a host symbol: at most 32 characters, each of them a
/// symbol character.
pub open spec fn symbol_text(text: Seq<char>) -> bool {
    &&& text.len() <= 32
    &&& forall|i: int| 0 <= i < text.len() ==> symbol_char(#[trigger] text[i])
}

/// The characters that a host symbol holds, in order.
pub uninterp spec fn symbol_chars(s: soroban_sdk::Symbol) -> Seq<char>;

/// What a host vector of 128-bit integers holds, item by item: `Some(p)` where the item
/// is the integer `p`, `None` where the host holds a value of another type in that place.
pub uninterp spec fn price_items(v: soroban_sdk::Vec<i128>) -> Seq<Option<i128>>;

/// Whether every item of `v` is an integer.
pub open spec fn lists_prices(v: soroban_sdk::Vec<i128>) -> bool {
    forall|i: int| 0 <= i < price_items(v).len() ==> (#[trigger] price_items(v)[i]) is Some
}

/// The integers that `v` lists, in order; meaningful where `lists_prices(v)`.
pub open spec fn listed(v: soroban_sdk::Vec<i128>) -> Seq<i128> {
    Seq::new(price_items(v).len(), |i: int| price_items(v)[i].unwrap())
}

/// `soroban_sdk::Symbol::new`: the host symbol that holds the characters of `name`. The
/// call panics on a name that is longer than 32 characters or holds a character outside
/// `a-zA-Z0-9_`, so such names are excluded.
#[verifier::external_body]
pub(crate) fn symbol(env: &soroban_sdk::Env, name: &str) -> (s: soroban_sdk::Symbol)
    requires
        symbol_text(name@),
    ensures
        symbol_chars(s) == name@,
{
    soroban_sdk::Symbol::new(env, name)
}

/// `Clone::clone` of `soroban_sdk::String`: a second handle to the same text in the same
/// host, equal to the first in every respect.
#[verifier::external_body]
pub(crate) fn same_text(text: &soroban_sdk::String) -> (copy: soroban_sdk::String)
    ensures
        copy == *text,
{
    text.clone()
}

/// `soroban_sdk::Env::try_invoke_contract`: calls function `func` of the contract whose id
/// is `source` with the address of `asset` as its one argument, and reads the answer as a
/// 128-bit integer. Both addresses are made from their keys on the way, by
/// `soroban_sdk::address_payload::AddressPayload::to_address`. `None` stands for every
/// failure that the host hands back: no such contract or function, a trap in the callee,
/// an error value, or an answer of another type. What a source answers is its own
/// business, so nothing is claimed of the integer.
#[verifier::external_body]
pub(crate) fn ask_price(
    env: &soroban_sdk::Env,
    source: &[u8; 32],
    func: &soroban_sdk::Symbol,
    asset: &Identity,
) -> (quote: Option<i128>) {
    let contract = AddressPayload::ContractIdHash(BytesN::from_array(env, source)).to_address(env);
    let key = BytesN::from_array(env, &asset.key);
    let about = match asset.kind {
        HolderKind::Account => AddressPayload::AccountIdPublicKeyEd25519(key).to_address(env),
        HolderKind::Contract => AddressPayload::ContractIdHash(key).to_address(env),
    };
    let args = soroban_sdk::Vec::from_array(env, [IntoVal::into_val(&about, env)]);
    match env.try_invoke_contract::<i128, soroban_sdk::Error>(&contract, func, args) {
        Ok(Ok(price)) => Some(price),
        _ => None,
    }
}

/// `soroban_sdk::Vec::new`: an empty host vector.
#[verifier::external_body]
pub(crate) fn price_list(env: &soroban_sdk::Env) -> (v: soroban_sdk::Vec<i128>)
    ensures
        price_items(v) == Seq::<Option<i128>>::empty(),
{
    soroban_sdk::Vec::new(env)
}

/// `soroban_sdk::Vec::len`: the number of items.
#[verifier::external_body]
pub(crate) fn price_count(v: &soroban_sdk::Vec<i128>) -> (n: u32)
    ensures
        n == price_items(*v).len(),
{
    v.len()
}

/// `soroban_sdk::Vec::try_get`: the item at position `i`. The call gives nothing beyond
/// the last position and an error where the item is no integer; both come back as `None`.
#[verifier::external_body]
pub(crate) fn price_at(v: &soroban_sdk::Vec<i128>, i: u32) -> (p: Option<i128>)
    ensures
        p == if i < price_items(*v).len() {
            price_items(*v)[i as int]
        } else {
            None
        },
{
    match v.try_get(i) {
        Ok(p) => p,
        Err(_) => None,
    }
}

/// `soroban_sdk::Vec::set`: replaces the item at position `i`, which must exist (the call
/// panics beyond the last position), and leaves the others as they were.
#[verifier::external_body]
pub(crate) fn put_price(v: &mut soroban_sdk::Vec<i128>, i: u32, p: i128)
    requires
        i < price_items(*old(v)).len(),
    ensures
        price_items(*final(v)) == price_items(*old(v)).update(i as int, Some(p)),
{
    v.set(i, p)
}

/// `soroban_sdk::Vec::push_back`: adds an item behind the last one. A host vector counts
/// its items in 32 bits, so a full one is excluded.
#[verifier::external_body]
pub(crate) fn push_price(v: &mut soroban_sdk::Vec<i128>, p: i128)
    requires
        price_items(*old(v)).len() < u32::MAX,
    ensures
        price_items(*final(v)) == price_items(*old(v)).push(Some(p)),
{
    v.push_back(p)
}

} // verus!
