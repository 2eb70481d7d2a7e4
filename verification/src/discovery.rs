//! Plain parts of the instrument-discovery pipeline: exchange and market
//! identifiers, the mapping from exchange names to source slots, and the
//! bookkeeping of validation outcomes. The network work that feeds these
//! types happens outside this crate.

use vstd::prelude::*;

use std::collections::HashSet;

use vstd::string::StrSliceExecFns;

use crate::config::{ExchangeEntry, ExchangesConfig};
use crate::types::SourceId;

verus! {

broadcast use vstd::std_specs::hash::group_hash_axioms;

/// Exchange identifier.
#[derive(Clone, Copy, Debug, PartialEq, Eq, Hash, Structural)]
pub enum Exchange {
    Binance,
    Bybit,
    OKX,
    MEXC,
}

impl Exchange {
    pub fn name(&self) -> (r: &'static str)
        ensures
            *self == Exchange::Binance ==> r@ == "binance"@,
            *self == Exchange::Bybit ==> r@ == "bybit"@,
            *self == Exchange::OKX ==> r@ == "okx"@,
            *self == Exchange::MEXC ==> r@ == "mexc"@,
    {
        match self {
            Exchange::Binance => "binance",
            Exchange::Bybit => "bybit",
            Exchange::OKX => "okx",
            Exchange::MEXC => "mexc",
        }
    }
}

/// Market type.
#[derive(Clone, Copy, Debug, PartialEq, Eq, Hash, Structural)]
pub enum Market {
    Spot,
    Futures,
}

impl Market {
    pub fn name(&self) -> (r: &'static str)
        ensures
            *self == Market::Spot ==> r@ == "spot"@,
            *self == Market::Futures ==> r@ == "futures"@,
    {
        match self {
            Market::Spot => "spot",
            Market::Futures => "futures",
        }
    }
}

/// Listing status of an instrument on its exchange.
#[derive(Clone, Copy, Debug, PartialEq, Eq, Structural)]
pub enum InstrumentStatus {
    Trading,
    Suspended,
    Delisted,
    PreLaunch,
}

/// Character-for-character string equality.
pub fn str_eq(a: &str, b: &str) -> (r: bool)
    ensures
        r == (a@ == b@),
{
    let la = a.unicode_len();
    let lb = b.unicode_len();
    if la != lb {
        return false;
    }
    let mut i: usize = 0;
    while i < la
        invariant
            i <= la,
            la == a@.len(),
            la == b@.len(),
            forall|j: int| 0 <= j < i ==> a@[j] == b@[j],
        decreases la - i,
    {
        if a.get_char(i) != b.get_char(i) {
            return false;
        }
        i = i + 1;
    }
    proof {
        assert(a@ =~= b@);
    }
    true
}

/// The source slot an (exchange name, market) pair owns, if the exchange is
/// a known one.
pub open spec fn source_for(exchange: Seq<char>, is_futures: bool) -> Option<SourceId> {
    if exchange == "binance"@ {
        Some(
            if is_futures {
                SourceId::BinanceFutures
            } else {
                SourceId::BinanceSpot
            },
        )
    } else if exchange == "bybit"@ {
        Some(
            if is_futures {
                SourceId::BybitFutures
            } else {
                SourceId::BybitSpot
            },
        )
    } else if exchange == "mexc"@ {
        Some(
            if is_futures {
                SourceId::MexcFutures
            } else {
                SourceId::MexcSpot
            },
        )
    } else if exchange == "okx"@ {
        Some(
            if is_futures {
                SourceId::OkxFutures
            } else {
                SourceId::OkxSpot
            },
        )
    } else {
        None
    }
}

pub fn source_from_exchange_market(exchange: &str, is_futures: bool) -> (r: Option<SourceId>)
    ensures
        r == source_for(exchange@, is_futures),
{
    if str_eq(exchange, "binance") {
        Some(
            if is_futures {
                SourceId::BinanceFutures
            } else {
                SourceId::BinanceSpot
            },
        )
    } else if str_eq(exchange, "bybit") {
        Some(
            if is_futures {
                SourceId::BybitFutures
            } else {
                SourceId::BybitSpot
            },
        )
    } else if str_eq(exchange, "mexc") {
        Some(
            if is_futures {
                SourceId::MexcFutures
            } else {
                SourceId::MexcSpot
            },
        )
    } else if str_eq(exchange, "okx") {
        Some(
            if is_futures {
                SourceId::OkxFutures
            } else {
                SourceId::OkxSpot
            },
        )
    } else {
        None
    }
}

/// The spot and futures source of each configured exchange, paired with its
/// name; `None` exactly when some entry names an unknown exchange.
pub fn expected_sources(exchanges: &Vec<ExchangeEntry>) -> (r: Option<Vec<(SourceId, String)>>)
    ensures
        r is None <==> exists|k: int|
            0 <= k < exchanges@.len() && source_for((#[trigger] exchanges@[k]).name@, false)
                is None,
        r matches Some(v) ==> v@.len() == 2 * exchanges@.len() && forall|k: int|
            0 <= k < exchanges@.len() ==> (#[trigger] v@[2 * k]).0 == source_for(
                exchanges@[k].name@,
                false,
            ).unwrap() && v@[2 * k].1@ == exchanges@[k].name@ && v@[2 * k + 1].0 == source_for(
                exchanges@[k].name@,
                true,
            ).unwrap() && v@[2 * k + 1].1@ == exchanges@[k].name@,
{
    let mut out: Vec<(SourceId, String)> = Vec::new();
    let mut i: usize = 0;
    while i < exchanges.len()
        invariant
            i <= exchanges@.len(),
            out@.len() == 2 * i,
            forall|k: int|
                0 <= k < i ==> source_for((#[trigger] exchanges@[k]).name@, false) is Some,
            forall|k: int|
                0 <= k < i ==> (#[trigger] out@[2 * k]).0 == source_for(
                    exchanges@[k].name@,
                    false,
                ).unwrap() && out@[2 * k].1@ == exchanges@[k].name@ && out@[2 * k + 1].0
                    == source_for(exchanges@[k].name@, true).unwrap() && out@[2 * k + 1].1@
                    == exchanges@[k].name@,
        decreases exchanges@.len() - i,
    {
        let name = &exchanges[i].name;
        let spot = source_from_exchange_market(name.as_str(), false);
        let fut = source_from_exchange_market(name.as_str(), true);
        match (spot, fut) {
            (Some(s), Some(f)) => {
                out.push((s, name.clone()));
                out.push((f, name.clone()));
            },
            _ => {
                return None;
            },
        }
        i = i + 1;
    }
    Some(out)
}

/// The first configured exchange with the given name.
pub open spec fn find_exchange_spec(entries: Seq<ExchangeEntry>, name: Seq<char>) -> Option<
    ExchangeEntry,
>
    decreases entries.len(),
{
    if entries.len() == 0 {
        None
    } else if entries[0].name@ == name {
        Some(entries[0])
    } else {
        find_exchange_spec(entries.drop_first(), name)
    }
}

fn find_exchange<'a>(entries: &'a Vec<ExchangeEntry>, name: &str) -> (r: Option<&'a ExchangeEntry>)
    ensures
        r matches Some(e) ==> find_exchange_spec(entries@, name@) == Some(*e),
        r is None <==> find_exchange_spec(entries@, name@) is None,
{
    let mut i: usize = 0;
    proof {
        assert(entries@.subrange(0, entries@.len() as int) =~= entries@);
    }
    while i < entries.len()
        invariant
            i <= entries@.len(),
            find_exchange_spec(entries@, name@) == find_exchange_spec(
                entries@.subrange(i as int, entries@.len() as int),
                name@,
            ),
            forall|k: int| 0 <= k < i ==> (#[trigger] entries@[k]).name@ != name@,
        decreases entries@.len() - i,
    {
        let e = &entries[i];
        if str_eq(e.name.as_str(), name) {
            proof {
                let rest = entries@.subrange(i as int, entries@.len() as int);
                assert(rest[0] == entries@[i as int]);
            }
            return Some(e);
        }
        proof {
            let rest = entries@.subrange(i as int, entries@.len() as int);
            assert(rest[0] == entries@[i as int]);
            assert(rest.drop_first() =~= entries@.subrange(i + 1, entries@.len() as int));
        }
        i = i + 1;
    }
    proof {
        assert(entries@.subrange(entries@.len() as int, entries@.len() as int) =~= Seq::<
            ExchangeEntry,
        >::empty());
    }
    None
}

/// The WebSocket endpoint of each of the eight sources, in source order;
/// `None` exactly when one of the four exchanges is not configured.
pub fn build_ws_urls(exchanges_config: &ExchangesConfig) -> (r: Option<Vec<(SourceId, String)>>)
    ensures
        r is None <==> find_exchange_spec(exchanges_config.exchange@, "binance"@) is None
            || find_exchange_spec(exchanges_config.exchange@, "bybit"@) is None
            || find_exchange_spec(exchanges_config.exchange@, "okx"@) is None
            || find_exchange_spec(exchanges_config.exchange@, "mexc"@) is None,
        r matches Some(v) ==> {
            let binance = find_exchange_spec(exchanges_config.exchange@, "binance"@).unwrap();
            let bybit = find_exchange_spec(exchanges_config.exchange@, "bybit"@).unwrap();
            let okx = find_exchange_spec(exchanges_config.exchange@, "okx"@).unwrap();
            let mexc = find_exchange_spec(exchanges_config.exchange@, "mexc"@).unwrap();
            &&& v@.len() == 8
            &&& v@[0] == (SourceId::BinanceSpot, binance.ws_spot)
            &&& v@[1] == (SourceId::BinanceFutures, binance.ws_futures)
            &&& v@[2] == (SourceId::BybitSpot, bybit.ws_spot)
            &&& v@[3] == (SourceId::BybitFutures, bybit.ws_futures)
            &&& v@[4] == (SourceId::MexcSpot, mexc.ws_spot)
            &&& v@[5] == (SourceId::MexcFutures, mexc.ws_futures)
            &&& v@[6] == (SourceId::OkxSpot, okx.ws_spot)
            &&& v@[7] == (SourceId::OkxFutures, okx.ws_futures)
        },
{
    let binance = find_exchange(&exchanges_config.exchange, "binance");
    let bybit = find_exchange(&exchanges_config.exchange, "bybit");
    let okx = find_exchange(&exchanges_config.exchange, "okx");
    let mexc = find_exchange(&exchanges_config.exchange, "mexc");
    match (binance, bybit, okx, mexc) {
        (Some(binance), Some(bybit), Some(okx), Some(mexc)) => {
            let mut v: Vec<(SourceId, String)> = Vec::new();
            v.push((SourceId::BinanceSpot, binance.ws_spot.clone()));
            v.push((SourceId::BinanceFutures, binance.ws_futures.clone()));
            v.push((SourceId::BybitSpot, bybit.ws_spot.clone()));
            v.push((SourceId::BybitFutures, bybit.ws_futures.clone()));
            v.push((SourceId::MexcSpot, mexc.ws_spot.clone()));
            v.push((SourceId::MexcFutures, mexc.ws_futures.clone()));
            v.push((SourceId::OkxSpot, okx.ws_spot.clone()));
            v.push((SourceId::OkxFutures, okx.ws_futures.clone()));
            Some(v)
        },
        _ => None,
    }
}

// === Validation bookkeeping ===

/// One subscription: a symbol and its exchange-specific name.
#[derive(Clone, Debug)]
pub struct SymbolSub {
    pub symbol_id: u16,
    pub exchange_name: String,
}

/// Why a pair failed validation.
#[derive(Clone, Copy, Debug, PartialEq, Eq, Structural)]
pub enum InvalidReason {
    NoResponse,
    ZeroBid,
    BidAboveAsk,
    ProtobufSkipped,
}

impl InvalidReason {
    pub fn describe(&self) -> (r: &'static str)
        ensures
            *self == InvalidReason::NoResponse ==> r@ == "NoResponse"@,
            *self == InvalidReason::ZeroBid ==> r@ == "ZeroBid"@,
            *self == InvalidReason::BidAboveAsk ==> r@ == "BidAboveAsk"@,
            *self == InvalidReason::ProtobufSkipped ==> r@ == "ProtobufSkipped"@,
    {
        match self {
            InvalidReason::NoResponse => "NoResponse",
            InvalidReason::ZeroBid => "ZeroBid",
            InvalidReason::BidAboveAsk => "BidAboveAsk",
            InvalidReason::ProtobufSkipped => "ProtobufSkipped",
        }
    }
}

/// One pair that failed validation on one source.
#[derive(Clone, Debug)]
pub struct InvalidPair {
    pub symbol_id: u16,
    pub exchange_name: String,
    pub reason: InvalidReason,
}

/// The outcome of validating one source's subscriptions.
#[derive(Debug)]
pub struct ValidationResult {
    pub source_id: u8,
    pub total: u16,
    pub valid: HashSet<u16>,
    pub invalid: Vec<InvalidPair>,
}

/// The pairs of `subs` (first `k` of them) whose symbol is not in
/// `received`, each marked `NoResponse`, in subscription order.
pub open spec fn unheard_upto(subs: Seq<SymbolSub>, received: Set<u16>, k: int) -> Seq<InvalidPair>
    decreases k,
{
    if k <= 0 {
        Seq::empty()
    } else {
        let prev = unheard_upto(subs, received, k - 1);
        if received.contains(subs[k - 1].symbol_id) {
            prev
        } else {
            prev.push(
                InvalidPair {
                    symbol_id: subs[k - 1].symbol_id,
                    exchange_name: subs[k - 1].exchange_name,
                    reason: InvalidReason::NoResponse,
                },
            )
        }
    }
}

/// The symbols of the first `k` subscriptions, as a set.
pub open spec fn sub_ids_upto(subs: Seq<SymbolSub>, k: int) -> Set<u16>
    decreases k,
{
    if k <= 0 {
        Set::empty()
    } else {
        sub_ids_upto(subs, k - 1).insert(subs[k - 1].symbol_id)
    }
}

/// The outcome when a source answered nothing at all: no pair validated,
/// every subscription marked `NoResponse`.
pub fn empty_result(source_id: u8, subs: &Vec<SymbolSub>) -> (r: ValidationResult)
    requires
        subs@.len() <= u16::MAX,
    ensures
        r.source_id == source_id,
        r.total == subs@.len(),
        r.valid@ == Set::<u16>::empty(),
        r.invalid@ == unheard_upto(subs@, Set::empty(), subs@.len() as int),
{
    let received: HashSet<u16> = HashSet::new();
    build_result(source_id, subs, received)
}

/// The outcome of a validation pass: the symbols heard from are valid, the
/// rest are marked `NoResponse`, in subscription order.
pub fn build_result(source_id: u8, subs: &Vec<SymbolSub>, received: HashSet<u16>) -> (r:
    ValidationResult)
    requires
        subs@.len() <= u16::MAX,
    ensures
        r.source_id == source_id,
        r.total == subs@.len(),
        r.valid@ == received@,
        r.invalid@ == unheard_upto(subs@, received@, subs@.len() as int),
{
    let mut invalid: Vec<InvalidPair> = Vec::new();
    let mut i: usize = 0;
    while i < subs.len()
        invariant
            i <= subs@.len(),
            invalid@ == unheard_upto(subs@, received@, i as int),
        decreases subs@.len() - i,
    {
        if !received.contains(&subs[i].symbol_id) {
            invalid.push(
                InvalidPair {
                    symbol_id: subs[i].symbol_id,
                    exchange_name: subs[i].exchange_name.clone(),
                    reason: InvalidReason::NoResponse,
                },
            );
        }
        i = i + 1;
    }
    ValidationResult { source_id, total: subs.len() as u16, valid: received, invalid }
}

/// The outcome when upstream validation cannot be run and the listing data
/// is taken at its word: every subscription counts as valid.
pub fn trust_rest_result(source_id: u8, subs: &Vec<SymbolSub>) -> (r: ValidationResult)
    requires
        subs@.len() <= u16::MAX,
    ensures
        r.source_id == source_id,
        r.total == subs@.len(),
        r.valid@ == sub_ids_upto(subs@, subs@.len() as int),
        r.invalid@ == Seq::<InvalidPair>::empty(),
{
    let mut valid: HashSet<u16> = HashSet::new();
    let mut i: usize = 0;
    while i < subs.len()
        invariant
            i <= subs@.len(),
            valid@ == sub_ids_upto(subs@, i as int),
        decreases subs@.len() - i,
    {
        valid.insert(subs[i].symbol_id);
        i = i + 1;
    }
    ValidationResult { source_id, total: subs.len() as u16, valid, invalid: Vec::new() }
}

} // verus!
