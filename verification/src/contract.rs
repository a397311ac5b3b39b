//! The aggregator: its validated configuration, and the questions it answers.
//! Where an answer needs the upstream feed, the caller hands in the function
//! that asks it; where it needs the time, the caller hands that in too.

use vstd::prelude::*;
use crate::candidates::{candidates, fresh};
use crate::decimal::{div_toward_zero, normalized, pow10, power_of_ten, MAX_EXPONENT};
use crate::errors::{Failure, OracleAggregatorErrors};
use crate::price_data::{answers, fails_with, finds, get_price, Lookup};
use crate::types::{AddressKey, Answer, AssetId, OracleConfig, PriceData};
use crate::universe::{lemma_reference_is_quoted, with_reference, with_reference_currency};

verus! {

/// The youngest maximum age an aggregator can be set up with, in seconds.
pub const MIN_MAX_AGE: u64 = 360;

/// The oldest maximum age an aggregator can be set up with, in seconds.
pub const MAX_MAX_AGE: u64 = 3600;

/// An aggregator in front of one upstream feed. Its configuration is
/// validated when it is made, and never changes.
pub struct OracleAggregator {
    config: OracleConfig,
    decimals: u32,
    max_age: u64,
    usdc: AddressKey,
}

/// Why a configuration cannot be an aggregator's, if it cannot: the maximum
/// age is looked at first, then the feed's base asset, then its resolution.
///
/// A feed that reports no resolution has no sampling grid: what it said of
/// itself cannot be used.
pub open spec fn rejection(
    config: OracleConfig,
    usdc: AddressKey,
    max_age: u64,
) -> Option<Failure> {
    if max_age < MIN_MAX_AGE || max_age > MAX_MAX_AGE {
        Some(Failure::Contract(OracleAggregatorErrors::InvalidMaxAge))
    } else if config.base != AssetId::Stellar(usdc) {
        Some(Failure::Contract(OracleAggregatorErrors::InvalidBaseAsset))
    } else if config.resolution == 0 {
        Some(Failure::UpstreamUnavailable)
    } else {
        None
    }
}

impl OracleAggregator {
    #[verifier::type_invariant]
    spec fn inv(self) -> bool {
        rejection(self.config, self.usdc, self.max_age) is None
    }

    /// What the aggregator knows of its feed.
    pub closed spec fn spec_config(&self) -> OracleConfig {
        self.config
    }

    /// The precision the aggregator reports prices in.
    pub closed spec fn spec_decimals(&self) -> u32 {
        self.decimals
    }

    /// The maximum age of a price, in seconds.
    pub closed spec fn spec_max_age(&self) -> u64 {
        self.max_age
    }

    /// The reference currency.
    pub closed spec fn spec_usdc(&self) -> AddressKey {
        self.usdc
    }

    /// Makes an aggregator of a configuration that is already at hand, or
    /// says why it cannot be one.
    pub fn from_parts(
        config: OracleConfig,
        usdc: AddressKey,
        decimals: u32,
        max_age: u64,
    ) -> (r: Result<OracleAggregator, Failure>)
        ensures
            match r {
                Ok(aggregator) => {
                    &&& rejection(config, usdc, max_age) is None
                    &&& aggregator.config() == config
                    &&& aggregator.usdc() == usdc
                    &&& aggregator.decimals() == decimals
                    &&& aggregator.max_age() == max_age
                },
                Err(f) => rejection(config, usdc, max_age) == Some(f),
            },
    {
        if max_age < MIN_MAX_AGE || max_age > MAX_MAX_AGE {
            return Err(Failure::Contract(OracleAggregatorErrors::InvalidMaxAge));
        }
        if !config.base.is_stellar(&usdc) {
            return Err(Failure::Contract(OracleAggregatorErrors::InvalidBaseAsset));
        }
        if config.resolution == 0 {
            return Err(Failure::UpstreamUnavailable);
        }
        Ok(OracleAggregator { config, decimals, max_age, usdc })
    }

    /// How setting up ends, given what the feed said of itself. Without its
    /// base asset it fails, and with another base asset than the reference
    /// currency it is rejected. Without its resolution or its decimals it
    /// fails. With all three the aggregator has what the feed said, or is
    /// rejected as [`rejection`] says.
    pub open spec fn set_up(
        oracle_id: AddressKey,
        usdc_id: AddressKey,
        decimals: u32,
        max_age: u64,
        base: Option<AssetId>,
        resolution: Option<u32>,
        upstream_decimals: Option<u32>,
        r: Result<OracleAggregator, Failure>,
    ) -> bool {
        match (base, resolution, upstream_decimals) {
            (None, _, _) => r matches Err(f) && f == Failure::UpstreamUnavailable,
            (Some(base), Some(resolution), Some(upstream_decimals)) => {
                let config = OracleConfig {
                    oracle_id,
                    decimals: upstream_decimals,
                    resolution,
                    base,
                };
                match r {
                    Ok(aggregator) => {
                        &&& rejection(config, usdc_id, max_age) is None
                        &&& aggregator.config() == config
                        &&& aggregator.usdc() == usdc_id
                        &&& aggregator.decimals() == decimals
                        &&& aggregator.max_age() == max_age
                    },
                    Err(f) => rejection(config, usdc_id, max_age) == Some(f),
                }
            },
            (Some(base), _, _) => r matches Err(f) && f == if base != AssetId::Stellar(usdc_id) {
                Failure::Contract(OracleAggregatorErrors::InvalidBaseAsset)
            } else {
                Failure::UpstreamUnavailable
            },
        }
    }

    /// Whether the feed may have said `base`, `resolution` and
    /// `upstream_decimals` of itself, as far as it was asked: for its base
    /// asset always, for its resolution where the base asset is the reference
    /// currency, and for its decimals where it gave a resolution.
    pub open spec fn said<
        B: FnOnce() -> Option<AssetId>,
        R: FnOnce() -> Option<u32>,
        D: FnOnce() -> Option<u32>,
    >(
        ask_base: B,
        ask_resolution: R,
        ask_decimals: D,
        usdc_id: AddressKey,
        base: Option<AssetId>,
        resolution: Option<u32>,
        upstream_decimals: Option<u32>,
    ) -> bool {
        &&& call_ensures(ask_base, (), base)
        &&& base == Some(AssetId::Stellar(usdc_id)) ==> call_ensures(
            ask_resolution,
            (),
            resolution,
        )
        &&& base == Some(AssetId::Stellar(usdc_id)) && resolution is Some ==> call_ensures(
            ask_decimals,
            (),
            upstream_decimals,
        )
    }

    /// Initialize the oracle aggregator.
    ///
    /// ### Arguments
    /// * `oracle_id` - The address of the oracle
    /// * `usdc_id` - The address of the USDC asset
    /// * `decimals` - The decimals the oracle will report in
    /// * `max_age` - The maximum time the oracle will look back for a price (in seconds)
    /// * `ask_base` - Asks the oracle for its base asset
    /// * `ask_resolution` - Asks the oracle for its resolution
    /// * `ask_decimals` - Asks the oracle for its decimals
    ///
    /// ### Errors
    /// * `InvalidMaxAge` - The max age is not between 360 (6m) and 3600 (60m)
    /// * `InvalidBaseAsset` - The base asset of the oracle is not USDC
    /// * `UpstreamUnavailable` - The oracle did not answer, or reports no resolution
    ///
    /// The maximum age is looked at first: where it is out of range, the
    /// oracle is not asked. Its resolution and its decimals are asked for, in
    /// this order, once its base asset is known to be USDC.
    pub fn __constructor<
        B: FnOnce() -> Option<AssetId>,
        R: FnOnce() -> Option<u32>,
        D: FnOnce() -> Option<u32>,
    >(
        oracle_id: AddressKey,
        usdc_id: AddressKey,
        decimals: u32,
        max_age: u64,
        ask_base: B,
        ask_resolution: R,
        ask_decimals: D,
    ) -> (r: Result<OracleAggregator, Failure>)
        requires
            call_requires(ask_base, ()),
            call_requires(ask_resolution, ()),
            call_requires(ask_decimals, ()),
        ensures
            max_age < MIN_MAX_AGE || max_age > MAX_MAX_AGE ==> (r matches Err(f) && f
                == Failure::Contract(OracleAggregatorErrors::InvalidMaxAge)),
            MIN_MAX_AGE <= max_age <= MAX_MAX_AGE ==> exists|
                base: Option<AssetId>,
                resolution: Option<u32>,
                upstream_decimals: Option<u32>,
            |
                {
                    &&& #[trigger] OracleAggregator::set_up(
                        oracle_id,
                        usdc_id,
                        decimals,
                        max_age,
                        base,
                        resolution,
                        upstream_decimals,
                        r,
                    )
                    &&& OracleAggregator::said(
                        ask_base,
                        ask_resolution,
                        ask_decimals,
                        usdc_id,
                        base,
                        resolution,
                        upstream_decimals,
                    )
                },
    {
        if max_age < MIN_MAX_AGE || max_age > MAX_MAX_AGE {
            return Err(Failure::Contract(OracleAggregatorErrors::InvalidMaxAge));
        }
        let base = ask_base();
        let ghost base_said = base;
        let base = match base {
            Some(base) => base,
            None => {
                let r = Err(Failure::UpstreamUnavailable);
                assert(OracleAggregator::set_up(
                    oracle_id,
                    usdc_id,
                    decimals,
                    max_age,
                    base_said,
                    None,
                    None,
                    r,
                ));
                return r;
            },
        };
        if !base.is_stellar(&usdc_id) {
            let r = Err(Failure::Contract(OracleAggregatorErrors::InvalidBaseAsset));
            assert(OracleAggregator::set_up(
                oracle_id,
                usdc_id,
                decimals,
                max_age,
                base_said,
                None,
                None,
                r,
            ));
            return r;
        }
        let resolution = ask_resolution();
        let ghost resolution_said = resolution;
        let resolution = match resolution {
            Some(resolution) => resolution,
            None => {
                let r = Err(Failure::UpstreamUnavailable);
                assert(OracleAggregator::set_up(
                    oracle_id,
                    usdc_id,
                    decimals,
                    max_age,
                    base_said,
                    resolution_said,
                    None,
                    r,
                ));
                return r;
            },
        };
        let upstream_decimals = ask_decimals();
        let ghost decimals_said = upstream_decimals;
        let r = match upstream_decimals {
            Some(upstream_decimals) => {
                let config = OracleConfig {
                    oracle_id,
                    decimals: upstream_decimals,
                    resolution,
                    base,
                };
                OracleAggregator::from_parts(config, usdc_id, decimals, max_age)
            },
            None => Err(Failure::UpstreamUnavailable),
        };
        assert(OracleAggregator::set_up(
            oracle_id,
            usdc_id,
            decimals,
            max_age,
            base_said,
            resolution_said,
            decimals_said,
            r,
        ));
        r
    }

    /// Fetch the max age of a price
    #[verifier::when_used_as_spec(spec_max_age)]
    pub fn max_age(&self) -> (r: u64)
        ensures
            r == self.spec_max_age(),
            MIN_MAX_AGE <= r <= MAX_MAX_AGE,
    {
        proof {
            use_type_invariant(self);
        }
        self.max_age
    }

    /// What the aggregator knows of its feed. The feed's base asset is the
    /// reference currency, and its resolution is positive.
    #[verifier::when_used_as_spec(spec_config)]
    pub fn config(&self) -> (r: OracleConfig)
        ensures
            r == self.spec_config(),
            r.base == AssetId::Stellar(self.usdc()),
            r.resolution > 0,
    {
        proof {
            use_type_invariant(self);
        }
        OracleConfig {
            oracle_id: self.config.oracle_id,
            decimals: self.config.decimals,
            resolution: self.config.resolution,
            base: AssetId::Stellar(self.usdc),
        }
    }

    /// The address of the reference currency.
    #[verifier::when_used_as_spec(spec_usdc)]
    pub fn usdc(&self) -> (r: AddressKey)
        ensures
            r == self.spec_usdc(),
    {
        self.usdc
    }

    /// The precision the aggregator reports prices in.
    #[verifier::when_used_as_spec(spec_decimals)]
    pub fn decimals(&self) -> (r: u32)
        ensures
            r == self.spec_decimals(),
    {
        self.decimals
    }

    /// The asset that prices are reported in: the feed's base asset, which is
    /// the reference currency.
    pub fn base(&self) -> (r: AssetId)
        ensures
            r == self.config().base,
            r == AssetId::Stellar(self.usdc()),
    {
        proof {
            use_type_invariant(self);
        }
        AssetId::Stellar(self.usdc)
    }

    /// The aggregator has no resolution of its own.
    pub fn resolution(&self) -> (r: Result<u32, Failure>)
        ensures
            r matches Err(f) && f == Failure::Contract(OracleAggregatorErrors::NotImplemented),
    {
        Err(Failure::Contract(OracleAggregatorErrors::NotImplemented))
    }

    /// The aggregator answers for the latest price only, not for a given time.
    pub fn price(&self, _asset: &AssetId, _timestamp: u64) -> (r: Result<
        Option<PriceData>,
        Failure,
    >)
        ensures
            r matches Err(f) && f == Failure::Contract(OracleAggregatorErrors::NotImplemented),
    {
        Err(Failure::Contract(OracleAggregatorErrors::NotImplemented))
    }

    /// The aggregator answers for the latest price only, not for a history.
    pub fn prices(&self, _asset: &AssetId, _records: u32) -> (r: Result<
        Option<Vec<PriceData>>,
        Failure,
    >)
        ensures
            r matches Err(f) && f == Failure::Contract(OracleAggregatorErrors::NotImplemented),
    {
        Err(Failure::Contract(OracleAggregatorErrors::NotImplemented))
    }

    /// What one unit of the reference currency is worth in itself: one, at
    /// the advertised precision.
    pub open spec fn unit_price(&self, now: u64) -> Result<Option<PriceData>, Failure> {
        if self.decimals() <= MAX_EXPONENT {
            Ok(Some(PriceData { price: pow10(self.decimals() as nat) as i128, timestamp: now }))
        } else {
            Err(Failure::Overflow)
        }
    }

    /// How asking for the latest price of `asset` as of `now` ends, in a feed
    /// that `ask` speaks for. The reference currency is worth one unit of
    /// itself at `now`, whatever the feed holds. The price of any other asset
    /// is what a lookup finds in the feed, and fails as the lookup does.
    pub open spec fn priced<F: Fn(u64) -> Answer>(
        &self,
        ask: F,
        asset: AssetId,
        now: u64,
        r: Result<Option<PriceData>, Failure>,
    ) -> bool {
        if asset.is_address(self.usdc()) {
            r == self.unit_price(now)
        } else {
            match r {
                Ok(price) => exists|found: Lookup|
                    found.price == price && #[trigger] finds(
                        ask,
                        now,
                        self.config().resolution,
                        self.max_age(),
                        self.config().decimals,
                        self.decimals(),
                        found,
                    ),
                Err(f) => fails_with(
                    ask,
                    now,
                    self.config().resolution,
                    self.max_age(),
                    self.config().decimals,
                    self.decimals(),
                    f,
                ),
            }
        }
    }

    /// The latest price of `asset` as of `now`, in a feed that `ask` speaks
    /// for.
    ///
    /// The reference currency is worth one unit of itself at `now`, and the
    /// feed is not asked. For any other asset the feed is asked, as
    /// [`get_price`] says; no price is older than the maximum age, and where
    /// no timestamp is young enough there is none.
    pub fn lastprice_at<F: Fn(u64) -> Answer>(&self, asset: &AssetId, now: u64, ask: F) -> (r:
        Result<Option<PriceData>, Failure>)
        requires
            forall|t: u64| call_requires(ask, (t,)),
        ensures
            self.priced(ask, *asset, now, r),
            !asset.is_address(self.usdc()) && candidates(
                now as int,
                self.config().resolution as int,
                self.max_age() as int,
            ).len() == 0 ==> r == Ok::<Option<PriceData>, Failure>(None),
            r matches Ok(Some(p)) ==> fresh(now as int, self.max_age() as int, p.timestamp as int),
            r matches Err(f) ==> f == Failure::UpstreamUnavailable || f == Failure::Overflow,
    {
        if asset.is_stellar(&self.usdc) {
            match power_of_ten(self.decimals) {
                Some(price) => Ok(Some(PriceData { price, timestamp: now })),
                None => Err(Failure::Overflow),
            }
        } else {
            match get_price(self, now, ask) {
                Ok(found) => Ok(found.price),
                Err(f) => Err(f),
            }
        }
    }

    /// The assets the aggregator quotes, given the function that asks the
    /// feed for its own: those of the feed, in the feed's order, and the
    /// reference currency, last, where the feed does not list it. Without an
    /// answer from the feed there is none.
    pub fn assets<L: FnOnce() -> Option<Vec<AssetId>>>(&self, list: L) -> (r: Result<
        Vec<AssetId>,
        Failure,
    >)
        requires
            call_requires(list, ()),
        ensures
            exists|answer: Option<Vec<AssetId>>|
                {
                    &&& #[trigger] call_ensures(list, (), answer)
                    &&& match answer {
                        Some(upstream) => r matches Ok(assets) && assets@ == with_reference(
                            upstream@,
                            self.usdc(),
                        ),
                        None => r matches Err(f) && f == Failure::UpstreamUnavailable,
                    }
                },
            r matches Ok(assets) ==> assets@.contains(AssetId::Stellar(self.usdc())),
    {
        match list() {
            Some(upstream) => {
                proof {
                    lemma_reference_is_quoted(upstream@, self.usdc);
                }
                Ok(with_reference_currency(upstream, &self.usdc))
            },
            None => Err(Failure::UpstreamUnavailable),
        }
    }
}

/// A price of any asset but the reference currency is a sample that the feed
/// has at the price's timestamp, and that timestamp is fresh. Where the
/// aggregator advertises at least the feed's precision, the price is the
/// sample times a power of ten, and nothing is lost; where it advertises
/// less, it is the sample divided by a power of ten, truncated toward zero.
pub proof fn lemma_price_is_a_rescaled_sample<F: Fn(u64) -> Answer>(
    aggregator: OracleAggregator,
    ask: F,
    asset: AssetId,
    now: u64,
    p: PriceData,
)
    requires
        !asset.is_address(aggregator.usdc()),
        aggregator.priced(ask, asset, now, Ok(Some(p))),
    ensures
        fresh(now as int, aggregator.max_age() as int, p.timestamp as int),
        exists|sample: PriceData|
            {
                let from = aggregator.config().decimals;
                let to = aggregator.decimals();
                &&& #[trigger] answers(ask, p.timestamp as int, Answer::Sample(sample))
                &&& to >= from ==> p.price == sample.price * pow10((to - from) as nat)
                &&& to < from ==> p.price == div_toward_zero(
                    sample.price as int,
                    pow10((from - to) as nat),
                )
            },
{
    let found = choose|found: Lookup|
        found.price == Some(p) && #[trigger] finds(
            ask,
            now,
            aggregator.config().resolution,
            aggregator.max_age(),
            aggregator.config().decimals,
            aggregator.decimals(),
            found,
        );
    let sample = choose|sample: PriceData|
        {
            &&& #[trigger] answers(ask, p.timestamp as int, Answer::Sample(sample))
            &&& p.price == normalized(
                sample.price as int,
                aggregator.config().decimals as nat,
                aggregator.decimals() as nat,
            )
        };
    assert(answers(ask, p.timestamp as int, Answer::Sample(sample)));
}

} // verus!
