//! Looking a price up in the upstream feed: the walk back along the feed's
//! sampling grid to the most recent sample that is young enough. The feed is
//! handed in as the function that asks it for its sample at one timestamp.

use vstd::prelude::*;
use vstd::arithmetic::div_mod::lemma_div_nonincreasing;
use crate::candidates::{
    candidates, fresh, lemma_candidates_are_few, lemma_candidates_are_fresh, query_bound,
    Candidates,
};
use crate::contract::{OracleAggregator, MAX_MAX_AGE};
use crate::decimal::{checked_normalize, fits_i128, normalized};
use crate::errors::Failure;
use crate::types::{Answer, PriceData};

verus! {

/// How a lookup ended: the price it found, if any, and how many times it
/// asked the feed.
#[derive(Clone, Copy, Debug, PartialEq, Eq)]
pub struct Lookup {
    pub price: Option<PriceData>,
    pub queries: u32,
}

impl Lookup {
    /// What holds of a lookup at `now`, whatever the feed answered.
    ///
    /// The feed was asked at the first `queries` candidates, in their order,
    /// and never more often than the bound allows. A price that was found is
    /// a sample of the feed rescaled from `from` to `to` decimals; it carries
    /// the timestamp of the last candidate asked, and is fresh. Where none
    /// was found, every candidate was asked.
    pub open spec fn settles(
        self,
        now: u64,
        resolution: u32,
        max_age: u64,
        from: u32,
        to: u32,
    ) -> bool {
        let asked = candidates(now as int, resolution as int, max_age as int);
        &&& self.queries <= asked.len()
        &&& self.queries <= query_bound(resolution as int, max_age as int)
        &&& match self.price {
            Some(p) => {
                &&& self.queries >= 1
                &&& p.timestamp == asked[self.queries - 1]
                &&& fresh(now as int, max_age as int, p.timestamp as int)
                &&& exists|raw: i128|
                    p.price == #[trigger] normalized(raw as int, from as nat, to as nat)
            },
            None => self.queries == asked.len(),
        }
    }
}

/// Whether `ask` may have answered `answer` when asked at `timestamp`.
pub open spec fn answers<F: Fn(u64) -> Answer>(ask: F, timestamp: int, answer: Answer) -> bool {
    call_ensures(ask, (timestamp as u64,), answer)
}

/// Whether `ask` may have had no sample at any of the first `n` of `asked`.
pub open spec fn silent<F: Fn(u64) -> Answer>(ask: F, asked: Seq<int>, n: int) -> bool {
    forall|k: int| 0 <= k < n ==> answers(ask, #[trigger] asked[k], Answer::Missing)
}

/// The price that a sample of the feed stands for: its value rescaled from
/// `from` to `to` decimals, at the timestamp it was asked for.
pub fn priced_at(value: i128, timestamp: u64, from: u32, to: u32) -> (r: Result<PriceData, Failure>)
    ensures
        r is Ok <==> fits_i128(normalized(value as int, from as nat, to as nat)),
        r matches Ok(p) ==> p.price == normalized(value as int, from as nat, to as nat)
            && p.timestamp == timestamp,
        r matches Err(f) ==> f == Failure::Overflow,
{
    match checked_normalize(value, from, to) {
        Some(price) => Ok(PriceData { price, timestamp }),
        None => Err(Failure::Overflow),
    }
}

/// Whether `ask` may have led a lookup at `now` to fail with `failure`: it had
/// no sample at the candidates before some candidate, and there it failed, or
/// had a sample that does not fit when rescaled from `from` to `to` decimals.
pub open spec fn fails_with<F: Fn(u64) -> Answer>(
    ask: F,
    now: u64,
    resolution: u32,
    max_age: u64,
    from: u32,
    to: u32,
    failure: Failure,
) -> bool {
    let asked = candidates(now as int, resolution as int, max_age as int);
    exists|k: int|
        {
            &&& 0 <= k < asked.len()
            &&& #[trigger] silent(ask, asked, k)
            &&& match failure {
                Failure::UpstreamUnavailable => answers(ask, asked[k], Answer::Failed),
                Failure::Overflow => exists|sample: PriceData|
                    {
                        &&& #[trigger] answers(ask, asked[k], Answer::Sample(sample))
                        &&& !fits_i128(normalized(sample.price as int, from as nat, to as nat))
                    },
                Failure::Contract(_) => false,
            }
        }
}

/// Whether `ask` may have led a lookup at `now` to find `found`: it had no
/// sample at the candidates before the last one asked, and the price is what
/// it had there, rescaled from `from` to `to` decimals; or it had no sample
/// at any candidate, and there is no price.
pub open spec fn finds<F: Fn(u64) -> Answer>(
    ask: F,
    now: u64,
    resolution: u32,
    max_age: u64,
    from: u32,
    to: u32,
    found: Lookup,
) -> bool {
    let asked = candidates(now as int, resolution as int, max_age as int);
    &&& found.settles(now, resolution, max_age, from, to)
    &&& match found.price {
        Some(p) => {
            &&& silent(ask, asked, found.queries - 1)
            &&& exists|sample: PriceData|
                {
                    &&& #[trigger] answers(ask, p.timestamp as int, Answer::Sample(sample))
                    &&& p.price == normalized(sample.price as int, from as nat, to as nat)
                }
        },
        None => silent(ask, asked, found.queries as int),
    }
}

/// Whether `ask` may have led a lookup at `now` to end as `r`.
pub open spec fn looked_up<F: Fn(u64) -> Answer>(
    ask: F,
    now: u64,
    resolution: u32,
    max_age: u64,
    from: u32,
    to: u32,
    r: Result<Lookup, Failure>,
) -> bool {
    match r {
        Ok(found) => finds(ask, now, resolution, max_age, from, to, found),
        Err(failure) => fails_with(ask, now, resolution, max_age, from, to, failure),
    }
}

/// Whether `ask` has but one answer at each timestamp.
pub open spec fn single_valued<F: Fn(u64) -> Answer>(ask: F) -> bool {
    forall|t: int, a: Answer, b: Answer|
        #[trigger] answers(ask, t, a) && #[trigger] answers(ask, t, b) ==> a == b
}

/// Fetch the latest price as of `now` from a feed that `ask` speaks for.
///
/// The feed is asked at each candidate timestamp in turn, newest first, and
/// the first sample it has is the price: rescaled to the precision that
/// `aggregator` advertises, at the timestamp it was asked for. Nothing is
/// asked after that. Where the feed has no sample at any candidate, there is
/// no price; where there is no candidate, the feed is not asked at all. The
/// lookup fails at the first answer that is a failure, or a sample that does
/// not fit at the advertised precision.
pub fn get_price<F: Fn(u64) -> Answer>(
    aggregator: &OracleAggregator,
    now: u64,
    ask: F,
) -> (r: Result<Lookup, Failure>)
    requires
        forall|t: u64| call_requires(ask, (t,)),
    ensures
        looked_up(
            ask,
            now,
            aggregator.config().resolution,
            aggregator.max_age(),
            aggregator.config().decimals,
            aggregator.decimals(),
            r,
        ),
        candidates(
            now as int,
            aggregator.config().resolution as int,
            aggregator.max_age() as int,
        ).len() == 0 ==> r == Ok::<Lookup, Failure>(Lookup { price: None, queries: 0 }),
        r matches Err(f) ==> f == Failure::UpstreamUnavailable || f == Failure::Overflow,
{
    let config = aggregator.config();
    let decimals = aggregator.decimals();
    let max_age = aggregator.max_age();
    let ghost asked = candidates(now as int, config.resolution as int, max_age as int);
    proof {
        lemma_candidates_are_few(now as int, config.resolution as int, max_age as int);
        lemma_div_nonincreasing(max_age as int, config.resolution as int);
    }
    let mut pending = Candidates::new(now, config.resolution, max_age);
    let mut queries: u32 = 0;
    loop
        invariant
            forall|t: u64| call_requires(ask, (t,)),
            asked == candidates(now as int, config.resolution as int, max_age as int),
            asked.len() <= query_bound(config.resolution as int, max_age as int),
            asked.len() <= MAX_MAX_AGE + 1,
            config.resolution == aggregator.config().resolution,
            config.decimals == aggregator.config().decimals,
            decimals == aggregator.decimals(),
            max_age == aggregator.max_age(),
            queries + pending@.len() == asked.len(),
            pending@ =~= asked.skip(queries as int),
            silent(ask, asked, queries as int),
        decreases pending@.len(),
    {
        let timestamp = match pending.next() {
            Some(t) => t,
            None => {
                return Ok(Lookup { price: None, queries });
            },
        };
        assert(timestamp == asked[queries as int]);
        assert(pending@ =~= asked.skip(queries + 1));
        let answer = ask(timestamp);
        assert(answers(ask, asked[queries as int], answer));
        match answer {
            Answer::Failed => {
                return Err(Failure::UpstreamUnavailable);
            },
            Answer::Missing => {
                queries += 1;
            },
            Answer::Sample(sample) => {
                match priced_at(sample.price, timestamp, config.decimals, decimals) {
                    Ok(price) => {
                        proof {
                            lemma_candidates_are_fresh(
                                now as int,
                                config.resolution as int,
                                max_age as int,
                                queries as int,
                            );
                        }
                        return Ok(Lookup { price: Some(price), queries: queries + 1 });
                    },
                    Err(f) => {
                        return Err(f);
                    },
                }
            },
        }
    }
}

/// How a lookup ends that stopped asking at the candidate `stop`, on the
/// answer `last`.
spec fn ended(
    now: u64,
    resolution: u32,
    max_age: u64,
    from: u32,
    to: u32,
    stop: int,
    last: Answer,
) -> Result<Lookup, Failure> {
    let asked = candidates(now as int, resolution as int, max_age as int);
    if stop >= asked.len() {
        Ok(Lookup { price: None, queries: asked.len() as u32 })
    } else {
        match last {
            Answer::Sample(sample) => {
                let price = normalized(sample.price as int, from as nat, to as nat);
                if fits_i128(price) {
                    Ok(
                        Lookup {
                            price: Some(
                                PriceData { price: price as i128, timestamp: asked[stop] as u64 },
                            ),
                            queries: (stop + 1) as u32,
                        },
                    )
                } else {
                    Err(Failure::Overflow)
                }
            },
            _ => Err(Failure::UpstreamUnavailable),
        }
    }
}

/// Where a lookup stopped asking, and on which answer: at the candidate
/// before which the feed had no sample, and where it had an answer that ends
/// the lookup; or behind the last candidate, where no answer is left.
proof fn lemma_lookup_stops<F: Fn(u64) -> Answer>(
    ask: F,
    now: u64,
    resolution: u32,
    max_age: u64,
    from: u32,
    to: u32,
    r: Result<Lookup, Failure>,
) -> (stop: (int, Answer))
    requires
        looked_up(ask, now, resolution, max_age, from, to, r),
    ensures
        0 <= stop.0 <= candidates(now as int, resolution as int, max_age as int).len(),
        silent(ask, candidates(now as int, resolution as int, max_age as int), stop.0),
        stop.0 < candidates(now as int, resolution as int, max_age as int).len() ==> {
            &&& answers(
                ask,
                candidates(now as int, resolution as int, max_age as int)[stop.0],
                stop.1,
            )
            &&& stop.1 != Answer::Missing
        },
        r == ended(now, resolution, max_age, from, to, stop.0, stop.1),
{
    let asked = candidates(now as int, resolution as int, max_age as int);
    match r {
        Ok(found) => match found.price {
            Some(p) => {
                let sample = choose|sample: PriceData|
                    {
                        &&& #[trigger] answers(ask, p.timestamp as int, Answer::Sample(sample))
                        &&& p.price == normalized(sample.price as int, from as nat, to as nat)
                    };
                (found.queries - 1, Answer::Sample(sample))
            },
            None => (found.queries as int, Answer::Missing),
        },
        Err(failure) => {
            let k = choose|k: int|
                {
                    &&& 0 <= k < asked.len()
                    &&& #[trigger] silent(ask, asked, k)
                    &&& match failure {
                        Failure::UpstreamUnavailable => answers(ask, asked[k], Answer::Failed),
                        Failure::Overflow => exists|sample: PriceData|
                            {
                                &&& #[trigger] answers(ask, asked[k], Answer::Sample(sample))
                                &&& !fits_i128(
                                    normalized(sample.price as int, from as nat, to as nat),
                                )
                            },
                        Failure::Contract(_) => false,
                    }
                };
            match failure {
                Failure::Overflow => {
                    let sample = choose|sample: PriceData|
                        {
                            &&& #[trigger] answers(ask, asked[k], Answer::Sample(sample))
                            &&& !fits_i128(
                                normalized(sample.price as int, from as nat, to as nat),
                            )
                        };
                    (k, Answer::Sample(sample))
                },
                _ => (k, Answer::Failed),
            }
        },
    }
}

/// Of a feed that has but one answer at each timestamp, a lookup can end in
/// one way only: it finds the most recent sample that is fresh, after asking
/// at every candidate before it, or fails at the first answer that is a
/// failure or does not fit.
pub proof fn lemma_lookup_is_determined<F: Fn(u64) -> Answer>(
    ask: F,
    now: u64,
    resolution: u32,
    max_age: u64,
    from: u32,
    to: u32,
    r1: Result<Lookup, Failure>,
    r2: Result<Lookup, Failure>,
)
    requires
        single_valued(ask),
        looked_up(ask, now, resolution, max_age, from, to, r1),
        looked_up(ask, now, resolution, max_age, from, to, r2),
    ensures
        r1 == r2,
{
    let asked = candidates(now as int, resolution as int, max_age as int);
    let (stop1, last1) = lemma_lookup_stops(ask, now, resolution, max_age, from, to, r1);
    let (stop2, last2) = lemma_lookup_stops(ask, now, resolution, max_age, from, to, r2);
    if stop1 < stop2 {
        assert(answers(ask, asked[stop1], Answer::Missing));
    } else if stop2 < stop1 {
        assert(answers(ask, asked[stop2], Answer::Missing));
    } else if stop1 < asked.len() {
        assert(last1 == last2);
    }
}

} // verus!
