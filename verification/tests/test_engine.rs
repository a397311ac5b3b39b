use oracle_aggregator::candidates::Candidates;
use oracle_aggregator::contract::{OracleAggregator, MAX_MAX_AGE, MIN_MAX_AGE};
use oracle_aggregator::decimal::{checked_normalize, normalize, power_of_ten, MAX_EXPONENT};
use oracle_aggregator::errors::{Failure, OracleAggregatorErrors};
use oracle_aggregator::price_data::{get_price, priced_at, Lookup};
use oracle_aggregator::types::{
    AddressKey, AddressKind, Answer, AssetId, OracleConfig, PriceData,
};
use oracle_aggregator::universe::{lists_reference, with_reference_currency};
use soroban_sdk::testutils::EnvTestConfig;
use soroban_sdk::{Env, Symbol};
use std::cell::{Cell, RefCell};

fn contract(byte: u8) -> AddressKey {
    AddressKey { kind: AddressKind::Contract, key: [byte; 32] }
}

fn account(byte: u8) -> AddressKey {
    AddressKey { kind: AddressKind::Account, key: [byte; 32] }
}

fn symbol(name: &str) -> AssetId {
    let e = Env::new_with_config(EnvTestConfig { capture_snapshot_at_drop: false });
    AssetId::Other(Symbol::new(&e, name))
}

fn config(base: AssetId, resolution: u32) -> OracleConfig {
    OracleConfig { oracle_id: contract(9), decimals: 9, resolution, base }
}

/// All the candidates of a lookup, in the order in which they are handed out.
fn all_candidates(now: u64, resolution: u32, max_age: u64) -> Vec<u64> {
    let mut candidates = Candidates::new(now, resolution, max_age);
    let mut all = Vec::new();
    while let Some(t) = candidates.next() {
        all.push(t);
    }
    // once exhausted, it stays so
    assert_eq!(candidates.next(), None);
    all
}

fn stellar_keys(assets: &[AssetId]) -> Vec<Option<AddressKey>> {
    assets
        .iter()
        .map(|a| match a {
            AssetId::Stellar(k) => Some(*k),
            AssetId::Other(_) => None,
        })
        .collect()
}

#[test]
fn test_normalize_scales_up_exactly() {
    assert_eq!(normalize(5, 7, 9), 500);
    assert_eq!(normalize(-5, 7, 9), -500);
    assert_eq!(normalize(1, 0, 18), 1_000_000_000_000_000_000);
    assert_eq!(normalize(0, 2, 30), 0);
    assert_eq!(normalize(1_0000000, 7, 9), 1_000000000);
}

#[test]
fn test_normalize_scales_down_toward_zero() {
    assert_eq!(normalize(0_110000000, 9, 7), 0_1100000);
    assert_eq!(normalize(0_120000099, 9, 7), 0_1200000);
    assert_eq!(normalize(119, 2, 0), 1);
    assert_eq!(normalize(-119, 2, 0), -1);
    assert_eq!(normalize(99, 2, 0), 0);
    assert_eq!(normalize(-99, 2, 0), 0);
    assert_eq!(normalize(-100, 2, 0), -1);
}

#[test]
fn test_normalize_same_precision() {
    assert_eq!(normalize(123456789, 7, 7), 123456789);
    assert_eq!(normalize(i128::MIN, 0, 0), i128::MIN);
    assert_eq!(normalize(i128::MAX, 40, 40), i128::MAX);
}

#[test]
fn test_normalize_up_and_down_again() {
    for value in [0i128, 1, -1, 0_110000000, -987654321, i64::MAX as i128] {
        let up = normalize(value, 7, 18);
        assert_eq!(normalize(up, 18, 7), value);
    }
}

#[test]
fn test_checked_normalize_overflow() {
    assert_eq!(checked_normalize(i128::MAX, 0, 1), None);
    assert_eq!(checked_normalize(i128::MIN, 0, 1), None);
    assert_eq!(checked_normalize(1, 0, 39), None);
    assert_eq!(checked_normalize(-1, 0, 39), None);
    assert_eq!(checked_normalize(2, 0, 38), None);
    assert_eq!(
        checked_normalize(1, 0, 38),
        Some(100000000000000000000000000000000000000)
    );
    assert_eq!(
        checked_normalize(-1, 0, 38),
        Some(-100000000000000000000000000000000000000)
    );
    assert_eq!(checked_normalize(0, 0, 39), Some(0));
    assert_eq!(checked_normalize(0, 0, u32::MAX), Some(0));
}

#[test]
fn test_checked_normalize_far_down() {
    assert_eq!(checked_normalize(i128::MAX, 39, 0), Some(0));
    assert_eq!(checked_normalize(i128::MIN, 39, 0), Some(0));
    assert_eq!(checked_normalize(i128::MIN, u32::MAX, 0), Some(0));
    assert_eq!(checked_normalize(i128::MAX, 38, 0), Some(1));
    assert_eq!(checked_normalize(i128::MIN, 38, 0), Some(-1));
    assert_eq!(
        checked_normalize(i128::MIN, 1, 0),
        Some(-17014118346046923173168730371588410572)
    );
}

#[test]
fn test_power_of_ten() {
    assert_eq!(power_of_ten(0), Some(1));
    assert_eq!(power_of_ten(1), Some(10));
    assert_eq!(power_of_ten(7), Some(1_0000000));
    assert_eq!(MAX_EXPONENT, 38);
    assert_eq!(power_of_ten(38), Some(100000000000000000000000000000000000000));
    assert_eq!(power_of_ten(39), None);
    assert_eq!(power_of_ten(u32::MAX), None);
}

#[test]
fn test_priced_at() {
    assert_eq!(
        priced_at(0_110000000, 1441065600, 9, 7),
        Ok(PriceData { price: 0_1100000, timestamp: 1441065600 })
    );
    assert_eq!(priced_at(1, 5, 0, 39), Err(Failure::Overflow));
}

#[test]
fn test_candidates_on_the_grid() {
    let grid = 1441065600;
    assert_eq!(
        all_candidates(grid, 300, 900),
        vec![grid, grid - 300, grid - 600, grid - 900]
    );
}

#[test]
fn test_candidates_between_grid_points() {
    let grid = 1441065600;
    // the sample 900 seconds before the grid point is 905 seconds old
    assert_eq!(all_candidates(grid + 5, 300, 900), vec![grid, grid - 300, grid - 600]);
    assert_eq!(all_candidates(grid + 299, 300, 900), vec![grid, grid - 300, grid - 600]);
    assert_eq!(all_candidates(grid + 50, 300, 900), vec![grid, grid - 300, grid - 600]);
}

#[test]
fn test_candidates_stop_at_zero() {
    assert_eq!(all_candidates(650, 300, 900), vec![600, 300, 0]);
    assert_eq!(all_candidates(100, 300, 900), vec![0]);
    assert_eq!(all_candidates(0, 300, 900), vec![0]);
    assert_eq!(all_candidates(u64::MAX, 1, 2), vec![u64::MAX, u64::MAX - 1, u64::MAX - 2]);
}

#[test]
fn test_candidates_none() {
    // no grid
    assert_eq!(all_candidates(1441065600, 0, 900), Vec::<u64>::new());
    // the last grid point is too old already
    assert_eq!(all_candidates(7000, 5000, 900), Vec::<u64>::new());
    // nothing may have any age
    assert_eq!(all_candidates(7000, 300, 0), Vec::<u64>::new());
    assert_eq!(all_candidates(6900, 300, 0), vec![6900]);
}

#[test]
fn test_candidates_are_few_and_fresh() {
    for (now, resolution, max_age) in [
        (1441065600u64, 300u32, 900u64),
        (1441065605, 300, 900),
        (1441065899, 300, 360),
        (1441065600, 7, 3600),
        (1441065600, 3600, 3600),
        (1441065601, 3601, 3600),
        (1441065600, 1, 360),
        (500, 60, 3600),
    ] {
        let all = all_candidates(now, resolution, max_age);
        let bound = (max_age + resolution as u64 - 1) / resolution as u64 + 1;
        assert!(all.len() as u64 <= bound);
        for (k, t) in all.iter().enumerate() {
            assert!(*t <= now && now - *t <= max_age);
            assert_eq!(*t, now / resolution as u64 * resolution as u64 - k as u64 * resolution as u64);
        }
    }
}

/// An aggregator with seven decimals over a feed with nine, a resolution of
/// 300 seconds and a maximum age of 900.
fn default_aggregator(decimals: u32) -> OracleAggregator {
    let usdc = contract(7);
    OracleAggregator::from_parts(config(AssetId::Stellar(usdc), 300), usdc, decimals, 900).unwrap()
}

/// Looks a price up in a feed that holds `samples` and fails at `broken`, and
/// says at which timestamps the feed was asked.
fn find_in(
    aggregator: &OracleAggregator,
    now: u64,
    samples: &[(u64, i128)],
    broken: &[u64],
) -> (Result<Lookup, Failure>, Vec<u64>) {
    let asked = RefCell::new(Vec::new());
    let found = get_price(aggregator, now, |t| {
        asked.borrow_mut().push(t);
        if broken.contains(&t) {
            return Answer::Failed;
        }
        match samples.iter().find(|(at, _)| *at == t) {
            Some((at, price)) => Answer::Sample(PriceData { price: *price, timestamp: *at }),
            None => Answer::Missing,
        }
    });
    (found, asked.into_inner())
}

#[test]
fn test_get_price_at_the_current_tick() {
    let grid = 1441065600;
    let (found, asked) = find_in(&default_aggregator(7), grid, &[(grid, 0_110000000)], &[]);
    assert_eq!(
        found,
        Ok(Lookup { price: Some(PriceData { price: 0_1100000, timestamp: grid }), queries: 1 })
    );
    assert_eq!(asked, vec![grid]);
}

#[test]
fn test_get_price_walks_back_to_the_first_sample() {
    let grid = 1441065600;
    let samples = [(grid - 600, 0_120000000), (grid - 900, 0_130000000)];
    let (found, asked) = find_in(&default_aggregator(7), grid, &samples, &[]);
    assert_eq!(
        found,
        Ok(Lookup {
            price: Some(PriceData { price: 0_1200000, timestamp: grid - 600 }),
            queries: 3
        })
    );
    assert_eq!(asked, vec![grid, grid - 300, grid - 600]);
}

#[test]
fn test_get_price_skips_what_is_too_old() {
    let grid = 1441065600;
    let samples = [(grid - 900, 0_120000000), (grid - 1200, 0_120000000)];
    let (found, asked) = find_in(&default_aggregator(7), grid + 5, &samples, &[]);
    assert_eq!(found, Ok(Lookup { price: None, queries: 3 }));
    assert_eq!(asked, vec![grid, grid - 300, grid - 600]);

    // on the grid point itself the sample is exactly as old as is allowed
    let (found, asked) = find_in(&default_aggregator(7), grid, &samples, &[]);
    assert_eq!(
        found,
        Ok(Lookup {
            price: Some(PriceData { price: 0_1200000, timestamp: grid - 900 }),
            queries: 4
        })
    );
    assert_eq!(asked, vec![grid, grid - 300, grid - 600, grid - 900]);
}

#[test]
fn test_get_price_ignores_samples_off_the_grid() {
    let grid = 1441065600;
    let samples = [(grid + 1, 5), (grid - 1, 5), (grid - 299, 5), (grid + 300, 5)];
    let (found, asked) = find_in(&default_aggregator(7), grid + 10, &samples, &[]);
    assert_eq!(found, Ok(Lookup { price: None, queries: 3 }));
    assert_eq!(asked, vec![grid, grid - 300, grid - 600]);
}

#[test]
fn test_get_price_stops_at_a_failure() {
    let grid = 1441065600;
    let samples = [(grid - 600, 0_120000000)];
    let (found, asked) = find_in(&default_aggregator(7), grid, &samples, &[grid - 300]);
    assert_eq!(found, Err(Failure::UpstreamUnavailable));
    assert_eq!(asked, vec![grid, grid - 300]);

    // a failure behind the first sample is never met
    let (found, asked) = find_in(&default_aggregator(7), grid, &samples, &[grid - 900]);
    assert_eq!(found.unwrap().queries, 3);
    assert_eq!(asked, vec![grid, grid - 300, grid - 600]);
}

#[test]
fn test_get_price_overflow() {
    let grid = 1441065600;
    let samples = [(grid - 300, 2_000000000)];
    let (found, asked) = find_in(&default_aggregator(47), grid, &samples, &[]);
    assert_eq!(found, Err(Failure::Overflow));
    assert_eq!(asked, vec![grid, grid - 300]);
}

#[test]
fn test_get_price_carries_the_timestamp_asked_for() {
    let grid = 1441065600;
    let found = get_price(&default_aggregator(7), grid + 50, |t| {
        if t == grid - 300 {
            Answer::Sample(PriceData { price: -0_120000009, timestamp: 1 })
        } else {
            Answer::Missing
        }
    });
    assert_eq!(
        found,
        Ok(Lookup {
            price: Some(PriceData { price: -0_1200000, timestamp: grid - 300 }),
            queries: 2
        })
    );
}

#[test]
fn test_get_price_without_candidates_does_not_ask() {
    let usdc = contract(7);
    let daily =
        OracleAggregator::from_parts(config(AssetId::Stellar(usdc), 86400), usdc, 7, 900).unwrap();
    let midnight = 1441065600;
    let found = get_price(&daily, midnight + 901, |_| panic!("the feed was asked"));
    assert_eq!(found, Ok(Lookup { price: None, queries: 0 }));

    let asked = Cell::new(0);
    let found = get_price(&daily, midnight + 900, |_| {
        asked.set(asked.get() + 1);
        Answer::Failed
    });
    assert_eq!(found, Err(Failure::UpstreamUnavailable));
    assert_eq!(asked.get(), 1);
}

#[test]
fn test_lastprice_at_of_the_reference_currency_does_not_ask() {
    let usdc = contract(7);
    let aggregator = default_aggregator(7);
    let price = aggregator
        .lastprice_at(&AssetId::Stellar(usdc), 12345, |_| panic!("the feed was asked"));
    assert_eq!(price, Ok(Some(PriceData { price: 1_0000000, timestamp: 12345 })));

    let price = default_aggregator(38)
        .lastprice_at(&AssetId::Stellar(usdc), 1, |_| panic!("the feed was asked"));
    assert_eq!(
        price,
        Ok(Some(PriceData { price: 100000000000000000000000000000000000000, timestamp: 1 }))
    );
    let price = default_aggregator(39)
        .lastprice_at(&AssetId::Stellar(usdc), 1, |_| panic!("the feed was asked"));
    assert_eq!(price, Err(Failure::Overflow));
}

#[test]
fn test_lastprice_at_of_another_asset() {
    let grid = 1441065600;
    let aggregator = default_aggregator(7);
    let feed = |t: u64| {
        if t == grid - 600 {
            Answer::Sample(PriceData { price: 0_120000000, timestamp: t })
        } else {
            Answer::Missing
        }
    };
    // the same bytes as the reference currency, but of an account
    let asset = AssetId::Stellar(account(7));
    assert_eq!(
        aggregator.lastprice_at(&asset, grid + 50, feed),
        Ok(Some(PriceData { price: 0_1200000, timestamp: grid - 600 }))
    );
    assert_eq!(aggregator.lastprice_at(&asset, grid + 301, feed), Ok(None));
    assert_eq!(
        aggregator.lastprice_at(&symbol("XLM"), grid, |_| Answer::Failed),
        Err(Failure::UpstreamUnavailable)
    );
    // nothing is young enough where the grid is coarser than the maximum age
    let usdc = contract(7);
    let daily =
        OracleAggregator::from_parts(config(AssetId::Stellar(usdc), 86400), usdc, 7, 900).unwrap();
    assert_eq!(daily.lastprice_at(&asset, grid + 901, |_| Answer::Failed), Ok(None));
}

/// Sets an aggregator up over a feed that says `base` and `resolution` of
/// itself, and nine decimals. Says which questions the feed was asked.
fn set_up(
    max_age: u64,
    base: Option<AssetId>,
    resolution: Option<u32>,
    decimals: Option<u32>,
) -> (Result<OracleAggregator, Failure>, Vec<&'static str>) {
    let asked = RefCell::new(Vec::new());
    let made = OracleAggregator::__constructor(
        contract(9),
        contract(7),
        7,
        max_age,
        || {
            asked.borrow_mut().push("base");
            base
        },
        || {
            asked.borrow_mut().push("resolution");
            resolution
        },
        || {
            asked.borrow_mut().push("decimals");
            decimals
        },
    );
    (made, asked.into_inner())
}

#[test]
fn test_constructor() {
    let usdc = contract(7);
    for max_age in [360, 3600] {
        let (made, asked) = set_up(max_age, Some(AssetId::Stellar(usdc)), Some(300), Some(9));
        let aggregator = made.unwrap();
        assert_eq!(asked, vec!["base", "resolution", "decimals"]);
        assert_eq!(aggregator.max_age(), max_age);
        assert_eq!(aggregator.decimals(), 7);
        assert_eq!(aggregator.usdc(), usdc);
        let config = aggregator.config();
        assert_eq!(config.oracle_id, contract(9));
        assert_eq!((config.decimals, config.resolution), (9, 300));
        assert!(config.base.is_stellar(&usdc));
    }
}

#[test]
fn test_constructor_looks_at_the_max_age_first() {
    let usdc = contract(7);
    for max_age in [359, 3601] {
        let (made, asked) = set_up(max_age, Some(AssetId::Stellar(usdc)), Some(300), Some(9));
        assert_eq!(made.err(), Some(Failure::Contract(OracleAggregatorErrors::InvalidMaxAge)));
        assert!(asked.is_empty());
    }
}

#[test]
fn test_constructor_failures() {
    let usdc = contract(7);
    let invalid_base = Some(Failure::Contract(OracleAggregatorErrors::InvalidBaseAsset));

    let (made, asked) = set_up(900, None, Some(300), Some(9));
    assert_eq!(made.err(), Some(Failure::UpstreamUnavailable));
    assert_eq!(asked, vec!["base"]);

    // the feed is asked no more once its base asset is found to be another
    let (made, asked) = set_up(900, Some(AssetId::Stellar(contract(1))), None, None);
    assert_eq!(made.err(), invalid_base);
    assert_eq!(asked, vec!["base"]);
    let (made, asked) = set_up(900, Some(symbol("USDC")), Some(300), Some(9));
    assert_eq!(made.err(), invalid_base);
    assert_eq!(asked, vec!["base"]);

    let (made, asked) = set_up(900, Some(AssetId::Stellar(usdc)), None, Some(9));
    assert_eq!(made.err(), Some(Failure::UpstreamUnavailable));
    assert_eq!(asked, vec!["base", "resolution"]);

    let (made, asked) = set_up(900, Some(AssetId::Stellar(usdc)), Some(300), None);
    assert_eq!(made.err(), Some(Failure::UpstreamUnavailable));
    assert_eq!(asked, vec!["base", "resolution", "decimals"]);

    let (made, asked) = set_up(900, Some(AssetId::Stellar(usdc)), Some(0), Some(9));
    assert_eq!(made.err(), Some(Failure::UpstreamUnavailable));
    assert_eq!(asked, vec!["base", "resolution", "decimals"]);
}

#[test]
fn test_assets_of_a_listed_feed() {
    let usdc = contract(7);
    let aggregator = default_aggregator(7);
    let assets = aggregator
        .assets(|| Some(vec![AssetId::Stellar(contract(1)), symbol("XLM")]))
        .unwrap();
    assert_eq!(
        stellar_keys(&assets),
        vec![Some(contract(1)), None, Some(usdc)]
    );
    let assets = aggregator
        .assets(|| Some(vec![AssetId::Stellar(usdc), AssetId::Stellar(contract(1))]))
        .unwrap();
    assert_eq!(stellar_keys(&assets), vec![Some(usdc), Some(contract(1))]);
    assert_eq!(aggregator.assets(|| None).err(), Some(Failure::UpstreamUnavailable));
}

#[test]
fn test_address_key_same() {
    assert!(contract(1).same(&contract(1)));
    assert!(!contract(1).same(&contract(2)));
    assert!(!contract(1).same(&account(1)));
    let mut other = contract(1);
    other.key[31] = 0;
    assert!(!contract(1).same(&other));
    assert_eq!(contract(1), contract(1));
    assert_ne!(contract(1), other);
    assert_ne!(contract(1), account(1));
}

#[test]
fn test_asset_is_stellar() {
    assert!(AssetId::Stellar(contract(1)).is_stellar(&contract(1)));
    assert!(!AssetId::Stellar(contract(1)).is_stellar(&contract(2)));
    assert!(!symbol("USDC").is_stellar(&contract(1)));
}

#[test]
fn test_with_reference_currency_appends() {
    let usdc = contract(7);
    let upstream = vec![AssetId::Stellar(contract(1)), symbol("XLM"), AssetId::Stellar(account(7))];
    assert!(!lists_reference(&upstream, &usdc));
    let assets = with_reference_currency(upstream, &usdc);
    assert_eq!(
        stellar_keys(&assets).iter().map(|k| k.map(|k| (k.kind, k.key[0]))).collect::<Vec<_>>(),
        vec![
            Some((AddressKind::Contract, 1)),
            None,
            Some((AddressKind::Account, 7)),
            Some((AddressKind::Contract, 7)),
        ]
    );
}

#[test]
fn test_with_reference_currency_keeps() {
    let usdc = contract(7);
    let upstream = vec![AssetId::Stellar(contract(1)), AssetId::Stellar(contract(7)), symbol("XLM")];
    assert!(lists_reference(&upstream, &usdc));
    let assets = with_reference_currency(upstream, &usdc);
    assert_eq!(
        stellar_keys(&assets).iter().map(|k| k.map(|k| k.key[0])).collect::<Vec<_>>(),
        vec![Some(1), Some(7), None]
    );
}

#[test]
fn test_with_reference_currency_empty() {
    let usdc = contract(7);
    assert!(!lists_reference(&Vec::new(), &usdc));
    let assets = with_reference_currency(Vec::new(), &usdc);
    assert_eq!(assets.len(), 1);
    assert!(assets[0].is_stellar(&usdc));
}

#[test]
fn test_reference_currency_is_quoted_once() {
    let usdc = contract(7);
    for upstream in [
        vec![],
        vec![AssetId::Stellar(contract(1))],
        vec![AssetId::Stellar(contract(7))],
        vec![symbol("USDC"), AssetId::Stellar(contract(7)), AssetId::Stellar(contract(2))],
    ] {
        let assets = with_reference_currency(upstream, &usdc);
        assert_eq!(assets.iter().filter(|a| a.is_stellar(&usdc)).count(), 1);
    }
}

#[test]
fn test_from_parts() {
    let usdc = contract(7);
    assert_eq!((MIN_MAX_AGE, MAX_MAX_AGE), (360, 3600));
    for max_age in [360, 900, 3600] {
        let aggregator =
            OracleAggregator::from_parts(config(AssetId::Stellar(usdc), 300), usdc, 7, max_age)
                .unwrap();
        assert_eq!(aggregator.max_age(), max_age);
        assert_eq!(aggregator.decimals(), 7);
        assert_eq!(aggregator.usdc(), usdc);
        assert!(aggregator.base().is_stellar(&usdc));
        let config = aggregator.config();
        assert_eq!(config.oracle_id, contract(9));
        assert_eq!((config.decimals, config.resolution), (9, 300));
        assert!(config.base.is_stellar(&usdc));
    }
}

#[test]
fn test_from_parts_invalid_max_age() {
    let usdc = contract(7);
    for max_age in [0, 359, 3601, u64::MAX] {
        let failure =
            OracleAggregator::from_parts(config(AssetId::Stellar(usdc), 300), usdc, 7, max_age)
                .err();
        assert_eq!(failure, Some(Failure::Contract(OracleAggregatorErrors::InvalidMaxAge)));
    }
    // the maximum age is looked at first
    let failure =
        OracleAggregator::from_parts(config(AssetId::Stellar(contract(1)), 0), usdc, 7, 359).err();
    assert_eq!(failure, Some(Failure::Contract(OracleAggregatorErrors::InvalidMaxAge)));
}

#[test]
fn test_from_parts_invalid_base_asset() {
    let usdc = contract(7);
    for base in [AssetId::Stellar(contract(1)), AssetId::Stellar(account(7)), symbol("USDC")] {
        let failure = OracleAggregator::from_parts(config(base, 0), usdc, 7, 900).err();
        assert_eq!(failure, Some(Failure::Contract(OracleAggregatorErrors::InvalidBaseAsset)));
    }
}

#[test]
fn test_from_parts_without_resolution() {
    let usdc = contract(7);
    let failure =
        OracleAggregator::from_parts(config(AssetId::Stellar(usdc), 0), usdc, 7, 900).err();
    assert_eq!(failure, Some(Failure::UpstreamUnavailable));
}

#[test]
fn test_error_codes() {
    assert_eq!(OracleAggregatorErrors::NotImplemented.code(), 100);
    assert_eq!(OracleAggregatorErrors::InvalidAssetOracle.code(), 101);
    assert_eq!(OracleAggregatorErrors::InvalidMaxAge.code(), 102);
    assert_eq!(OracleAggregatorErrors::InvalidBaseAsset.code(), 103);
}
