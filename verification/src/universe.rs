//! The assets the aggregator quotes: those of the upstream feed, in the
//! feed's order, and the reference currency.

use vstd::prelude::*;
use crate::types::{AddressKey, AssetId};

verus! {

/// How often `asset` stands in `assets`.
pub open spec fn occurrences(assets: Seq<AssetId>, asset: AssetId) -> nat
    decreases assets.len(),
{
    if assets.len() == 0 {
        0
    } else {
        occurrences(assets.drop_last(), asset) + if assets.last() == asset {
            1nat
        } else {
            0nat
        }
    }
}

/// The feed's assets with the reference currency among them: unchanged where
/// the feed lists it, with it appended where the feed does not.
pub open spec fn with_reference(assets: Seq<AssetId>, reference: AddressKey) -> Seq<AssetId> {
    if assets.contains(AssetId::Stellar(reference)) {
        assets
    } else {
        assets.push(AssetId::Stellar(reference))
    }
}

/// An asset stands in a list exactly when it occurs there at least once.
pub proof fn lemma_occurs_iff_contained(assets: Seq<AssetId>, asset: AssetId)
    ensures
        occurrences(assets, asset) > 0 <==> assets.contains(asset),
    decreases assets.len(),
{
    if assets.len() > 0 {
        let front = assets.drop_last();
        lemma_occurs_iff_contained(front, asset);
        if assets.last() == asset {
            assert(assets[assets.len() - 1] == asset);
        } else if front.contains(asset) {
            let i = choose|i: int| 0 <= i < front.len() && front[i] == asset;
            assert(assets[i] == asset);
        } else if assets.contains(asset) {
            let i = choose|i: int| 0 <= i < assets.len() && assets[i] == asset;
            assert(front[i] == asset);
        }
    }
}

/// Whatever the feed lists, the reference currency is among the assets the
/// aggregator quotes, and the feed's own assets come first, in their order.
pub proof fn lemma_reference_is_quoted(assets: Seq<AssetId>, reference: AddressKey)
    ensures
        with_reference(assets, reference).contains(AssetId::Stellar(reference)),
        with_reference(assets, reference).subrange(0, assets.len() as int) == assets,
{
    let quoted = with_reference(assets, reference);
    if !assets.contains(AssetId::Stellar(reference)) {
        assert(quoted[assets.len() as int] == AssetId::Stellar(reference));
    }
    assert(quoted.subrange(0, assets.len() as int) =~= assets);
}

/// Where the feed lists the reference currency at most once, the aggregator
/// quotes it exactly once.
pub proof fn lemma_reference_is_quoted_once(assets: Seq<AssetId>, reference: AddressKey)
    requires
        occurrences(assets, AssetId::Stellar(reference)) <= 1,
    ensures
        occurrences(with_reference(assets, reference), AssetId::Stellar(reference)) == 1,
{
    let asset = AssetId::Stellar(reference);
    lemma_occurs_iff_contained(assets, asset);
    if !assets.contains(asset) {
        assert(assets.push(asset).drop_last() =~= assets);
    }
}

/// Whether the feed's assets hold the reference currency.
pub fn lists_reference(assets: &Vec<AssetId>, reference: &AddressKey) -> (r: bool)
    ensures
        r == assets@.contains(AssetId::Stellar(*reference)),
{
    let mut i: usize = 0;
    while i < assets.len()
        invariant
            i <= assets.len(),
            forall|j: int| 0 <= j < i ==> assets@[j] != AssetId::Stellar(*reference),
        decreases assets.len() - i,
    {
        if assets[i].is_stellar(reference) {
            return true;
        }
        i += 1;
    }
    false
}

/// The assets the aggregator quotes, given those of the feed: the reference
/// currency is appended unless the feed lists it already.
pub fn with_reference_currency(assets: Vec<AssetId>, reference: &AddressKey) -> (r: Vec<AssetId>)
    ensures
        r@ == with_reference(assets@, *reference),
{
    let mut assets = assets;
    if !lists_reference(&assets, reference) {
        assets.push(AssetId::Stellar(*reference));
    }
    assets
}

} // verus!
