//! Choosing, among the pools a chain reports for a token, those whose tokens
//! are known, so that the token's liquidity can be measured.

use vstd::prelude::*;
use crate::token_info::Address;

verus! {

/// A 32-byte pool identifier (for pools that live in a singleton contract).
#[derive(Clone, Copy, Debug)]
pub struct PoolId {
    pub bytes: [u8; 32],
}

impl View for PoolId {
    type V = Seq<u8>;

    open spec fn view(&self) -> Seq<u8> {
        self.bytes@
    }
}

/// A pool as a chain reports it: its address and the addresses of its two tokens.
#[derive(Clone, Copy, Debug)]
pub struct PoolRecord {
    pub addr: Address,
    pub token_a: Address,
    pub token_b: Address,
}

/// A pool chosen for syncing: its index in the report, and the indices of its
/// two tokens in the registry of known tokens.
#[derive(PartialEq, Eq, Structural, Clone, Copy, Debug)]
pub struct PoolPick {
    pub pool: usize,
    pub token_a: usize,
    pub token_b: usize,
}

/// Whether every byte is zero.
pub open spec fn all_zero(s: Seq<u8>) -> bool {
    forall|j: int| 0 <= j < s.len() ==> s[j] == 0
}

/// The addresses of a sequence of addresses, as byte sequences.
pub open spec fn address_views(s: Seq<Address>) -> Seq<Seq<u8>> {
    s.map_values(|a: Address| a@)
}

/// The identifiers of a sequence of pool ids, as byte sequences.
pub open spec fn pool_id_views(s: Seq<PoolId>) -> Seq<Seq<u8>> {
    s.map_values(|p: PoolId| p@)
}

/// The last position of `x` in `s`: a later entry for the same key replaces an
/// earlier one, as in a map filled in order.
pub open spec fn last_index(s: Seq<Seq<u8>>, x: Seq<u8>) -> Option<int>
    decreases s.len(),
{
    if s.len() == 0 {
        None
    } else if s.last() == x {
        Some(s.len() - 1)
    } else {
        last_index(s.drop_last(), x)
    }
}

/// The positions of the base tokens that differ from the token being synced.
pub open spec fn sync_positions(bases: Seq<Seq<u8>>, token: Seq<u8>) -> Seq<usize>
    decreases bases.len(),
{
    if bases.len() == 0 {
        seq![]
    } else {
        let prev = sync_positions(bases.drop_last(), token);
        if bases.last() != token { prev.push((bases.len() - 1) as usize) } else { prev }
    }
}

/// The pools of `pools` with a non-zero address whose two tokens are both in
/// the registry, in report order.
pub open spec fn pool_picks(pools: Seq<PoolRecord>, registry: Seq<Seq<u8>>) -> Seq<PoolPick>
    decreases pools.len(),
{
    if pools.len() == 0 {
        seq![]
    } else {
        let prev = pool_picks(pools.drop_last(), registry);
        let p = pools.last();
        if all_zero(p.addr@) {
            prev
        } else {
            let a = last_index(registry, p.token_a@);
            let b = last_index(registry, p.token_b@);
            if a is Some && b is Some {
                prev.push(PoolPick { pool: (pools.len() - 1) as usize, token_a: a->0 as usize, token_b: b->0 as usize })
            } else {
                prev
            }
        }
    }
}

/// For each non-zero id of `found`, in order, its position among the ids that were asked for.
pub open spec fn v4_picks(found: Seq<Seq<u8>>, asked: Seq<Seq<u8>>) -> Seq<usize>
    decreases found.len(),
{
    if found.len() == 0 {
        seq![]
    } else {
        let prev = v4_picks(found.drop_last(), asked);
        if all_zero(found.last()) {
            prev
        } else {
            match last_index(asked, found.last()) {
                Some(k) => prev.push(k as usize),
                None => prev,
            }
        }
    }
}

/// Every position chosen for syncing is a position of `bases`.
pub proof fn lemma_sync_positions_in_range(bases: Seq<Seq<u8>>, token: Seq<u8>)
    requires
        bases.len() <= usize::MAX,
    ensures
        forall|i: int| 0 <= i < sync_positions(bases, token).len() ==> (#[trigger] sync_positions(bases, token)[i]) < bases.len(),
    decreases bases.len(),
{
    if bases.len() > 0 {
        lemma_sync_positions_in_range(bases.drop_last(), token);
        let prev = sync_positions(bases.drop_last(), token);
        let all = sync_positions(bases, token);
        assert forall|i: int| 0 <= i < all.len() implies #[trigger] all[i] < bases.len() by {
            if i < prev.len() {
                assert(all[i] == prev[i]);
            }
        }
    }
}

pub proof fn lemma_last_index_bounds(s: Seq<Seq<u8>>, x: Seq<u8>)
    ensures
        last_index(s, x) matches Some(k) ==> 0 <= k < s.len() && s[k] == x,
        last_index(s, x) is None ==> !s.contains(x),
    decreases s.len(),
{
    if s.len() > 0 {
        lemma_last_index_bounds(s.drop_last(), x);
        if s.last() != x && last_index(s.drop_last(), x) is None {
            assert forall|i: int| 0 <= i < s.len() implies s[i] != x by {
                if i < s.len() - 1 {
                    assert(s.drop_last()[i] == s[i]);
                }
            }
        }
    }
}

fn same_pool_id(a: &PoolId, b: &PoolId) -> (res: bool)
    ensures
        res == (a@ == b@),
{
    let mut i: usize = 0;
    while i < 32
        invariant
            i <= 32,
            forall|j: int| 0 <= j < i ==> a@[j] == b@[j],
        decreases 32 - i,
    {
        if a.bytes[i] != b.bytes[i] {
            return false;
        }
        i = i + 1;
    }
    assert(a@ =~= b@);
    true
}

impl PoolId {
    /// Whether every byte is zero.
    pub fn is_zero(&self) -> (res: bool)
        ensures
            res == all_zero(self@),
    {
        let mut i: usize = 0;
        while i < 32
            invariant
                i <= 32,
                forall|j: int| 0 <= j < i ==> self@[j] == 0,
            decreases 32 - i,
        {
            if self.bytes[i] != 0 {
                assert(self@[i as int] != 0);
                return false;
            }
            i = i + 1;
        }
        true
    }
}

/// The last position of `addr` in `registry`, if it is there.
pub fn lookup_token(registry: &Vec<Address>, addr: &Address) -> (res: Option<usize>)
    ensures
        match last_index(address_views(registry@), addr@) {
            Some(k) => res == Some(k as usize),
            None => res is None,
        },
{
    let ghost views = address_views(registry@);
    let mut i: usize = registry.len();
    assert(views.take(i as int) =~= views);
    while i > 0
        invariant
            i <= registry@.len(),
            views == address_views(registry@),
            last_index(views, addr@) == last_index(views.take(i as int), addr@),
        decreases i,
    {
        let ghost pre = views.take(i as int);
        assert(pre.drop_last() =~= views.take(i - 1));
        if registry[i - 1].same_as(addr) {
            return Some(i - 1);
        }
        i = i - 1;
    }
    proof {
        assert(views.take(0) =~= Seq::<Seq<u8>>::empty());
    }
    None
}

/// The positions, among `bases`, of the base tokens to sync pools against: all
/// but the token itself.
pub fn sync_targets(bases: &Vec<Address>, token: &Address) -> (res: Vec<usize>)
    ensures
        res@ == sync_positions(address_views(bases@), token@),
        forall|i: int| 0 <= i < res@.len() ==> res@[i] < bases@.len(),
{
    let ghost views = address_views(bases@);
    let mut out: Vec<usize> = Vec::new();
    let mut i: usize = 0;
    while i < bases.len()
        invariant
            i <= bases@.len(),
            views == address_views(bases@),
            out@ == sync_positions(views.take(i as int), token@),
        decreases bases.len() - i,
    {
        assert(views.take(i + 1).drop_last() =~= views.take(i as int));
        if !bases[i].same_as(token) {
            out.push(i);
        }
        i = i + 1;
    }
    assert(views.take(bases@.len() as int) =~= views);
    proof {
        lemma_sync_positions_in_range(views, token@);
    }
    out
}

/// The registry of known tokens: the synced base tokens, in order, then the token itself.
pub fn token_registry(bases: &Vec<Address>, targets: &Vec<usize>, token: &Address) -> (res: Vec<Address>)
    requires
        forall|i: int| 0 <= i < targets@.len() ==> targets@[i] < bases@.len(),
    ensures
        res@.len() == targets@.len() + 1,
        forall|i: int| 0 <= i < targets@.len() ==> res@[i] == bases@[targets@[i] as int],
        res@[targets@.len() as int] == *token,
{
    let mut out: Vec<Address> = Vec::new();
    let mut i: usize = 0;
    while i < targets.len()
        invariant
            i <= targets@.len(),
            forall|j: int| 0 <= j < targets@.len() ==> targets@[j] < bases@.len(),
            out@.len() == i,
            forall|j: int| 0 <= j < i ==> out@[j] == bases@[targets@[j] as int],
        decreases targets.len() - i,
    {
        out.push(bases[targets[i]]);
        i = i + 1;
    }
    out.push(*token);
    out
}

/// The reported pools to sync: those with a non-zero address whose two tokens
/// are both known, with the registry positions of their tokens.
pub fn select_pools(pools: &Vec<PoolRecord>, registry: &Vec<Address>) -> (res: Vec<PoolPick>)
    ensures
        res@ == pool_picks(pools@, address_views(registry@)),
{
    let ghost reg = address_views(registry@);
    let mut out: Vec<PoolPick> = Vec::new();
    let mut i: usize = 0;
    while i < pools.len()
        invariant
            i <= pools@.len(),
            reg == address_views(registry@),
            out@ == pool_picks(pools@.take(i as int), reg),
        decreases pools.len() - i,
    {
        assert(pools@.take(i + 1).drop_last() =~= pools@.take(i as int));
        let p = &pools[i];
        if !p.addr.is_zero() {
            let a = lookup_token(registry, &p.token_a);
            let b = lookup_token(registry, &p.token_b);
            match (a, b) {
                (Some(ka), Some(kb)) => {
                    out.push(PoolPick { pool: i, token_a: ka, token_b: kb });
                },
                _ => {},
            }
        }
        i = i + 1;
    }
    assert(pools@.take(pools@.len() as int) =~= pools@);
    out
}

/// The last position of `id` among `ids`, if it is there.
fn lookup_pool_id(ids: &Vec<PoolId>, id: &PoolId) -> (res: Option<usize>)
    ensures
        match last_index(pool_id_views(ids@), id@) {
            Some(k) => res == Some(k as usize),
            None => res is None,
        },
{
    let ghost views = pool_id_views(ids@);
    let mut i: usize = ids.len();
    assert(views.take(i as int) =~= views);
    while i > 0
        invariant
            i <= ids@.len(),
            views == pool_id_views(ids@),
            last_index(views, id@) == last_index(views.take(i as int), id@),
        decreases i,
    {
        assert(views.take(i as int).drop_last() =~= views.take(i - 1));
        if same_pool_id(&ids[i - 1], id) {
            return Some(i - 1);
        }
        i = i - 1;
    }
    proof {
        assert(views.take(0) =~= Seq::<Seq<u8>>::empty());
    }
    None
}

/// The pools of the singleton contract to sync: for each non-zero id found,
/// in order, the position of the pool that was asked for under that id. Every
/// non-zero id found must be one that was asked for.
pub fn select_v4_pools(found: &Vec<PoolId>, asked: &Vec<PoolId>) -> (res: Vec<usize>)
    requires
        forall|i: int| 0 <= i < found@.len() && !all_zero(found@[i]@) ==> pool_id_views(asked@).contains(#[trigger] found@[i]@),
    ensures
        res@ == v4_picks(pool_id_views(found@), pool_id_views(asked@)),
        forall|i: int| 0 <= i < res@.len() ==> res@[i] < asked@.len(),
        res@.len() == nonzero_count(pool_id_views(found@)),
{
    let ghost fv = pool_id_views(found@);
    let ghost av = pool_id_views(asked@);
    let mut out: Vec<usize> = Vec::new();
    let mut i: usize = 0;
    while i < found.len()
        invariant
            i <= found@.len(),
            fv == pool_id_views(found@),
            av == pool_id_views(asked@),
            out@ == v4_picks(fv.take(i as int), av),
            forall|j: int| 0 <= j < out@.len() ==> out@[j] < asked@.len(),
            forall|j: int| 0 <= j < found@.len() && !all_zero(found@[j]@) ==> pool_id_views(asked@).contains(#[trigger] found@[j]@),
        decreases found.len() - i,
    {
        assert(fv.take(i + 1).drop_last() =~= fv.take(i as int));
        assert(fv.take(i + 1).last() == found@[i as int]@);
        if !found[i].is_zero() {
            match lookup_pool_id(asked, &found[i]) {
                Some(k) => {
                    proof { lemma_last_index_bounds(av, found@[i as int]@); }
                    out.push(k);
                },
                None => {
                    proof {
                        lemma_last_index_bounds(av, found@[i as int]@);
                        assert(false);
                    }
                },
            }
        }
        i = i + 1;
    }
    assert(fv.take(found@.len() as int) =~= fv);
    proof {
        assert forall|j: int| 0 <= j < fv.len() && !all_zero(fv[j]) implies av.contains(#[trigger] fv[j]) by {
            assert(fv[j] == found@[j]@);
        }
        lemma_v4_picks_len(fv, av);
    }
    out
}

/// Every pool chosen has a non-zero address and both its tokens in the
/// registry, at the positions given.
pub proof fn lemma_pool_picks_sound(pools: Seq<PoolRecord>, registry: Seq<Seq<u8>>, i: int)
    requires
        pools.len() <= usize::MAX,
        registry.len() <= usize::MAX,
        0 <= i < pool_picks(pools, registry).len(),
    ensures
        ({
            let pick = pool_picks(pools, registry)[i];
            &&& 0 <= pick.pool < pools.len()
            &&& !all_zero(pools[pick.pool as int].addr@)
            &&& 0 <= pick.token_a < registry.len()
            &&& registry[pick.token_a as int] == pools[pick.pool as int].token_a@
            &&& 0 <= pick.token_b < registry.len()
            &&& registry[pick.token_b as int] == pools[pick.pool as int].token_b@
        }),
    decreases pools.len(),
{
    let prev = pool_picks(pools.drop_last(), registry);
    let p = pools.last();
    lemma_last_index_bounds(registry, p.token_a@);
    lemma_last_index_bounds(registry, p.token_b@);
    if i < prev.len() {
        lemma_pool_picks_sound(pools.drop_last(), registry, i);
        assert(pool_picks(pools, registry)[i] == prev[i]);
        let pick = prev[i];
        assert(pools.drop_last()[pick.pool as int] == pools[pick.pool as int]);
    } else {
        assert(pools[pools.len() - 1] == p);
        assert(!all_zero(p.addr@));
        assert(last_index(registry, p.token_a@) is Some);
        assert(last_index(registry, p.token_b@) is Some);
    }
}

/// A pool with a non-zero address whose two tokens are both in the registry is chosen.
pub proof fn lemma_pool_picks_complete(pools: Seq<PoolRecord>, registry: Seq<Seq<u8>>, k: int)
    requires
        pools.len() <= usize::MAX,
        registry.len() <= usize::MAX,
        0 <= k < pools.len(),
        !all_zero(pools[k].addr@),
        registry.contains(pools[k].token_a@),
        registry.contains(pools[k].token_b@),
    ensures
        exists|i: int| 0 <= i < pool_picks(pools, registry).len() && (#[trigger] pool_picks(pools, registry)[i]).pool == k,
    decreases pools.len(),
{
    if k < pools.len() - 1 {
        assert(pools.drop_last()[k] == pools[k]);
        lemma_pool_picks_complete(pools.drop_last(), registry, k);
        let prev = pool_picks(pools.drop_last(), registry);
        let i = choose|i: int| 0 <= i < prev.len() && (#[trigger] prev[i]).pool == k;
        assert(pool_picks(pools, registry)[i] == prev[i]);
    } else {
        lemma_last_index_bounds(registry, pools[k].token_a@);
        lemma_last_index_bounds(registry, pools[k].token_b@);
        assert(pools.last() == pools[k]);
        assert(last_index(registry, pools[k].token_a@) is Some);
        assert(last_index(registry, pools[k].token_b@) is Some);
        let all = pool_picks(pools, registry);
        assert(all[all.len() - 1].pool == k);
    }
}

/// How many ids of `found` are non-zero.
pub open spec fn nonzero_count(found: Seq<Seq<u8>>) -> nat
    decreases found.len(),
{
    if found.len() == 0 {
        0
    } else {
        nonzero_count(found.drop_last()) + if all_zero(found.last()) { 0nat } else { 1nat }
    }
}

/// Every pool of the singleton contract that is found, under a non-zero id
/// that was asked for, is synced: some chosen position holds that id.
pub proof fn lemma_v4_picks_complete(found: Seq<Seq<u8>>, asked: Seq<Seq<u8>>, j: int)
    requires
        asked.len() <= usize::MAX,
        0 <= j < found.len(),
        !all_zero(found[j]),
        asked.contains(found[j]),
    ensures
        exists|i: int| 0 <= i < v4_picks(found, asked).len() && asked[#[trigger] v4_picks(found, asked)[i] as int] == found[j],
    decreases found.len(),
{
    let prev = v4_picks(found.drop_last(), asked);
    let all = v4_picks(found, asked);
    if j < found.len() - 1 {
        assert(found.drop_last()[j] == found[j]);
        lemma_v4_picks_complete(found.drop_last(), asked, j);
        let i = choose|i: int| 0 <= i < prev.len() && asked[#[trigger] prev[i] as int] == found[j];
        assert(all[i] == prev[i]);
    } else {
        lemma_last_index_bounds(asked, found[j]);
        assert(found.last() == found[j]);
        assert(all[all.len() - 1] == last_index(asked, found[j])->0 as usize);
    }
}

/// Every chosen position is a position of an asked id that was found and is non-zero.
pub proof fn lemma_v4_picks_sound(found: Seq<Seq<u8>>, asked: Seq<Seq<u8>>, i: int)
    requires
        asked.len() <= usize::MAX,
        0 <= i < v4_picks(found, asked).len(),
    ensures
        ({
            let k = v4_picks(found, asked)[i] as int;
            &&& 0 <= k < asked.len()
            &&& !all_zero(asked[k])
            &&& found.contains(asked[k])
        }),
    decreases found.len(),
{
    let prev = v4_picks(found.drop_last(), asked);
    lemma_last_index_bounds(asked, found.last());
    if i < prev.len() {
        lemma_v4_picks_sound(found.drop_last(), asked, i);
        let k = prev[i] as int;
        let j = choose|j: int| 0 <= j < found.drop_last().len() && found.drop_last()[j] == asked[k];
        assert(found[j] == asked[k]);
    } else {
        assert(found[found.len() - 1] == found.last());
    }
}

/// When every non-zero id found was asked for, one position is chosen for each
/// non-zero id found, and none for a zero id.
pub proof fn lemma_v4_picks_len(found: Seq<Seq<u8>>, asked: Seq<Seq<u8>>)
    requires
        forall|j: int| 0 <= j < found.len() && !all_zero(found[j]) ==> asked.contains(#[trigger] found[j]),
    ensures
        v4_picks(found, asked).len() == nonzero_count(found),
    decreases found.len(),
{
    if found.len() > 0 {
        assert forall|j: int| 0 <= j < found.drop_last().len() && !all_zero(found.drop_last()[j]) implies asked.contains(
            #[trigger] found.drop_last()[j],
        ) by {
            assert(found.drop_last()[j] == found[j]);
        }
        lemma_v4_picks_len(found.drop_last(), asked);
        lemma_last_index_bounds(asked, found.last());
        if !all_zero(found.last()) {
            assert(found.last() == found[found.len() - 1]);
            assert(asked.contains(found.last()));
        }
    }
}

/// Which price values a pool's base-token balance in US dollars.
#[derive(PartialEq, Eq, Structural, Clone, Copy, Debug)]
pub enum PriceSource {
    /// The chain's native currency (or its wrapped form): the native price.
    Native,
    /// A stablecoin: one dollar.
    Stable,
    /// Anything else: no value.
    Unpriced,
}

/// The price source for a base token of the given kind.
pub open spec fn price_source_of(is_native: bool, is_native_wrapped: bool, is_stablecoin: bool) -> PriceSource {
    if is_native || is_native_wrapped {
        PriceSource::Native
    } else if is_stablecoin {
        PriceSource::Stable
    } else {
        PriceSource::Unpriced
    }
}

/// Chooses how a pool's base-token balance is valued.
pub fn price_source(is_native: bool, is_native_wrapped: bool, is_stablecoin: bool) -> (res: PriceSource)
    ensures
        res == price_source_of(is_native, is_native_wrapped, is_stablecoin),
        is_native || is_native_wrapped ==> res == PriceSource::Native,
        !is_native && !is_native_wrapped && is_stablecoin ==> res == PriceSource::Stable,
        !is_native && !is_native_wrapped && !is_stablecoin ==> res == PriceSource::Unpriced,
{
    if is_native || is_native_wrapped {
        PriceSource::Native
    } else if is_stablecoin {
        PriceSource::Stable
    } else {
        PriceSource::Unpriced
    }
}

/// A wrapped native base token is valued as the native currency itself, a
/// stablecoin that is neither at one dollar, and any other base token not at all.
pub proof fn lemma_price_source_choice(is_native: bool, is_native_wrapped: bool, is_stablecoin: bool)
    ensures
        is_native ==> price_source_of(is_native, is_native_wrapped, is_stablecoin) == PriceSource::Native,
        is_native_wrapped ==> price_source_of(is_native, is_native_wrapped, is_stablecoin) == PriceSource::Native,
        !is_native && !is_native_wrapped && is_stablecoin ==> price_source_of(is_native, is_native_wrapped, is_stablecoin)
            == PriceSource::Stable,
        !is_native && !is_native_wrapped && !is_stablecoin ==> price_source_of(is_native, is_native_wrapped, is_stablecoin)
            == PriceSource::Unpriced,
        price_source_of(false, true, is_stablecoin) == price_source_of(true, false, is_stablecoin),
{
}

} // verus!
