//! The sparse override store: the world as a finite map from modified
//! positions to their tiles, laid over the generated terrain.
//!
//! The store is kept as a list of entries with pairwise-distinct positions;
//! its model is the finite map those entries spell out. Reading a position
//! that is not in the map yields the generated tile; writing the generated
//! tile back removes the entry, so the store holds only the player-caused
//! difference from the generated world.

use vstd::prelude::*;

use crate::tiles::Tile;
use crate::utils::{pos_view, Pos};

verus! {

/// The map an entry list spells out: later entries win, though under
/// `store_keys_unique` no position appears twice.
pub open spec fn store_map(s: Seq<(Pos, Tile)>) -> Map<(int, int), Tile>
    decreases s.len(),
{
    if s.len() == 0 {
        Map::empty()
    } else {
        store_map(s.drop_last()).insert(pos_view(s.last().0), s.last().1)
    }
}

/// Pairwise-distinct positions in an entry list.
pub open spec fn store_keys_unique(s: Seq<(Pos, Tile)>) -> bool {
    forall|i: int, j: int| 0 <= i < j < s.len() ==> pos_view(s[i].0) != pos_view(s[j].0)
}

/// Reading a store at `p` where the generated tile there is `gen`: the
/// override if one is held, else the generated tile.
pub open spec fn store_read(m: Map<(int, int), Tile>, p: (int, int), gen: Tile) -> Tile {
    if m.dom().contains(p) {
        m[p]
    } else {
        gen
    }
}

/// Writing `t` at `p` where the generated tile there is `gen`: removes the
/// entry where `t` restores the generated tile, else inserts or replaces it.
pub open spec fn store_write(m: Map<(int, int), Tile>, p: (int, int), t: Tile, gen: Tile) -> Map<
    (int, int),
    Tile,
> {
    if t == gen {
        m.remove(p)
    } else {
        m.insert(p, t)
    }
}

/// A store holds only differences from the generated terrain `g`.
pub open spec fn only_deltas(m: Map<(int, int), Tile>, g: spec_fn((int, int)) -> Tile) -> bool {
    forall|p: (int, int)| #[trigger] m.dom().contains(p) ==> m[p] != g(p)
}

/// A position is in the map of an entry list exactly where some entry has it.
pub proof fn lemma_store_map_contains(s: Seq<(Pos, Tile)>, k: (int, int))
    ensures
        store_map(s).dom().contains(k) <==> exists|i: int|
            0 <= i < s.len() && pos_view(s[i].0) == k,
    decreases s.len(),
{
    if s.len() == 0 {
    } else {
        lemma_store_map_contains(s.drop_last(), k);
        if store_map(s).dom().contains(k) {
            if pos_view(s.last().0) == k {
                assert(pos_view(s[s.len() - 1].0) == k);
            } else {
                let i = choose|i: int| 0 <= i < s.drop_last().len() && pos_view(
                    s.drop_last()[i].0,
                ) == k;
                assert(pos_view(s[i].0) == k);
            }
        }
        if exists|i: int| 0 <= i < s.len() && pos_view(s[i].0) == k {
            let i = choose|i: int| 0 <= i < s.len() && pos_view(s[i].0) == k;
            if i < s.len() - 1 {
                assert(pos_view(s.drop_last()[i].0) == k);
            }
        }
    }
}

/// The map of an entry list with pairwise-distinct positions reads back each
/// entry's tile.
pub proof fn lemma_store_map_get(s: Seq<(Pos, Tile)>, i: int)
    requires
        store_keys_unique(s),
        0 <= i < s.len(),
    ensures
        store_map(s).dom().contains(pos_view(s[i].0)),
        store_map(s)[pos_view(s[i].0)] == s[i].1,
    decreases s.len(),
{
    if i == s.len() - 1 {
    } else {
        assert(store_keys_unique(s.drop_last()));
        lemma_store_map_get(s.drop_last(), i);
        assert(s.drop_last()[i] == s[i]);
    }
}

/// Replacing the entry at `i` by one with the same position updates the map
/// at that position.
pub proof fn lemma_store_map_update(s: Seq<(Pos, Tile)>, i: int, e: (Pos, Tile))
    requires
        store_keys_unique(s),
        0 <= i < s.len(),
        pos_view(e.0) == pos_view(s[i].0),
    ensures
        store_map(s.update(i, e)) =~= store_map(s).insert(pos_view(e.0), e.1),
        store_keys_unique(s.update(i, e)),
    decreases s.len(),
{
    let k = pos_view(e.0);
    if i == s.len() - 1 {
        assert(s.update(i, e).drop_last() =~= s.drop_last());
        assert(s.update(i, e).last() == e);
    } else {
        assert(store_keys_unique(s.drop_last()));
        assert(s.drop_last()[i] == s[i]);
        lemma_store_map_update(s.drop_last(), i, e);
        assert(s.update(i, e).drop_last() =~= s.drop_last().update(i, e));
        assert(s.update(i, e).last() == s.last());
        assert(pos_view(s.last().0) != k);
    }
}

/// Removing the entry at `i` removes its position from the map.
pub proof fn lemma_store_map_remove(s: Seq<(Pos, Tile)>, i: int)
    requires
        store_keys_unique(s),
        0 <= i < s.len(),
    ensures
        store_map(s.remove(i)) =~= store_map(s).remove(pos_view(s[i].0)),
        store_keys_unique(s.remove(i)),
    decreases s.len(),
{
    let k = pos_view(s[i].0);
    assert forall|a: int, b: int| 0 <= a < b < s.remove(i).len() implies pos_view(
        s.remove(i)[a].0,
    ) != pos_view(s.remove(i)[b].0) by {
        if b < i {
        } else if a < i {
            assert(s.remove(i)[b] == s[b + 1]);
        } else {
            assert(s.remove(i)[a] == s[a + 1]);
            assert(s.remove(i)[b] == s[b + 1]);
        }
    }
    if i == s.len() - 1 {
        assert(s.remove(i) =~= s.drop_last());
        lemma_store_map_contains(s.drop_last(), k);
        assert(!store_map(s.drop_last()).dom().contains(k));
    } else {
        assert(store_keys_unique(s.drop_last()));
        assert(s.drop_last()[i] == s[i]);
        lemma_store_map_remove(s.drop_last(), i);
        assert(s.remove(i).drop_last() =~= s.drop_last().remove(i));
        assert(s.remove(i).last() == s.last());
        assert(pos_view(s.last().0) != k);
    }
}

/// Appending an entry for a position the list does not hold inserts it into
/// the map.
pub proof fn lemma_store_map_push(s: Seq<(Pos, Tile)>, e: (Pos, Tile))
    requires
        store_keys_unique(s),
        forall|i: int| 0 <= i < s.len() ==> pos_view(s[i].0) != pos_view(e.0),
    ensures
        store_map(s.push(e)) =~= store_map(s).insert(pos_view(e.0), e.1),
        store_keys_unique(s.push(e)),
{
    assert(s.push(e).drop_last() =~= s);
    assert(s.push(e).last() == e);
    assert forall|a: int, b: int| 0 <= a < b < s.push(e).len() implies pos_view(s.push(e)[a].0)
        != pos_view(s.push(e)[b].0) by {
        if b < s.len() {
            assert(s.push(e)[a] == s[a]);
            assert(s.push(e)[b] == s[b]);
        } else {
            assert(s.push(e)[a] == s[a]);
            assert(s.push(e)[b] == e);
        }
    }
}

/// With pairwise-distinct positions, the map is as large as the entry list,
/// and finite.
pub proof fn lemma_store_map_len(s: Seq<(Pos, Tile)>)
    requires
        store_keys_unique(s),
    ensures
        store_map(s).dom().finite(),
        store_map(s).dom().len() == s.len(),
    decreases s.len(),
{
    if s.len() == 0 {
        assert(store_map(s).dom() =~= Set::<(int, int)>::empty());
    } else {
        assert(store_keys_unique(s.drop_last()));
        lemma_store_map_len(s.drop_last());
        lemma_store_map_contains(s.drop_last(), pos_view(s.last().0));
        assert(!store_map(s.drop_last()).dom().contains(pos_view(s.last().0)));
    }
}

} // verus!
