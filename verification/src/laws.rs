//! The engine's laws, stated and proved over the models: store
//! canonicalization, preservation of the only-differences invariant across
//! whole turns, cyclic navigation, inventory accounting, and quit being
//! terminal.

use vstd::prelude::*;

use crate::input::Input;
use crate::inventory::{
    inv_count, inv_has, inv_idx, inv_insert, inv_next, inv_prev, inv_remove, inv_wf,
    lemma_inv_idx_unique, lemma_inv_insert_has, lemma_inv_remove_has,
};
use crate::items::{spec_to_tile, Item};
use crate::state::{spec_resolve, Look, Menu, StateModel};
use crate::store::{only_deltas, store_read, store_write};
use crate::tiles::{spec_breaks_into, BreakResult, Tile};
use crate::utils::spec_step;

verus! {

/// Store canonicalization: a write reads back as written, and writing the
/// generated tile leaves no entry behind and never grows the store.
pub proof fn lemma_store_canonicalization(
    m: Map<(int, int), Tile>,
    p: (int, int),
    t: Tile,
    gen: Tile,
)
    requires
        m.dom().finite(),
    ensures
        store_read(store_write(m, p, t, gen), p, gen) == t,
        t == gen ==> !store_write(m, p, t, gen).dom().contains(p),
        t == gen ==> store_write(m, p, t, gen).dom().len() <= m.dom().len(),
{
    if t == gen {
        vstd::set::axiom_set_remove_len(m.dom(), p);
        assert(m.remove(p).dom() =~= m.dom().remove(p));
    }
}

/// A store holding only differences from a generator `g` still does after a
/// write whose generated-tile argument agrees with `g` at the written
/// position.
pub proof fn lemma_write_keeps_deltas(
    m: Map<(int, int), Tile>,
    g: spec_fn((int, int)) -> Tile,
    p: (int, int),
    t: Tile,
    gen: Tile,
)
    requires
        only_deltas(m, g),
        gen == g(p),
    ensures
        only_deltas(store_write(m, p, t, gen), g),
{
    let w = store_write(m, p, t, gen);
    assert forall|q: (int, int)| #[trigger] w.dom().contains(q) implies w[q] != g(q) by {
        if t == gen {
            assert(m.dom().contains(q));
        } else if q != p {
            assert(m.dom().contains(q));
        }
    }
}

/// The caller sampled `look` from the generator `g` at the positions the
/// turn may consult.
pub open spec fn look_matches(
    m: StateModel,
    input: Input,
    look: Look,
    g: spec_fn((int, int)) -> Tile,
) -> bool {
    &&& look.facing == g(spec_step(m.player_pos, m.player_dir))
    &&& (input matches Input::Dir(d, _) ==> {
        let target = spec_step(m.player_pos, d);
        &&& look.target == g(target)
        &&& look.target_ahead == g(spec_step(target, d))
        &&& look.target_beside == g(spec_step(target, m.player_dir))
    })
}

/// A whole turn keeps the store a set of pure differences from the generator
/// the caller samples: whatever the input, positions restored to their
/// generated tile leave the store, and every entry that stays differs from
/// it.
pub proof fn lemma_resolve_keeps_deltas(
    m: StateModel,
    input: Input,
    look: Look,
    g: spec_fn((int, int)) -> Tile,
)
    requires
        only_deltas(m.store, g),
        look_matches(m, input, look, g),
    ensures
        spec_resolve(m, input, look) matches Some(m2) ==> only_deltas(m2.store, g),
{
    match input {
        Input::Quit => {},
        Input::Dir(d, _shift) => {
            match m.menu {
                Menu::Inventory => {},
                Menu::Closed => {
                    let target = spec_step(m.player_pos, d);
                    let t = store_read(m.store, target, look.target);
                    if t != Tile::Empty && m.player_dir == d {
                        match spec_breaks_into(t) {
                            BreakResult::Tile(nt) => {
                                lemma_write_keeps_deltas(m.store, g, target, nt, look.target);
                            },
                            BreakResult::Item(_) => {
                                lemma_write_keeps_deltas(
                                    m.store,
                                    g,
                                    target,
                                    Tile::Empty,
                                    look.target,
                                );
                            },
                            BreakResult::CannotBeBroken => {},
                        }
                    }
                },
            }
        },
        Input::Build => {
            let target = spec_step(m.player_pos, m.player_dir);
            let t = store_read(m.store, target, look.facing);
            if t == Tile::Empty {
                match m.selected_item {
                    Some(it) => {
                        match spec_to_tile(it) {
                            Some(bt) => {
                                lemma_write_keeps_deltas(m.store, g, target, bt, look.facing);
                            },
                            None => {},
                        }
                    },
                    None => {},
                }
            }
        },
        Input::OpenInventory => {},
        Input::CloseMenu => {},
    }
}

/// Quit is terminal: the turn resolver returns none on the quit input,
/// whatever the state holds.
pub proof fn lemma_quit_is_terminal(m: StateModel, look: Look)
    ensures
        spec_resolve(m, Input::Quit, look) is None,
{
}

/// Cyclic navigation: the successor of an entry's item is the next entry's,
/// wrapping past the last to the first; the predecessor mirrors it; and the
/// two are inverse to one another.
pub proof fn lemma_cyclic_navigation(inv: Seq<(Item, nat)>, i: int)
    requires
        inv_wf(inv),
        0 <= i < inv.len(),
    ensures
        inv_next(inv, inv[i].0) == inv[if i + 1 == inv.len() {
            0int
        } else {
            i + 1
        }].0,
        inv_prev(inv, inv[i].0) == inv[if i == 0 {
            inv.len() - 1
        } else {
            i - 1
        }].0,
        inv_prev(inv, inv_next(inv, inv[i].0)) == inv[i].0,
        inv_next(inv, inv_prev(inv, inv[i].0)) == inv[i].0,
{
    lemma_inv_idx_unique(inv, i);
    let n = inv.len() as int;
    let nx = if i + 1 == n {
        0int
    } else {
        i + 1
    };
    let pv = if i == 0 {
        n - 1
    } else {
        i - 1
    };
    lemma_inv_idx_unique(inv, nx);
    lemma_inv_idx_unique(inv, pv);
}

/// Inventory accounting: inserting one unit raises exactly the inserted
/// item's count by one; removing one unit of a held item lowers exactly its
/// count by one.
pub proof fn lemma_inventory_accounting(inv: Seq<(Item, nat)>, it: Item, x: Item)
    requires
        inv_wf(inv),
    ensures
        inv_count(inv_insert(inv, it), it) == inv_count(inv, it) + 1,
        x != it ==> inv_count(inv_insert(inv, it), x) == inv_count(inv, x),
        inv_has(inv, it) ==> inv_count(inv_remove(inv, it), it) == inv_count(inv, it) - 1,
        inv_has(inv, it) && x != it ==> inv_count(inv_remove(inv, it), x) == inv_count(inv, x),
{
    lemma_inv_insert_has(inv, it, it);
    lemma_inv_insert_has(inv, it, x);
    let r = inv_insert(inv, it);
    if inv_has(inv, it) {
        let i = inv_idx(inv, it);
        assert(0 <= i < inv.len() && inv[i].0 == it);
        lemma_inv_idx_unique(r, i);
        if x != it && inv_has(inv, x) {
            let j = inv_idx(inv, x);
            assert(0 <= j < inv.len() && inv[j].0 == x);
            assert(r[j] == inv[j]);
            lemma_inv_idx_unique(r, j);
        }
    } else {
        lemma_inv_idx_unique(r, inv.len() as int);
        if x != it && inv_has(inv, x) {
            let j = inv_idx(inv, x);
            assert(0 <= j < inv.len() && inv[j].0 == x);
            assert(r[j] == inv[j]);
            lemma_inv_idx_unique(r, j);
        }
    }
    if inv_has(inv, it) {
        lemma_inv_remove_has(inv, it, it);
        lemma_inv_remove_has(inv, it, x);
        let i = inv_idx(inv, it);
        assert(0 <= i < inv.len() && inv[i].0 == it);
        let s = inv_remove(inv, it);
        if inv[i].1 == 1 {
            assert(inv_count(inv, it) == 1);
            if x != it && inv_has(inv, x) {
                let j = inv_idx(inv, x);
                assert(0 <= j < inv.len() && inv[j].0 == x);
                if j < i {
                    assert(s[j] == inv[j]);
                    lemma_inv_idx_unique(s, j);
                } else {
                    assert(j != i);
                    assert(s[j - 1] == inv[j]);
                    lemma_inv_idx_unique(s, j - 1);
                }
            }
        } else {
            lemma_inv_idx_unique(s, i);
            if x != it && inv_has(inv, x) {
                let j = inv_idx(inv, x);
                assert(0 <= j < inv.len() && inv[j].0 == x);
                assert(s[j] == inv[j]);
                lemma_inv_idx_unique(s, j);
            }
        }
    }
}

} // verus!
