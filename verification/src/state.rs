//! The full state of the game and the turn-resolution state machine.
//!
//! Terrain outside the override store is generated, and the engine cannot
//! sample the noise itself: every operation that may consult generated
//! terrain takes the caller-sampled tiles as arguments. The contracts are
//! parametric in those tiles, and the laws show that a caller who samples one
//! fixed generator keeps the store a set of pure differences from it.

use vstd::prelude::*;

use crate::input::{Input, IsShift};
use crate::inventory::{
    inv_first, inv_has, inv_insert, inv_next, inv_prev, inv_remove, inv_wf, inv_count,
    lemma_inv_insert_has, lemma_inv_nav_has, lemma_inv_remove_has, Inventory,
};
use crate::items::{spec_to_tile, Item};
use crate::store::{
    lemma_store_map_get, lemma_store_map_contains, lemma_store_map_len, lemma_store_map_remove,
    lemma_store_map_push, lemma_store_map_update, store_keys_unique, store_map, store_read,
    store_write,
};
use crate::tiles::{spec_breaks_into, BreakResult, Tile};
use crate::utils::{pos_add, pos_view, spec_step, step_in_range, Dir, Pos};

verus! {

/// Which modal overlay, if any, intercepts directional input.
#[derive(Clone, Copy, Debug, PartialEq, Eq, Hash, Structural)]
pub enum Menu {
    Closed,
    Inventory,
}

/// The generated tiles one turn may consult, sampled by the caller at the
/// positions named relative to the player and a directional input `d`.
/// For inputs other than `Dir`, only `facing` is read.
#[derive(Clone, Copy, Debug, PartialEq, Eq, Structural)]
pub struct Look {
    /// At the player's position one step toward the current facing.
    pub facing: Tile,
    /// At the player's position one step toward `d`.
    pub target: Tile,
    /// At the player's position two steps toward `d`.
    pub target_ahead: Tile,
    /// At the player's position one step toward `d`, then one toward the
    /// current facing.
    pub target_beside: Tile,
}

/// The mathematical model of a game state.
#[verifier::ext_equal]
pub struct StateModel {
    /// The override store: a finite map from modified positions to tiles.
    pub store: Map<(int, int), Tile>,
    pub player_pos: (int, int),
    pub player_dir: Dir,
    /// The transient status message, cleared at the start of every turn.
    pub message: Seq<char>,
    /// The inventory entries in iteration order.
    pub inventory: Seq<(Item, nat)>,
    pub menu: Menu,
    /// The selection cursor into the inventory, meaningful while the
    /// inventory menu is open.
    pub selected_item: Option<Item>,
}

/// Well-formedness of a state model: the inventory is well-formed and any
/// selected item is held.
pub open spec fn model_wf(m: StateModel) -> bool {
    &&& inv_wf(m.inventory)
    &&& (m.selected_item matches Some(it) ==> inv_has(m.inventory, it))
}

/// The state a fresh game starts in: the player at the origin facing down,
/// with nothing modified, nothing held, and no menu open.
pub open spec fn initial_model() -> StateModel {
    StateModel {
        store: Map::empty(),
        player_pos: (0, 0),
        player_dir: Dir::Down,
        message: Seq::empty(),
        inventory: Seq::empty(),
        menu: Menu::Closed,
        selected_item: None,
    }
}

/// The message shown when building against an occupied tile.
pub open spec fn msg_build_occupied() -> Seq<char> {
    "You cannot build on existing tiles."@
}

/// The message shown when building with nothing selected.
pub open spec fn msg_no_item_selected() -> Seq<char> {
    "You have no item selected to build."@
}

/// The message shown when the selected item is not placeable.
pub open spec fn msg_cannot_build(it: Item) -> Seq<char> {
    match it {
        Item::Wall => "You cannot build a wall."@,
        Item::Wood => "You cannot build a wood."@,
    }
}

/// The informational message naming the tile in front of the player.
pub open spec fn msg_facing(t: Tile) -> Seq<char> {
    match t {
        Tile::Empty => "You are facing a empty"@,
        Tile::WallFull => "You are facing a wall"@,
        Tile::WallHalf => "You are facing a broken wall"@,
        Tile::WallLow => "You are facing a very broken wall"@,
        Tile::Wood(_) => "You are facing a wood"@,
    }
}

/// A directional input while no menu is open: reorient, move, or dig.
///
/// An unshifted press turns the player toward `d`; the player moves into an
/// empty target when the press is shifted or the facing was already `d`; a
/// non-empty target is dug only when the facing was already `d`, advancing it
/// one break stage, or collecting the yielded item and emptying the tile.
pub open spec fn spec_dir_no_menu(m: StateModel, d: Dir, shift: IsShift, look: Look) -> StateModel {
    let dir_same = m.player_dir == d;
    let new_dir = if shift == IsShift::No {
        d
    } else {
        m.player_dir
    };
    let m1 = StateModel { player_dir: new_dir, ..m };
    let target = spec_step(m.player_pos, d);
    let t = store_read(m.store, target, look.target);
    let try_move = shift == IsShift::Yes || dir_same;
    if t == Tile::Empty {
        if try_move {
            StateModel { player_pos: target, ..m1 }
        } else {
            m1
        }
    } else if dir_same {
        match spec_breaks_into(t) {
            BreakResult::Tile(nt) => StateModel {
                store: store_write(m.store, target, nt, look.target),
                ..m1
            },
            BreakResult::Item(it) => StateModel {
                inventory: inv_insert(m.inventory, it),
                store: store_write(m.store, target, Tile::Empty, look.target),
                ..m1
            },
            BreakResult::CannotBeBroken => m1,
        }
    } else {
        m1
    }
}

/// A directional input while the inventory menu is open: moves the selection
/// cursor cyclically, or puts it on the first entry when nothing is selected.
pub open spec fn spec_dir_inventory(m: StateModel, d: Dir) -> StateModel {
    match m.selected_item {
        Some(it) => {
            let advancing = d == Dir::Right || d == Dir::Down;
            StateModel {
                selected_item: Some(
                    if advancing {
                        inv_next(m.inventory, it)
                    } else {
                        inv_prev(m.inventory, it)
                    },
                ),
                ..m
            }
        },
        None => StateModel { selected_item: inv_first(m.inventory), ..m },
    }
}

/// A directional input, dispatched on the open menu.
pub open spec fn spec_dir_input(m: StateModel, d: Dir, shift: IsShift, look: Look) -> StateModel {
    match m.menu {
        Menu::Closed => spec_dir_no_menu(m, d, shift, look),
        Menu::Inventory => spec_dir_inventory(m, d),
    }
}

/// The build input: places the selected item's tile one step ahead of the
/// player, consuming one unit and dropping the selection when the last unit
/// goes; fails softly, with a message and no other change, where the target
/// is occupied, nothing is selected, or the selection is not placeable.
pub open spec fn spec_build(m: StateModel, look: Look) -> StateModel {
    let target = spec_step(m.player_pos, m.player_dir);
    let t = store_read(m.store, target, look.facing);
    if t != Tile::Empty {
        StateModel { message: msg_build_occupied(), ..m }
    } else {
        match m.selected_item {
            None => StateModel { message: msg_no_item_selected(), ..m },
            Some(it) => match spec_to_tile(it) {
                None => StateModel { message: msg_cannot_build(it), ..m },
                Some(bt) => {
                    let inv2 = inv_remove(m.inventory, it);
                    StateModel {
                        inventory: inv2,
                        selected_item: if inv_has(inv2, it) {
                            Some(it)
                        } else {
                            None
                        },
                        store: store_write(m.store, target, bt, look.facing),
                        ..m
                    }
                },
            },
        }
    }
}

/// The post-turn tick: where the turn produced no message and the tile in
/// front of the player is not empty, sets an informational message naming it.
/// `front_gen` is the generated tile at the position one step ahead.
pub open spec fn spec_tick(m: StateModel, front_gen: Tile) -> StateModel {
    let t = store_read(m.store, spec_step(m.player_pos, m.player_dir), front_gen);
    if m.message.len() == 0 && t != Tile::Empty {
        StateModel { message: msg_facing(t), ..m }
    } else {
        m
    }
}

/// Which of the caller-sampled tiles is the generated tile one step ahead of
/// the player after the turn resolves.
pub open spec fn spec_front_gen(m: StateModel, input: Input, look: Look) -> Tile {
    match input {
        Input::Dir(d, shift) => {
            if m.menu == Menu::Inventory {
                look.facing
            } else {
                let dir_same = m.player_dir == d;
                let t = store_read(m.store, spec_step(m.player_pos, d), look.target);
                let try_move = shift == IsShift::Yes || dir_same;
                if t == Tile::Empty && try_move {
                    if shift == IsShift::No {
                        look.target_ahead
                    } else {
                        look.target_beside
                    }
                } else {
                    if shift == IsShift::No {
                        look.target
                    } else {
                        look.facing
                    }
                }
            }
        },
        _ => look.facing,
    }
}

/// One whole turn: clears the message, dispatches the input, and runs the
/// tick. Returns none exactly on the quit input.
pub open spec fn spec_resolve(m: StateModel, input: Input, look: Look) -> Option<StateModel> {
    let m0 = StateModel { message: Seq::empty(), ..m };
    match input {
        Input::Quit => None,
        Input::Dir(d, shift) => Some(
            spec_tick(spec_dir_input(m0, d, shift, look), spec_front_gen(m0, input, look)),
        ),
        Input::Build => Some(spec_tick(spec_build(m0, look), spec_front_gen(m0, input, look))),
        Input::OpenInventory => Some(
            spec_tick(StateModel { menu: Menu::Inventory, ..m0 }, look.facing),
        ),
        Input::CloseMenu => Some(spec_tick(StateModel { menu: Menu::Closed, ..m0 }, look.facing)),
    }
}

/// Room to add one dug item: where a dig on this turn would yield an item,
/// its count has machine room to grow.
pub open spec fn dig_room(m: StateModel, d: Dir, look: Look) -> bool {
    m.player_dir == d ==> match spec_breaks_into(
        store_read(m.store, spec_step(m.player_pos, d), look.target),
    ) {
        BreakResult::Item(it) => inv_count(m.inventory, it) < usize::MAX,
        _ => true,
    }
}

/// The positions a turn may step over stay within the machine range of the
/// coordinates.
pub open spec fn turn_in_range(m: StateModel, input: Input) -> bool {
    &&& step_in_range(m.player_pos, m.player_dir)
    &&& (input matches Input::Dir(d, _) ==> (m.menu == Menu::Closed ==> {
        let target = spec_step(m.player_pos, d);
        &&& step_in_range(m.player_pos, d)
        &&& step_in_range(target, d)
        &&& step_in_range(target, m.player_dir)
    }))
}

/// Room to hold what a turn may dig.
pub open spec fn insert_room(m: StateModel, input: Input, look: Look) -> bool {
    input matches Input::Dir(d, _) ==> (m.menu == Menu::Closed ==> dig_room(m, d, look))
}

/// The full state of the game at any given moment.
pub struct State {
    /// The override store as a list of entries with pairwise-distinct
    /// positions. Positions absent here carry their generated tile.
    tiles: Vec<(Pos, Tile)>,
    player_pos: Pos,
    player_dir: Dir,
    message: String,
    inventory: Inventory,
    menu: Menu,
    selected_item: Option<Item>,
}

impl View for State {
    type V = StateModel;

    closed spec fn view(&self) -> StateModel {
        StateModel {
            store: store_map(self.tiles@),
            player_pos: pos_view(self.player_pos),
            player_dir: self.player_dir,
            message: self.message@,
            inventory: self.inventory@,
            menu: self.menu,
            selected_item: self.selected_item,
        }
    }
}

impl State {
    /// Well-formedness: the store's entry list holds each position at most
    /// once, and the model is well-formed.
    pub closed spec fn wf(&self) -> bool {
        &&& store_keys_unique(self.tiles@)
        &&& model_wf(self@)
    }

    /// Well-formedness of a state implies well-formedness of its model.
    pub proof fn lemma_wf_model(&self)
        requires
            self.wf(),
        ensures
            model_wf(self@),
    {
    }

    /// A well-formed state's store is a finite map.
    pub proof fn lemma_store_finite(&self)
        requires
            self.wf(),
        ensures
            self@.store.dom().finite(),
    {
        lemma_store_map_len(self.tiles@);
    }

    /// A fresh game state.
    pub fn new() -> (r: State)
        ensures
            r.wf(),
            r@ == initial_model(),
    {
        let r = State {
            tiles: Vec::new(),
            player_pos: (0, 0),
            player_dir: Dir::Down,
            message: String::new(),
            inventory: Inventory::new(),
            menu: Menu::Closed,
            selected_item: None,
        };
        proof {
            assert(store_map(r.tiles@) =~= Map::<(int, int), Tile>::empty());
            assert(r@ =~= initial_model());
        }
        r
    }

    /// The position of the store entry for `pos`, or none where the store
    /// holds no override there.
    fn find_entry(&self, pos: Pos) -> (r: Option<usize>)
        requires
            self.wf(),
        ensures
            match r {
                Some(i) => i < self.tiles@.len() && self@.store.dom().contains(pos_view(pos))
                    && pos_view(self.tiles@[i as int].0) == pos_view(pos) && self@.store[pos_view(
                    pos,
                )] == self.tiles@[i as int].1,
                None => !self@.store.dom().contains(pos_view(pos)),
            },
    {
        let n = self.tiles.len();
        let mut i: usize = 0;
        while i < n
            invariant
                n == self.tiles@.len(),
                i <= n,
                self.wf(),
                forall|j: int| 0 <= j < i ==> pos_view(self.tiles@[j].0) != pos_view(pos),
            decreases n - i,
        {
            let e = self.tiles[i];
            if e.0.0 == pos.0 && e.0.1 == pos.1 {
                proof {
                    lemma_store_map_get(self.tiles@, i as int);
                }
                return Some(i);
            }
            i += 1;
        }
        proof {
            lemma_store_map_contains(self.tiles@, pos_view(pos));
        }
        None
    }

    /// The tile at `pos`, where the generated tile there is `gen`: the stored
    /// override if one is held, else `gen`. Never fails.
    pub fn get_tile(&self, pos: Pos, gen: Tile) -> (t: Tile)
        requires
            self.wf(),
        ensures
            t == store_read(self@.store, pos_view(pos), gen),
    {
        match self.find_entry(pos) {
            Some(i) => self.tiles[i].1,
            None => gen,
        }
    }

    /// Writes `tile` at `pos`, where the generated tile there is `gen`:
    /// removes any override where `tile` restores the generated terrain, else
    /// inserts or replaces the override. Never fails; nothing else changes.
    pub fn set_tile(&mut self, pos: Pos, tile: Tile, gen: Tile)
        requires
            old(self).wf(),
        ensures
            final(self).wf(),
            final(self)@ == (StateModel {
                store: store_write(old(self)@.store, pos_view(pos), tile, gen),
                ..old(self)@
            }),
    {
        let found = self.find_entry(pos);
        if tile == gen {
            match found {
                Some(i) => {
                    proof {
                        lemma_store_map_remove(self.tiles@, i as int);
                    }
                    self.tiles.remove(i);
                    proof {
                        assert(final(self)@ =~= (StateModel {
                            store: store_write(old(self)@.store, pos_view(pos), tile, gen),
                            ..old(self)@
                        }));
                    }
                },
                None => {
                    proof {
                        assert(store_map(self.tiles@).remove(pos_view(pos)) =~= store_map(
                            self.tiles@,
                        ));
                        assert(final(self)@ =~= (StateModel {
                            store: store_write(old(self)@.store, pos_view(pos), tile, gen),
                            ..old(self)@
                        }));
                    }
                },
            }
        } else {
            match found {
                Some(i) => {
                    proof {
                        lemma_store_map_update(self.tiles@, i as int, (pos, tile));
                    }
                    self.tiles[i] = (pos, tile);
                    proof {
                        assert(final(self)@ =~= (StateModel {
                            store: store_write(old(self)@.store, pos_view(pos), tile, gen),
                            ..old(self)@
                        }));
                    }
                },
                None => {
                    proof {
                        lemma_store_map_contains(self.tiles@, pos_view(pos));
                        lemma_store_map_push(self.tiles@, (pos, tile));
                    }
                    self.tiles.push((pos, tile));
                    proof {
                        assert(final(self)@ =~= (StateModel {
                            store: store_write(old(self)@.store, pos_view(pos), tile, gen),
                            ..old(self)@
                        }));
                    }
                },
            }
        }
    }

    /// A directional input while no menu is open. `look.target` is the
    /// generated tile one step toward `d`.
    fn on_dir_input_no_menu(&mut self, d: Dir, shift: IsShift, look: Look)
        requires
            old(self).wf(),
            step_in_range(old(self)@.player_pos, d),
            dig_room(old(self)@, d, look),
        ensures
            final(self).wf(),
            final(self)@ == spec_dir_no_menu(old(self)@, d, shift, look),
    {
        let dir_same = self.player_dir == d;
        if shift == IsShift::No {
            self.player_dir = d;
        }
        let new_pos = pos_add(self.player_pos, d);
        let try_move = match shift {
            IsShift::Yes => true,
            IsShift::No => dir_same,
        };
        let can_dig = dir_same;
        let tile = self.get_tile(new_pos, look.target);
        if tile == Tile::Empty {
            if try_move {
                self.player_pos = new_pos;
            }
            proof {
                assert(self@ =~= spec_dir_no_menu(old(self)@, d, shift, look));
            }
        } else if can_dig {
            match tile.breaks_into() {
                BreakResult::Tile(next_tile) => {
                    self.set_tile(new_pos, next_tile, look.target);
                    proof {
                        assert(self@ =~= spec_dir_no_menu(old(self)@, d, shift, look));
                    }
                },
                BreakResult::Item(item) => {
                    proof {
                        lemma_inv_insert_has(self@.inventory, item, item);
                        match self.selected_item {
                            Some(sel) => lemma_inv_insert_has(self@.inventory, item, sel),
                            None => (),
                        }
                    }
                    self.inventory.insert(item);
                    self.set_tile(new_pos, Tile::Empty, look.target);
                    proof {
                        assert(self@ =~= spec_dir_no_menu(old(self)@, d, shift, look));
                    }
                },
                BreakResult::CannotBeBroken => {
                    proof {
                        assert(self@ =~= spec_dir_no_menu(old(self)@, d, shift, look));
                    }
                },
            }
        } else {
            proof {
                assert(self@ =~= spec_dir_no_menu(old(self)@, d, shift, look));
            }
        }
    }

    /// A directional input while the inventory menu is open: moves the
    /// selection cursor; the world and the player are untouched.
    fn on_dir_input_inventory(&mut self, d: Dir, _shift: IsShift)
        requires
            old(self).wf(),
        ensures
            final(self).wf(),
            final(self)@ == spec_dir_inventory(old(self)@, d),
    {
        let advancing = d == Dir::Right || d == Dir::Down;
        match self.selected_item {
            Some(it) => {
                proof {
                    lemma_inv_nav_has(self@.inventory, it);
                }
                let new_sel = if advancing {
                    self.inventory.next(&it)
                } else {
                    self.inventory.prev(&it)
                };
                self.selected_item = Some(new_sel);
            },
            None => {
                proof {
                    let inv = old(self)@.inventory;
                    if inv.len() > 0 {
                        assert(inv_has(inv, inv[0].0));
                    }
                }
                self.selected_item = self.inventory.first();
            },
        }
        proof {
            assert(self@ =~= spec_dir_inventory(old(self)@, d));
        }
    }

    /// A directional input, dispatched on the open menu.
    fn on_dir_input(&mut self, d: Dir, shift: IsShift, look: Look)
        requires
            old(self).wf(),
            old(self)@.menu == Menu::Closed ==> step_in_range(old(self)@.player_pos, d)
                && dig_room(old(self)@, d, look),
        ensures
            final(self).wf(),
            final(self)@ == spec_dir_input(old(self)@, d, shift, look),
    {
        match self.menu {
            Menu::Closed => self.on_dir_input_no_menu(d, shift, look),
            Menu::Inventory => self.on_dir_input_inventory(d, shift),
        }
    }

    /// The build input. `look.facing` is the generated tile one step toward
    /// the current facing.
    fn on_build(&mut self, look: Look)
        requires
            old(self).wf(),
            step_in_range(old(self)@.player_pos, old(self)@.player_dir),
        ensures
            final(self).wf(),
            final(self)@ == spec_build(old(self)@, look),
    {
        let build_pos = pos_add(self.player_pos, self.player_dir);
        let t = self.get_tile(build_pos, look.facing);
        if t != Tile::Empty {
            self.message = "You cannot build on existing tiles.".to_owned();
            proof {
                assert(self@ =~= spec_build(old(self)@, look));
            }
            return;
        }
        let selected = match self.selected_item {
            Some(it) => it,
            None => {
                self.message = "You have no item selected to build.".to_owned();
                proof {
                    assert(self@ =~= spec_build(old(self)@, look));
                }
                return;
            },
        };
        let built_tile = match selected.to_tile() {
            Some(bt) => bt,
            None => {
                self.message = cannot_build_message(selected);
                proof {
                    assert(self@ =~= spec_build(old(self)@, look));
                }
                return;
            },
        };
        proof {
            lemma_inv_remove_has(old(self)@.inventory, selected, selected);
        }
        let removed = self.inventory.remove(&selected);
        proof {
            assert(removed is Ok);
        }
        if self.inventory.count_of(&selected) == 0 {
            self.selected_item = None;
        }
        self.set_tile(build_pos, built_tile, look.facing);
        proof {
            assert(self@ =~= spec_build(old(self)@, look));
        }
    }

    /// The post-turn tick: names the tile in front of the player where the
    /// turn left no message. `front_gen` is the generated tile one step ahead
    /// of the (post-turn) player.
    fn tick(&mut self, front_gen: Tile)
        requires
            old(self).wf(),
            step_in_range(old(self)@.player_pos, old(self)@.player_dir),
        ensures
            final(self).wf(),
            final(self)@ == spec_tick(old(self)@, front_gen),
    {
        let front = pos_add(self.player_pos, self.player_dir);
        let t = self.get_tile(front, front_gen);
        if self.message.as_str().is_empty() && t != Tile::Empty {
            self.message = facing_message(t);
        }
        proof {
            assert(self@ =~= spec_tick(old(self)@, front_gen));
        }
    }

    /// Resolves one turn: clears the message, applies `input`, and runs the
    /// tick. Returns the next state, or none exactly on the quit input.
    ///
    /// `look` holds the generated tiles at the positions this turn may
    /// consult, sampled by the caller; the result is stated over exactly
    /// those tiles.
    pub fn on_input(self, input: Input, look: Look) -> (r: Option<State>)
        requires
            self.wf(),
            turn_in_range(self@, input),
            insert_room(self@, input, look),
        ensures
            match r {
                Some(s) => s.wf() && spec_resolve(self@, input, look) == Some(s@),
                None => input == Input::Quit,
            },
            r is None <==> input == Input::Quit,
    {
        let mut s = self;
        s.message = String::new();
        let ghost m0 = StateModel { message: Seq::<char>::empty(), ..self@ };
        proof {
            assert(s@ =~= m0);
        }
        let front_gen: Tile = match input {
            Input::Dir(d, shift) => {
                match s.menu {
                    Menu::Inventory => look.facing,
                    Menu::Closed => {
                        let dir_same = s.player_dir == d;
                        let target = pos_add(s.player_pos, d);
                        let t = s.get_tile(target, look.target);
                        let try_move = match shift {
                            IsShift::Yes => true,
                            IsShift::No => dir_same,
                        };
                        if t == Tile::Empty && try_move {
                            if shift == IsShift::No {
                                look.target_ahead
                            } else {
                                look.target_beside
                            }
                        } else {
                            if shift == IsShift::No {
                                look.target
                            } else {
                                look.facing
                            }
                        }
                    },
                }
            },
            _ => look.facing,
        };
        proof {
            assert(front_gen == spec_front_gen(m0, input, look));
        }
        match input {
            Input::Quit => {
                return None;
            },
            Input::Dir(d, shift) => {
                s.on_dir_input(d, shift, look);
            },
            Input::Build => {
                s.on_build(look);
            },
            Input::OpenInventory => {
                s.menu = Menu::Inventory;
            },
            Input::CloseMenu => {
                s.menu = Menu::Closed;
            },
        }
        proof {
            assert(step_in_range(s@.player_pos, s@.player_dir));
        }
        s.tick(front_gen);
        proof {
            assert(spec_resolve(self@, input, look) == Some(s@));
        }
        Some(s)
    }

    /// Rebuilds a state from persisted parts: the given player position,
    /// facing and inventory, an empty override store, no menu open and no
    /// selection. Overrides are then replayed through `set_tile`.
    pub fn from_parts(player_pos: Pos, player_dir: Dir, inventory: Inventory) -> (r: State)
        requires
            inventory.wf(),
        ensures
            r.wf(),
            r@ == (StateModel {
                store: Map::empty(),
                player_pos: pos_view(player_pos),
                player_dir: player_dir,
                message: Seq::empty(),
                inventory: inventory@,
                menu: Menu::Closed,
                selected_item: None,
            }),
    {
        let r = State {
            tiles: Vec::new(),
            player_pos: player_pos,
            player_dir: player_dir,
            message: String::new(),
            inventory: inventory,
            menu: Menu::Closed,
            selected_item: None,
        };
        proof {
            assert(store_map(r.tiles@) =~= Map::<(int, int), Tile>::empty());
            assert(r@ =~= (StateModel {
                store: Map::empty(),
                player_pos: pos_view(player_pos),
                player_dir: player_dir,
                message: Seq::empty(),
                inventory: r.inventory@,
                menu: Menu::Closed,
                selected_item: None,
            }));
        }
        r
    }

    /// The player's position.
    pub fn player_pos(&self) -> (p: Pos)
        ensures
            pos_view(p) == self@.player_pos,
    {
        self.player_pos
    }

    /// The player's facing.
    pub fn player_dir(&self) -> (d: Dir)
        ensures
            d == self@.player_dir,
    {
        self.player_dir
    }

    /// The open menu, if any.
    pub fn menu(&self) -> (m: Menu)
        ensures
            m == self@.menu,
    {
        self.menu
    }

    /// The selection cursor into the inventory.
    pub fn selected_item(&self) -> (r: Option<Item>)
        ensures
            r == self@.selected_item,
    {
        self.selected_item
    }

    /// The transient status message of the last turn.
    pub fn message(&self) -> (r: &String)
        ensures
            r@ == self@.message,
    {
        &self.message
    }

    /// The inventory.
    pub fn inventory(&self) -> (r: &Inventory)
        ensures
            r@ == self@.inventory,
            self.wf() ==> r.wf(),
    {
        &self.inventory
    }

    /// The override entries, for persistence: the positions whose tile
    /// differs from generated terrain, with those tiles.
    pub fn entries(&self) -> (r: &Vec<(Pos, Tile)>)
        ensures
            store_map(r@) == self@.store,
            self.wf() ==> store_keys_unique(r@),
    {
        &self.tiles
    }
}

/// The rendered message naming the tile in front of the player.
fn facing_message(t: Tile) -> (r: String)
    ensures
        r@ == msg_facing(t),
{
    match t {
        Tile::Empty => "You are facing a empty".to_owned(),
        Tile::WallFull => "You are facing a wall".to_owned(),
        Tile::WallHalf => "You are facing a broken wall".to_owned(),
        Tile::WallLow => "You are facing a very broken wall".to_owned(),
        Tile::Wood(_) => "You are facing a wood".to_owned(),
    }
}

/// The rendered message for building an item that is not placeable.
fn cannot_build_message(it: Item) -> (r: String)
    ensures
        r@ == msg_cannot_build(it),
{
    match it {
        Item::Wall => "You cannot build a wall.".to_owned(),
        Item::Wood => "You cannot build a wood.".to_owned(),
    }
}

} // verus!
