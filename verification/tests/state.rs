//! Whole-turn scenarios: the override store, digging, movement, the
//! inventory menu, building, and quitting.

use minecraft_2d::utils::pos_add;
use minecraft_2d::{on_letter_pressed, Dir, Input, IsShift, Item, Look, Menu, State, Tile};

fn look_for(st: &State, input: Input, gen: &dyn Fn((i32, i32)) -> Tile) -> Look {
    let p = st.player_pos();
    let facing = gen(pos_add(p, st.player_dir()));
    match input {
        Input::Dir(d, _) => {
            let t = pos_add(p, d);
            Look {
                facing,
                target: gen(t),
                target_ahead: gen(pos_add(t, d)),
                target_beside: gen(pos_add(t, st.player_dir())),
            }
        }
        _ => Look { facing, target: facing, target_ahead: facing, target_beside: facing },
    }
}

fn turn(st: State, input: Input, gen: &dyn Fn((i32, i32)) -> Tile) -> State {
    let look = look_for(&st, input, gen);
    st.on_input(input, look).expect("only Quit ends the game")
}

fn all_empty(_p: (i32, i32)) -> Tile {
    Tile::Empty
}

#[test]
fn new_state_defaults() {
    let st = State::new();
    assert_eq!(st.player_pos(), (0, 0));
    assert_eq!(st.player_dir(), Dir::Down);
    assert_eq!(st.menu(), Menu::Closed);
    assert_eq!(st.selected_item(), None);
    assert_eq!(st.message().as_str(), "");
    assert_eq!(st.entries().len(), 0);
}

#[test]
fn set_then_get_reads_back() {
    let mut st = State::new();
    st.set_tile((5, 7), Tile::WallFull, Tile::Empty);
    assert_eq!(st.get_tile((5, 7), Tile::Empty), Tile::WallFull);
    assert_eq!(st.entries().len(), 1);
    st.set_tile((5, 7), Tile::Wood(2), Tile::Empty);
    assert_eq!(st.get_tile((5, 7), Tile::Empty), Tile::Wood(2));
    assert_eq!(st.entries().len(), 1);
}

#[test]
fn writing_the_generated_tile_removes_the_entry() {
    let mut st = State::new();
    st.set_tile((-3, 4), Tile::WallFull, Tile::Empty);
    assert_eq!(st.entries().len(), 1);
    st.set_tile((-3, 4), Tile::Empty, Tile::Empty);
    assert_eq!(st.entries().len(), 0);
    assert_eq!(st.get_tile((-3, 4), Tile::Empty), Tile::Empty);
    // writing what is already generated stores nothing
    st.set_tile((8, 8), Tile::WallFull, Tile::WallFull);
    assert_eq!(st.entries().len(), 0);
}

#[test]
fn missing_positions_read_the_generated_tile() {
    let st = State::new();
    assert_eq!(st.get_tile((100, -100), Tile::Wood(1)), Tile::Wood(1));
    assert_eq!(st.get_tile((0, 0), Tile::Empty), Tile::Empty);
}

#[test]
fn dig_progression_on_a_wall() {
    // A generated wall one step below the spawn; everything else empty.
    let gen = |p: (i32, i32)| if p == (0, 1) { Tile::WallFull } else { Tile::Empty };
    let press = Input::Dir(Dir::Down, IsShift::No);
    let mut st = State::new();
    // facing Down already, so each press digs
    st = turn(st, press, &gen);
    assert_eq!(st.get_tile((0, 1), Tile::WallFull), Tile::WallHalf);
    assert_eq!(st.player_pos(), (0, 0));
    st = turn(st, press, &gen);
    assert_eq!(st.get_tile((0, 1), Tile::WallFull), Tile::WallLow);
    st = turn(st, press, &gen);
    assert_eq!(st.get_tile((0, 1), Tile::WallFull), Tile::Empty);
    assert_eq!(st.inventory().count_of(&Item::Wall), 1);
    // a fourth press digs nothing: the tile is empty now, so the player
    // steps into it instead
    st = turn(st, press, &gen);
    assert_eq!(st.get_tile((0, 1), Tile::WallFull), Tile::Empty);
    assert_eq!(st.inventory().count_of(&Item::Wall), 1);
    assert_eq!(st.player_pos(), (0, 1));
}

#[test]
fn digging_needs_unchanged_facing() {
    // A generated wall to the left; the first unshifted press only turns.
    let gen = |p: (i32, i32)| if p == (-1, 0) { Tile::WallFull } else { Tile::Empty };
    let mut st = State::new();
    st = turn(st, Input::Dir(Dir::Left, IsShift::No), &gen);
    assert_eq!(st.player_dir(), Dir::Left);
    assert_eq!(st.get_tile((-1, 0), Tile::WallFull), Tile::WallFull);
    // now the facing is unchanged, so the press digs
    st = turn(st, Input::Dir(Dir::Left, IsShift::No), &gen);
    assert_eq!(st.get_tile((-1, 0), Tile::WallFull), Tile::WallHalf);
}

#[test]
fn turn_then_move() {
    let mut st = State::new();
    assert_eq!(st.player_dir(), Dir::Down);
    // first unshifted press on a new direction only reorients
    st = turn(st, Input::Dir(Dir::Left, IsShift::No), &all_empty);
    assert_eq!(st.player_pos(), (0, 0));
    assert_eq!(st.player_dir(), Dir::Left);
    // second press moves into the empty tile
    st = turn(st, Input::Dir(Dir::Left, IsShift::No), &all_empty);
    assert_eq!(st.player_pos(), (-1, 0));
    assert_eq!(st.player_dir(), Dir::Left);
}

#[test]
fn shifted_press_moves_without_turning() {
    let mut st = State::new();
    st = turn(st, Input::Dir(Dir::Right, IsShift::Yes), &all_empty);
    assert_eq!(st.player_pos(), (1, 0));
    assert_eq!(st.player_dir(), Dir::Down);
}

#[test]
fn shift_does_not_bypass_dig_gating() {
    // a shifted press toward a wall the player does not face digs nothing
    let gen = |p: (i32, i32)| if p == (1, 0) { Tile::WallFull } else { Tile::Empty };
    let mut st = State::new();
    st = turn(st, Input::Dir(Dir::Right, IsShift::Yes), &gen);
    assert_eq!(st.player_pos(), (0, 0));
    assert_eq!(st.player_dir(), Dir::Down);
    assert_eq!(st.get_tile((1, 0), Tile::WallFull), Tile::WallFull);
}

#[test]
fn shifted_press_digs_when_already_facing() {
    // shift bypasses the move gate but not the dig gate: a shifted press
    // toward a wall the player already faces digs it
    let gen = |p: (i32, i32)| if p == (0, 1) { Tile::WallFull } else { Tile::Empty };
    let mut st = State::new();
    st = turn(st, Input::Dir(Dir::Down, IsShift::Yes), &gen);
    assert_eq!(st.player_pos(), (0, 0));
    assert_eq!(st.get_tile((0, 1), Tile::WallFull), Tile::WallHalf);
}

#[test]
fn navigating_an_empty_inventory_selects_nothing() {
    let mut st = State::new();
    st = turn(st, Input::OpenInventory, &all_empty);
    st = turn(st, Input::Dir(Dir::Down, IsShift::No), &all_empty);
    assert_eq!(st.selected_item(), None);
    st = turn(st, Input::Dir(Dir::Up, IsShift::No), &all_empty);
    assert_eq!(st.selected_item(), None);
    assert_eq!(st.player_pos(), (0, 0));
}

#[test]
fn menu_navigation_moves_the_selection() {
    let mut st = State::new();
    let gen = all_empty;
    // gather one wall and one wood: dig a wall down, then wood to the right
    let dig_gen = |p: (i32, i32)| match p {
        (0, 1) => Tile::WallLow,
        (1, 0) => Tile::Wood(0),
        _ => Tile::Empty,
    };
    st = turn(st, Input::Dir(Dir::Down, IsShift::No), &dig_gen);
    st = turn(st, Input::Dir(Dir::Right, IsShift::No), &dig_gen);
    st = turn(st, Input::Dir(Dir::Right, IsShift::No), &dig_gen);
    assert_eq!(st.inventory().count_of(&Item::Wall), 1);
    assert_eq!(st.inventory().count_of(&Item::Wood), 1);
    st = turn(st, Input::OpenInventory, &gen);
    assert_eq!(st.menu(), Menu::Inventory);
    assert_eq!(st.selected_item(), None);
    // with nothing selected, any direction selects the first entry
    st = turn(st, Input::Dir(Dir::Down, IsShift::No), &gen);
    assert_eq!(st.selected_item(), Some(Item::Wall));
    // down and right advance; up and left go back; both wrap
    st = turn(st, Input::Dir(Dir::Right, IsShift::No), &gen);
    assert_eq!(st.selected_item(), Some(Item::Wood));
    st = turn(st, Input::Dir(Dir::Down, IsShift::No), &gen);
    assert_eq!(st.selected_item(), Some(Item::Wall));
    st = turn(st, Input::Dir(Dir::Up, IsShift::No), &gen);
    assert_eq!(st.selected_item(), Some(Item::Wood));
    // the world is untouched by menu navigation: the player never moved
    // while gathering (digging does not move) nor while navigating
    assert_eq!(st.player_pos(), (0, 0));
    st = turn(st, Input::CloseMenu, &gen);
    assert_eq!(st.menu(), Menu::Closed);
}

#[test]
fn build_consumes_the_selection_and_places_its_tile() {
    // one wall in the inventory, selected; an empty world
    let dig_gen = |p: (i32, i32)| if p == (0, 1) { Tile::WallLow } else { Tile::Empty };
    let mut st = State::new();
    st = turn(st, Input::Dir(Dir::Down, IsShift::No), &dig_gen);
    assert_eq!(st.inventory().count_of(&Item::Wall), 1);
    st = turn(st, Input::OpenInventory, &all_empty);
    st = turn(st, Input::Dir(Dir::Down, IsShift::No), &all_empty);
    assert_eq!(st.selected_item(), Some(Item::Wall));
    st = turn(st, Input::CloseMenu, &all_empty);
    // facing Down at (0,0); the target (0,1) is empty again after the dig
    st = turn(st, Input::Build, &all_empty);
    assert_eq!(st.get_tile((0, 1), Tile::Empty), Tile::WallFull);
    assert_eq!(st.inventory().count_of(&Item::Wall), 0);
    // the last unit went, so the selection is dropped
    assert_eq!(st.selected_item(), None);
    assert_eq!(st.message().as_str(), "You are facing a wall");
    // a second build fails on the occupied tile before the missing selection
    // is noticed, and changes nothing
    st = turn(st, Input::Build, &all_empty);
    assert_eq!(st.message().as_str(), "You cannot build on existing tiles.");
    assert_eq!(st.get_tile((0, 1), Tile::Empty), Tile::WallFull);
    assert_eq!(st.inventory().count_of(&Item::Wall), 0);
}

#[test]
fn build_keeps_the_selection_while_units_remain() {
    // two walls gathered: building one leaves the other selected
    let dig_gen = |p: (i32, i32)| match p {
        (0, 1) => Tile::WallLow,
        (0, 2) => Tile::WallLow,
        _ => Tile::Empty,
    };
    let mut st = State::new();
    st = turn(st, Input::Dir(Dir::Down, IsShift::No), &dig_gen); // dig (0,1)
    st = turn(st, Input::Dir(Dir::Down, IsShift::No), &dig_gen); // step onto it
    st = turn(st, Input::Dir(Dir::Down, IsShift::No), &dig_gen); // dig (0,2)
    assert_eq!(st.inventory().count_of(&Item::Wall), 2);
    st = turn(st, Input::OpenInventory, &dig_gen);
    st = turn(st, Input::Dir(Dir::Down, IsShift::No), &dig_gen);
    st = turn(st, Input::CloseMenu, &dig_gen);
    assert_eq!(st.selected_item(), Some(Item::Wall));
    st = turn(st, Input::Build, &dig_gen);
    assert_eq!(st.inventory().count_of(&Item::Wall), 1);
    assert_eq!(st.selected_item(), Some(Item::Wall));
}

#[test]
fn build_without_a_selection_fails_softly() {
    let mut st = State::new();
    st = turn(st, Input::Build, &all_empty);
    assert_eq!(st.message().as_str(), "You have no item selected to build.");
    assert_eq!(st.entries().len(), 0);
    assert_eq!(st.player_pos(), (0, 0));
}

#[test]
fn message_is_cleared_and_repopulated_every_turn() {
    let gen = |p: (i32, i32)| if p == (0, 1) { Tile::Wood(2) } else { Tile::Empty };
    let mut st = State::new();
    // facing the wood names it on any turn that sets no other message
    st = turn(st, Input::OpenInventory, &gen);
    assert_eq!(st.message().as_str(), "You are facing a wood");
    st = turn(st, Input::CloseMenu, &gen);
    assert_eq!(st.message().as_str(), "You are facing a wood");
    // turning away clears it
    st = turn(st, Input::Dir(Dir::Up, IsShift::No), &gen);
    assert_eq!(st.message().as_str(), "");
}

#[test]
fn quit_is_terminal() {
    let look = Look {
        facing: Tile::Empty,
        target: Tile::Empty,
        target_ahead: Tile::Empty,
        target_beside: Tile::Empty,
    };
    assert!(State::new().on_input(Input::Quit, look).is_none());
    // quitting is terminal whatever the state holds
    let mut st = State::new();
    st.set_tile((2, 2), Tile::WallLow, Tile::Empty);
    st = turn(st, Input::OpenInventory, &all_empty);
    assert!(st.on_input(Input::Quit, look).is_none());
}

#[test]
fn letters_map_to_inputs() {
    assert_eq!(on_letter_pressed('w'), Some(Input::Dir(Dir::Up, IsShift::No)));
    assert_eq!(on_letter_pressed('s'), Some(Input::Dir(Dir::Down, IsShift::No)));
    assert_eq!(on_letter_pressed('a'), Some(Input::Dir(Dir::Left, IsShift::No)));
    assert_eq!(on_letter_pressed('d'), Some(Input::Dir(Dir::Right, IsShift::No)));
    assert_eq!(on_letter_pressed('W'), Some(Input::Dir(Dir::Up, IsShift::Yes)));
    assert_eq!(on_letter_pressed('S'), Some(Input::Dir(Dir::Down, IsShift::Yes)));
    assert_eq!(on_letter_pressed('A'), Some(Input::Dir(Dir::Left, IsShift::Yes)));
    assert_eq!(on_letter_pressed('D'), Some(Input::Dir(Dir::Right, IsShift::Yes)));
    assert_eq!(on_letter_pressed('b'), Some(Input::Build));
    assert_eq!(on_letter_pressed('B'), Some(Input::Build));
    assert_eq!(on_letter_pressed('q'), Some(Input::Quit));
    assert_eq!(on_letter_pressed('i'), Some(Input::OpenInventory));
    assert_eq!(on_letter_pressed('I'), Some(Input::OpenInventory));
    assert_eq!(on_letter_pressed('x'), None);
    assert_eq!(Input::Quit.direction(), None);
    assert_eq!(Input::Dir(Dir::Up, IsShift::No).direction(), Some(Dir::Up));
}

#[test]
fn from_parts_restores_the_transient_defaults() {
    let mut inv = minecraft_2d::Inventory::new();
    inv.insert(Item::Wood);
    let mut st = State::from_parts((4, -2), Dir::Up, inv);
    assert_eq!(st.player_pos(), (4, -2));
    assert_eq!(st.player_dir(), Dir::Up);
    assert_eq!(st.menu(), Menu::Closed);
    assert_eq!(st.selected_item(), None);
    assert_eq!(st.inventory().count_of(&Item::Wood), 1);
    assert_eq!(st.entries().len(), 0);
    // replaying a persisted override that equals the generated tile drops it
    st.set_tile((1, 1), Tile::WallFull, Tile::WallFull);
    st.set_tile((1, 2), Tile::WallHalf, Tile::WallFull);
    assert_eq!(st.entries().len(), 1);
}
