use match3_core::gameplay::{
    update_gameplay_state, GameplayStateFrameData, GameState, SwapSelectedTilesData,
    WaitingForSelection2Data,
};
use match3_core::gamestates::GameStateTransitionState;
use match3_core::grid::{find_connected_groups, ItemType};
use match3_core::grid::ItemType::{Cookie, Diamond, Empty, Flower, Heart, Round, Square};
use match3_core::input::{Int2, MousePositionChangedData, WindowMessages};
use match3_core::rng::Xoroshiro128Rng;

fn moved(x: i32, y: i32) -> WindowMessages {
    WindowMessages::MousePositionChanged(MousePositionChangedData { x, y })
}

fn click(x: i32, y: i32) -> Vec<WindowMessages> {
    vec![moved(x, y), WindowMessages::MouseLeftButtonDown]
}

fn grid_from_rows(rows: [[ItemType; 5]; 6]) -> Vec<ItemType> {
    let mut g = Vec::new();
    for row in rows.iter() {
        for item in row.iter() {
            g.push(*item);
        }
    }
    g
}

fn frame(grid: Vec<ItemType>, rnd: Xoroshiro128Rng, state: GameState) -> GameplayStateFrameData {
    GameplayStateFrameData {
        grid_items: grid,
        mouse_pos_worldspace_x: 0,
        mouse_pos_worldspace_y: 0,
        rnd_state: rnd,
        state,
    }
}

fn tick(prev: &GameplayStateFrameData, msgs: Vec<WindowMessages>) -> GameplayStateFrameData {
    let mut next = GameplayStateFrameData::new();
    let r = update_gameplay_state(prev, &mut next, &msgs);
    assert_eq!(r.transition_state, GameStateTransitionState::Unchanged);
    assert!(!r.block_input);
    next
}

// a settled board used as the starting point of several scenarios
fn settled_board() -> Vec<ItemType> {
    grid_from_rows([
        [Diamond, Round, Heart, Square, Flower],
        [Round, Heart, Square, Flower, Diamond],
        [Cookie, Cookie, Diamond, Cookie, Heart],
        [Heart, Square, Flower, Diamond, Round],
        [Square, Flower, Diamond, Round, Heart],
        [Flower, Diamond, Round, Heart, Square],
    ])
}

#[test]
fn initial_frame_is_pinned_by_the_seed() {
    let f = GameplayStateFrameData::new();
    let expected = grid_from_rows([
        [Cookie, Diamond, Diamond, Round, Heart],
        [Cookie, Flower, Round, Diamond, Heart],
        [Round, Flower, Cookie, Heart, Flower],
        [Square, Diamond, Round, Round, Cookie],
        [Cookie, Square, Cookie, Heart, Square],
        [Heart, Cookie, Flower, Square, Cookie],
    ]);
    assert_eq!(f.grid_items, expected);
    assert_eq!(f.state, GameState::WaitingForSelection1);
    assert_eq!(f.mouse_pos_worldspace_x, 0);
    assert_eq!(f.mouse_pos_worldspace_y, 0);
    assert_eq!(f.rnd_state.s0, 14_151_457_858_335_396_512);
    assert_eq!(f.rnd_state.s1, 13_815_844_159_934_201_086);
}

#[test]
fn initial_layout_is_settled() {
    let f = GameplayStateFrameData::new();
    assert!(f.grid_items.iter().all(|i| *i != ItemType::Empty));
    let mask = find_connected_groups(&f.grid_items);
    assert!(mask.iter().all(|m| !m));
}

#[test]
fn first_click_starts_a_selection() {
    let prev = frame(
        settled_board(),
        Xoroshiro128Rng { s0: 1, s1: 2 },
        GameState::WaitingForSelection1,
    );
    let next = tick(&prev, click(230, 460));
    assert_eq!(
        next.state,
        GameState::WaitingForSelection2(
            WaitingForSelection2Data { selected_tile1: Int2 { x: 2, y: 2 } },
        ),
    );
    assert_eq!(next.grid_items, prev.grid_items);
    // the tracked cursor follows the pointer event
    assert_eq!(next.mouse_pos_worldspace_x, 230);
    assert_eq!(next.mouse_pos_worldspace_y, 500);
}

#[test]
fn out_of_board_click_changes_nothing() {
    let prev = frame(
        settled_board(),
        Xoroshiro128Rng { s0: 1, s1: 2 },
        GameState::WaitingForSelection1,
    );
    let next = tick(&prev, click(539, 10));
    assert_eq!(next.state, GameState::WaitingForSelection1);
    assert_eq!(next.grid_items, prev.grid_items);
}

#[test]
fn clicking_the_selection_again_cancels_it() {
    let prev = frame(
        settled_board(),
        Xoroshiro128Rng { s0: 1, s1: 2 },
        GameState::WaitingForSelection2(
            WaitingForSelection2Data { selected_tile1: Int2 { x: 2, y: 2 } },
        ),
    );
    let next = tick(&prev, click(230, 460));
    assert_eq!(next.state, GameState::WaitingForSelection1);
    assert_eq!(next.grid_items, prev.grid_items);
}

#[test]
fn non_adjacent_second_click_is_ignored() {
    let prev = frame(
        settled_board(),
        Xoroshiro128Rng { s0: 1, s1: 2 },
        GameState::WaitingForSelection2(
            WaitingForSelection2Data { selected_tile1: Int2 { x: 2, y: 2 } },
        ),
    );
    // cell (0, 0) is far from (2, 2): the selection must stay anchored
    let next = tick(&prev, click(50, 260));
    assert_eq!(
        next.state,
        GameState::WaitingForSelection2(
            WaitingForSelection2Data { selected_tile1: Int2 { x: 2, y: 2 } },
        ),
    );
    assert_eq!(next.grid_items, prev.grid_items);
}

#[test]
fn diagonal_second_click_is_ignored() {
    let prev = frame(
        settled_board(),
        Xoroshiro128Rng { s0: 1, s1: 2 },
        GameState::WaitingForSelection2(
            WaitingForSelection2Data { selected_tile1: Int2 { x: 2, y: 2 } },
        ),
    );
    // cell (3, 3) touches (2, 2) only diagonally: |dx| + |dy| == 2
    let next = tick(&prev, click(320, 500));
    assert_eq!(
        next.state,
        GameState::WaitingForSelection2(
            WaitingForSelection2Data { selected_tile1: Int2 { x: 2, y: 2 } },
        ),
    );
}

#[test]
fn adjacent_second_click_commits_a_swap() {
    let prev = frame(
        settled_board(),
        Xoroshiro128Rng { s0: 1, s1: 2 },
        GameState::WaitingForSelection2(
            WaitingForSelection2Data { selected_tile1: Int2 { x: 2, y: 2 } },
        ),
    );
    let next = tick(&prev, click(320, 460));
    assert_eq!(
        next.state,
        GameState::SwapSelectedTiles(
            SwapSelectedTilesData {
                selected_tile1: Int2 { x: 2, y: 2 },
                selected_tile2: Int2 { x: 3, y: 2 },
            },
        ),
    );
    // the swap itself happens on the next tick
    assert_eq!(next.grid_items, prev.grid_items);
}

#[test]
fn invalid_swap_is_undone() {
    // swapping (0,0) and (1,0) in the settled board creates no run
    let prev = frame(
        settled_board(),
        Xoroshiro128Rng { s0: 1, s1: 2 },
        GameState::SwapSelectedTiles(
            SwapSelectedTilesData {
                selected_tile1: Int2 { x: 0, y: 0 },
                selected_tile2: Int2 { x: 1, y: 0 },
            },
        ),
    );
    let next = tick(&prev, vec![]);
    assert_eq!(next.state, GameState::WaitingForSelection1);
    assert_eq!(next.grid_items, prev.grid_items);
    assert_eq!(next.rnd_state, prev.rnd_state);
}

#[test]
fn stable_board_leaves_validation() {
    let prev = frame(
        settled_board(),
        Xoroshiro128Rng { s0: 1, s1: 2 },
        GameState::ValidateGrid,
    );
    let next = tick(&prev, vec![]);
    assert_eq!(next.state, GameState::WaitingForSelection1);
    assert_eq!(next.grid_items, prev.grid_items);
}

#[test]
fn validation_clears_every_covered_cell() {
    let board = grid_from_rows([
        [Diamond, Round, Heart, Square, Flower],
        [Round, Heart, Square, Flower, Diamond],
        [Cookie, Cookie, Cookie, Diamond, Heart],
        [Heart, Square, Flower, Diamond, Round],
        [Square, Flower, Diamond, Round, Heart],
        [Flower, Diamond, Round, Heart, Square],
    ]);
    let prev = frame(board, Xoroshiro128Rng { s0: 1, s1: 2 }, GameState::ValidateGrid);
    let next = tick(&prev, vec![]);
    assert_eq!(next.state, GameState::ArrangeTiles);
    let expected = grid_from_rows([
        [Diamond, Round, Heart, Square, Flower],
        [Round, Heart, Square, Flower, Diamond],
        [Empty, Empty, Empty, Diamond, Heart],
        [Heart, Square, Flower, Diamond, Round],
        [Square, Flower, Diamond, Round, Heart],
        [Flower, Diamond, Round, Heart, Square],
    ]);
    assert_eq!(next.grid_items, expected);
    assert_eq!(next.rnd_state, prev.rnd_state);
}

#[test]
fn arranging_pulls_tiles_down_and_refills() {
    let board = grid_from_rows([
        [Cookie, Round, Heart, Square, Flower],
        [Empty, Heart, Square, Flower, Diamond],
        [Empty, Cookie, Empty, Cookie, Heart],
        [Diamond, Square, Flower, Empty, Round],
        [Empty, Flower, Diamond, Round, Heart],
        [Heart, Diamond, Round, Heart, Square],
    ]);
    let prev = frame(board, Xoroshiro128Rng { s0: 5, s1: 5 }, GameState::ArrangeTiles);
    let next = tick(&prev, vec![]);
    assert_eq!(next.state, GameState::ValidateGrid);
    // one shift pass moves tiles into holes directly below them, then every
    // remaining hole takes a fresh seed-derived tile
    let expected = grid_from_rows([
        [Round, Round, Flower, Round, Flower],
        [Cookie, Heart, Heart, Square, Diamond],
        [Diamond, Cookie, Square, Flower, Heart],
        [Square, Square, Flower, Cookie, Round],
        [Diamond, Flower, Diamond, Round, Heart],
        [Heart, Diamond, Round, Heart, Square],
    ]);
    assert_eq!(next.grid_items, expected);
    assert!(next.grid_items.iter().all(|i| *i != Empty));
    assert_eq!(next.rnd_state.s0, 11_939_500_784_900_683_392);
    assert_eq!(next.rnd_state.s1, 11_535_109_210_626_105_888);
}

#[test]
fn full_match_scenario_settles_back_to_selection() {
    // row 2 reads [Cookie, Cookie, Diamond, Cookie, Heart]: swapping the
    // third and fourth cells yields three cookies in a row
    let board = grid_from_rows([
        [Diamond, Round, Heart, Square, Flower],
        [Round, Heart, Square, Flower, Diamond],
        [Cookie, Cookie, Diamond, Cookie, Heart],
        [Heart, Square, Flower, Diamond, Round],
        [Square, Flower, Diamond, Round, Heart],
        [Flower, Diamond, Round, Heart, Square],
    ]);
    let f0 = frame(board, Xoroshiro128Rng { s0: 1, s1: 9999 }, GameState::WaitingForSelection1);

    let f1 = tick(&f0, click(230, 460));
    assert_eq!(
        f1.state,
        GameState::WaitingForSelection2(
            WaitingForSelection2Data { selected_tile1: Int2 { x: 2, y: 2 } },
        ),
    );

    let f2 = tick(&f1, click(320, 460));
    assert!(matches!(f2.state, GameState::SwapSelectedTiles(_)));

    let f3 = tick(&f2, vec![]);
    assert_eq!(f3.state, GameState::ValidateGrid);
    assert_eq!(f3.grid_items[2 * 5 + 2], ItemType::Cookie);
    assert_eq!(f3.grid_items[2 * 5 + 3], ItemType::Diamond);

    let f4 = tick(&f3, vec![]);
    assert_eq!(f4.state, GameState::ArrangeTiles);
    assert_eq!(f4.grid_items[2 * 5 + 0], ItemType::Empty);
    assert_eq!(f4.grid_items[2 * 5 + 1], ItemType::Empty);
    assert_eq!(f4.grid_items[2 * 5 + 2], ItemType::Empty);

    let f5 = tick(&f4, vec![]);
    assert_eq!(f5.state, GameState::ValidateGrid);

    let f6 = tick(&f5, vec![]);
    assert_eq!(f6.state, GameState::WaitingForSelection1);
    let expected = grid_from_rows([
        [Round, Round, Cookie, Square, Flower],
        [Diamond, Round, Heart, Flower, Diamond],
        [Round, Heart, Square, Diamond, Heart],
        [Heart, Square, Flower, Diamond, Round],
        [Square, Flower, Diamond, Round, Heart],
        [Flower, Diamond, Round, Heart, Square],
    ]);
    assert_eq!(f6.grid_items, expected);
    assert!(f6.grid_items.iter().all(|i| *i != ItemType::Empty));
    let mask = find_connected_groups(&f6.grid_items);
    assert!(mask.iter().all(|m| !m));
    assert_eq!(f6.rnd_state.s0, 16_213_002_167_063_674_307);
    assert_eq!(f6.rnd_state.s1, 17_547_116_255_419_630_881);
}

#[test]
fn cascade_two_levels_deep_terminates() {
    // the cookie run clears, the refill forms one further run, and the
    // board then settles: exactly two clear rounds, five ticks in all
    let board = grid_from_rows([
        [Diamond, Round, Heart, Square, Flower],
        [Round, Heart, Square, Flower, Diamond],
        [Cookie, Cookie, Cookie, Diamond, Heart],
        [Heart, Square, Flower, Diamond, Round],
        [Square, Flower, Diamond, Round, Heart],
        [Flower, Diamond, Round, Heart, Square],
    ]);
    let mut cur = frame(board, Xoroshiro128Rng { s0: 22, s1: 777 }, GameState::ValidateGrid);
    let mut clear_rounds = 0;
    let mut ticks = 0;
    while cur.state != GameState::WaitingForSelection1 {
        assert!(ticks < 60, "the cascade must terminate");
        let was_validating = cur.state == GameState::ValidateGrid;
        let next = tick(&cur, vec![]);
        if was_validating && next.state == GameState::ArrangeTiles {
            clear_rounds += 1;
        }
        ticks += 1;
        cur = next;
    }
    assert_eq!(clear_rounds, 2);
    assert_eq!(ticks, 5);
    let expected = grid_from_rows([
        [Diamond, Heart, Flower, Square, Flower],
        [Diamond, Round, Heart, Flower, Diamond],
        [Round, Heart, Square, Diamond, Heart],
        [Heart, Square, Flower, Diamond, Round],
        [Square, Flower, Diamond, Round, Heart],
        [Flower, Diamond, Round, Heart, Square],
    ]);
    assert_eq!(cur.grid_items, expected);
    let mask = find_connected_groups(&cur.grid_items);
    assert!(mask.iter().all(|m| !m));
    assert_eq!(cur.rnd_state.s0, 4_621_321_712_372_730_262);
    assert_eq!(cur.rnd_state.s1, 7_020_949_962_241_106_137);
}

#[test]
fn idle_tick_changes_nothing() {
    let prev = frame(
        settled_board(),
        Xoroshiro128Rng { s0: 1, s1: 2 },
        GameState::WaitingForSelection1,
    );
    let next = tick(&prev, vec![]);
    assert_eq!(next.state, GameState::WaitingForSelection1);
    assert_eq!(next.grid_items, prev.grid_items);
    assert_eq!(next.rnd_state, prev.rnd_state);
    assert_eq!(next.mouse_pos_worldspace_x, 0);
    assert_eq!(next.mouse_pos_worldspace_y, 0);
}
