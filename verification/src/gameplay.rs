//! The per-tick gameplay state machine.
//!
//! Each fixed tick starts from a full copy of the previous tick's frame data
//! and advances the selection -> swap -> validate -> arrange cycle by exactly
//! one step, consuming the tick's input batch. The whole tick is captured by
//! the pure function [`gameplay_step`]; the executable update is proved to
//! compute exactly that function.

use vstd::prelude::*;
use crate::gamestates::{GameStateTransitionState, UpdateBehaviourDesc};
use crate::grid::{
    GRID_CELLS, GRID_COLS, GRID_ROWS, ItemType, apply_gravity, cell_marked, clear_marked,
    count_selected_fields, find_connected_groups, gen_random_item, generate_random_layout,
    grid_full, grid_wf, layout_cell, mark_count, mark_mask, no_marks, refill_cells, swap_cells,
    swap_tiles, tile_in_bounds, lemma_few_marks_means_none, lemma_swap_cells_involution,
    lemma_refill_full, lemma_gravity_len, gravity_row, gravity_rows,
};
use crate::input::{
    Int2, WindowMessages, calculate_latest_mouse_position, check_for_mouse_select_field,
    first_selected_tile, latest_mouse_position, msgs_in_range, world_pos_in_range,
    lemma_scan_select_in_bounds, lemma_track_latest_in_range,
};
use crate::rng::{Xoroshiro128Rng, rng_skip};

verus! {

/// First tile chosen by the player while a second choice is awaited.
#[derive(Clone, Copy, PartialEq, Eq, Structural, Debug)]
pub struct WaitingForSelection2Data {
    pub selected_tile1: Int2,
}

/// The two orthogonally adjacent tiles whose swap is about to be resolved.
#[derive(Clone, Copy, PartialEq, Eq, Structural, Debug)]
pub struct SwapSelectedTilesData {
    pub selected_tile1: Int2,
    pub selected_tile2: Int2,
}

/// The gameplay sub-state advanced once per fixed tick.
#[derive(Clone, Copy, PartialEq, Eq, Structural, Debug)]
pub enum GameState {
    /// Waiting for the player to choose the first tile.
    WaitingForSelection1,
    /// Waiting for the player to choose the second tile.
    WaitingForSelection2(WaitingForSelection2Data),
    /// Two adjacent tiles chosen: swap them, keep the swap only if it
    /// produces a run, otherwise swap back.
    SwapSelectedTiles(SwapSelectedTilesData),
    /// Clear every cell covered by a run, or settle back to waiting when
    /// there is none.
    ValidateGrid,
    /// One gravity pass, then refill the holes with fresh random tiles.
    ArrangeTiles,
}

/// The full simulation snapshot for one gameplay instance and one tick.
pub struct GameplayStateFrameData {
    /// The board, 6 x 5 cells stored row-major.
    pub grid_items: Vec<ItemType>,
    /// Latest known cursor position, game-space x.
    pub mouse_pos_worldspace_x: i32,
    /// Latest known cursor position, game-space y.
    pub mouse_pos_worldspace_y: i32,
    /// The deterministic random generator carried in frame data, never
    /// global, so every instance replays identically.
    pub rnd_state: Xoroshiro128Rng,
    /// The machine state this frame is in.
    pub state: GameState,
}

/// Mathematical model of a frame: the board as a sequence, the cursor, the
/// generator state and the machine state.
#[verifier::ext_equal]
pub ghost struct FrameModel {
    pub grid: Seq<ItemType>,
    pub mouse: Int2,
    pub rnd: Xoroshiro128Rng,
    pub state: GameState,
}

impl View for GameplayStateFrameData {
    type V = FrameModel;

    open spec fn view(&self) -> FrameModel {
        FrameModel {
            grid: self.grid_items@,
            mouse: Int2 { x: self.mouse_pos_worldspace_x, y: self.mouse_pos_worldspace_y },
            rnd: self.rnd_state,
            state: self.state,
        }
    }
}

/// `|dx| + |dy| == 1`: the two cells are orthogonal neighbors.
pub open spec fn manhattan_adjacent(a: Int2, b: Int2) -> bool {
    abs_val(a.x - b.x) + abs_val(a.y - b.y) == 1
}

pub open spec fn abs_val(v: int) -> int {
    if v < 0 {
        -v
    } else {
        v
    }
}

/// Any selection recorded in the machine state lies on the board, and a
/// recorded pair is orthogonally adjacent.
pub open spec fn state_wf(s: GameState) -> bool {
    match s {
        GameState::WaitingForSelection2(d) => tile_in_bounds(d.selected_tile1),
        GameState::SwapSelectedTiles(d) => tile_in_bounds(d.selected_tile1) && tile_in_bounds(
            d.selected_tile2,
        ) && manhattan_adjacent(d.selected_tile1, d.selected_tile2),
        _ => true,
    }
}

/// A well-formed frame: a 6 x 5 board, a cursor within the accepted
/// game-space range, and a well-formed machine state.
pub open spec fn frame_wf(m: FrameModel) -> bool {
    &&& grid_wf(m.grid)
    &&& world_pos_in_range(m.mouse)
    &&& state_wf(m.state)
}

/// The board, generator and machine state after one tick, before the final
/// cursor update that applies to every state alike.
pub open spec fn step_core(prev: FrameModel, msgs: Seq<WindowMessages>) -> FrameModel {
    match prev.state {
        GameState::WaitingForSelection1 => match first_selected_tile(msgs, prev.mouse) {
            Some(t) => FrameModel {
                state: GameState::WaitingForSelection2(
                    WaitingForSelection2Data { selected_tile1: t },
                ),
                ..prev
            },
            None => prev,
        },
        GameState::WaitingForSelection2(d) => match first_selected_tile(msgs, prev.mouse) {
            Some(t) => if t == d.selected_tile1 {
                // clicking the selection again cancels it
                FrameModel { state: GameState::WaitingForSelection1, ..prev }
            } else if manhattan_adjacent(d.selected_tile1, t) {
                FrameModel {
                    state: GameState::SwapSelectedTiles(
                        SwapSelectedTilesData {
                            selected_tile1: d.selected_tile1,
                            selected_tile2: t,
                        },
                    ),
                    ..prev
                }
            } else {
                // a non-adjacent second click is ignored; the selection stays
                prev
            },
            None => prev,
        },
        GameState::SwapSelectedTiles(d) => {
            let swapped = swap_cells(prev.grid, d.selected_tile1, d.selected_tile2);
            if mark_count(swapped) < 3 {
                // the swap made no run: undo it and return to selection
                FrameModel { state: GameState::WaitingForSelection1, ..prev }
            } else {
                FrameModel { grid: swapped, state: GameState::ValidateGrid, ..prev }
            }
        },
        GameState::ValidateGrid => if mark_count(prev.grid) < 3 {
            FrameModel { state: GameState::WaitingForSelection1, ..prev }
        } else {
            FrameModel { grid: clear_marked(prev.grid), state: GameState::ArrangeTiles, ..prev }
        },
        GameState::ArrangeTiles => {
            let refilled = refill_cells(apply_gravity(prev.grid), prev.rnd, 0);
            FrameModel {
                grid: refilled.0,
                rnd: refilled.1,
                state: GameState::ValidateGrid,
                ..prev
            }
        },
    }
}

/// One full tick: the state step of [`step_core`] followed by the cursor
/// update that every state performs.
pub open spec fn gameplay_step(prev: FrameModel, msgs: Seq<WindowMessages>) -> FrameModel {
    FrameModel { mouse: latest_mouse_position(msgs, prev.mouse), ..step_core(prev, msgs) }
}

fn copy_board(src: &Vec<ItemType>) -> (dst: Vec<ItemType>)
    ensures
        dst@ == src@,
{
    let mut dst: Vec<ItemType> = Vec::new();
    let mut i: usize = 0;
    while i < src.len()
        invariant
            i <= src@.len(),
            dst@.len() == i,
            forall|j: int| 0 <= j < i ==> dst@[j] == src@[j],
        decreases src@.len() - i,
    {
        dst.push(src[i]);
        i = i + 1;
    }
    proof {
        assert(dst@ =~= src@);
    }
    dst
}

/// Advances one gameplay frame by one fixed tick: copies the previous
/// frame's data into `frame_data`, applies exactly one state-machine step to
/// the copy, and replays the batch's pointer motion. Gameplay never requests
/// a stack transition and never blocks input.
pub fn update_gameplay_state(
    prev_frame_data: &GameplayStateFrameData,
    frame_data: &mut GameplayStateFrameData,
    messages: &Vec<WindowMessages>,
) -> (r: UpdateBehaviourDesc)
    requires
        frame_wf(prev_frame_data@),
        msgs_in_range(messages@),
    ensures
        final(frame_data)@ == gameplay_step(prev_frame_data@, messages@),
        frame_wf(final(frame_data)@),
        r.transition_state == GameStateTransitionState::Unchanged,
        r.block_input == false,
{
    let ghost prev = prev_frame_data@;
    let ghost msgs = messages@;

    // copy the state of the previous frame as the starting point
    frame_data.grid_items = copy_board(&prev_frame_data.grid_items);
    frame_data.rnd_state = prev_frame_data.rnd_state;
    frame_data.state = prev_frame_data.state;

    match frame_data.state {
        GameState::WaitingForSelection1 => {
            let new_selected_field = check_for_mouse_select_field(
                messages,
                Int2 {
                    x: prev_frame_data.mouse_pos_worldspace_x,
                    y: prev_frame_data.mouse_pos_worldspace_y,
                },
            );
            if let Some(selected_field_id) = new_selected_field {
                // the player chose a tile: await the second choice
                frame_data.state = GameState::WaitingForSelection2(
                    WaitingForSelection2Data { selected_tile1: selected_field_id },
                );
            }
        },
        GameState::WaitingForSelection2(state_data) => {
            let new_selected_field = check_for_mouse_select_field(
                messages,
                Int2 {
                    x: prev_frame_data.mouse_pos_worldspace_x,
                    y: prev_frame_data.mouse_pos_worldspace_y,
                },
            );
            if let Some(selected_field_id) = new_selected_field {
                if selected_field_id == state_data.selected_tile1 {
                    // the same tile clicked again cancels the selection
                    frame_data.state = GameState::WaitingForSelection1;
                } else {
                    // only a direct orthogonal neighbor commits a swap
                    let diff_x = if selected_field_id.x >= state_data.selected_tile1.x {
                        selected_field_id.x - state_data.selected_tile1.x
                    } else {
                        state_data.selected_tile1.x - selected_field_id.x
                    };
                    let diff_y = if selected_field_id.y >= state_data.selected_tile1.y {
                        selected_field_id.y - state_data.selected_tile1.y
                    } else {
                        state_data.selected_tile1.y - selected_field_id.y
                    };
                    if diff_x + diff_y == 1 {
                        frame_data.state = GameState::SwapSelectedTiles(
                            SwapSelectedTilesData {
                                selected_tile1: state_data.selected_tile1,
                                selected_tile2: selected_field_id,
                            },
                        );
                    }
                }
            }
        },
        GameState::SwapSelectedTiles(state_data) => {
            proof {
                // adjacency implies the two selections differ
                assert(state_data.selected_tile1 != state_data.selected_tile2);
            }
            // swap the tiles first
            swap_tiles(
                &mut frame_data.grid_items,
                state_data.selected_tile1,
                state_data.selected_tile2,
            );
            let ghost swapped = swap_cells(
                prev.grid,
                state_data.selected_tile1,
                state_data.selected_tile2,
            );
            proof {
                assert(frame_data.grid_items@ == swapped);
            }

            // then judge the board that results
            let removal_grid = find_connected_groups(&frame_data.grid_items);
            proof {
                assert forall|j: int| 0 <= j < 30 implies removal_grid@[j] == mark_mask(swapped)[j]
                by {
                    let yy = j / 5;
                    let xx = j % 5;
                    assert(0 <= yy < 6 && 0 <= xx < 5 && yy * 5 + xx == j);
                    assert(removal_grid@[yy * 5 + xx] == cell_marked(swapped, yy, xx));
                }
                assert(removal_grid@ =~= mark_mask(swapped));
            }
            if count_selected_fields(&removal_grid) < 3 {
                // no run was made: undo the swap and return to selection
                swap_tiles(
                    &mut frame_data.grid_items,
                    state_data.selected_tile1,
                    state_data.selected_tile2,
                );
                proof {
                    lemma_swap_cells_involution(
                        prev.grid,
                        state_data.selected_tile1,
                        state_data.selected_tile2,
                    );
                }
                frame_data.state = GameState::WaitingForSelection1;
            } else {
                frame_data.state = GameState::ValidateGrid;
            }
        },
        GameState::ValidateGrid => {
            let removal_grid = find_connected_groups(&frame_data.grid_items);
            proof {
                assert forall|j: int| 0 <= j < 30 implies removal_grid@[j] == mark_mask(prev.grid)[j]
                by {
                    let yy = j / 5;
                    let xx = j % 5;
                    assert(0 <= yy < 6 && 0 <= xx < 5 && yy * 5 + xx == j);
                    assert(removal_grid@[yy * 5 + xx] == cell_marked(prev.grid, yy, xx));
                }
                assert(removal_grid@ =~= mark_mask(prev.grid));
            }
            if count_selected_fields(&removal_grid) < 3 {
                // the board is stable: back to selection
                frame_data.state = GameState::WaitingForSelection1;
            } else {
                // erase every cell covered by a run
                let mut j: usize = 0;
                while j < GRID_CELLS
                    invariant
                        j <= 30,
                        prev.grid.len() == 30,
                        frame_data.rnd_state == prev.rnd,
                        frame_data.grid_items@.len() == 30,
                        removal_grid@.len() == 30,
                        forall|k: int|
                            0 <= k < 30 ==> removal_grid@[k] == mark_mask(prev.grid)[k],
                        forall|k: int|
                            0 <= k < j ==> frame_data.grid_items@[k] == clear_marked(prev.grid)[k],
                        forall|k: int| j <= k < 30 ==> frame_data.grid_items@[k] == prev.grid[k],
                    decreases 30 - j,
                {
                    if removal_grid[j] {
                        frame_data.grid_items.set(j, ItemType::Empty);
                    }
                    j = j + 1;
                }
                proof {
                    assert(frame_data.grid_items@ =~= clear_marked(prev.grid));
                }
                frame_data.state = GameState::ArrangeTiles;
            }
        },
        GameState::ArrangeTiles => {
            // gravity: walk the rows bottom-up; every hole swallows the tile
            // directly above it
            let mut y: usize = GRID_ROWS - 1;
            while y >= 1
                invariant
                    y <= 5,
                    frame_data.rnd_state == prev.rnd,
                    frame_data.grid_items@.len() == 30,
                    gravity_rows(prev.grid, 5) == gravity_rows(frame_data.grid_items@, y as int),
                decreases y,
            {
                let ghost row_entry = frame_data.grid_items@;
                let mut x: usize = 0;
                while x < GRID_COLS
                    invariant
                        1 <= y <= 5,
                        x <= 5,
                        frame_data.rnd_state == prev.rnd,
                        frame_data.grid_items@.len() == 30,
                        gravity_row(row_entry, y as int, 0) == gravity_row(
                            frame_data.grid_items@,
                            y as int,
                            x as int,
                        ),
                    decreases 5 - x,
                {
                    let item = frame_data.grid_items[y * 5 + x];
                    if item == ItemType::Empty {
                        swap_tiles(
                            &mut frame_data.grid_items,
                            Int2 { x: x as i32, y: y as i32 },
                            Int2 { x: x as i32, y: (y - 1) as i32 },
                        );
                    }
                    x = x + 1;
                }
                y = y - 1;
            }
            proof {
                assert(frame_data.grid_items@ == apply_gravity(prev.grid));
            }

            // refill: every remaining hole takes a fresh random tile
            let ghost settled = frame_data.grid_items@;
            let ghost rnd_entry = frame_data.rnd_state;
            let mut j: usize = 0;
            while j < GRID_CELLS
                invariant
                    j <= 30,
                    frame_data.grid_items@.len() == 30,
                    refill_cells(settled, rnd_entry, 0) == refill_cells(
                        frame_data.grid_items@,
                        frame_data.rnd_state,
                        j as int,
                    ),
                decreases 30 - j,
            {
                if frame_data.grid_items[j] == ItemType::Empty {
                    let item = gen_random_item(&mut frame_data.rnd_state);
                    frame_data.grid_items.set(j, item);
                }
                j = j + 1;
            }

            // catch any matches the refill may have formed
            frame_data.state = GameState::ValidateGrid;
        },
    }

    // update the cursor position for all states
    let latest = calculate_latest_mouse_position(
        messages,
        Int2 {
            x: prev_frame_data.mouse_pos_worldspace_x,
            y: prev_frame_data.mouse_pos_worldspace_y,
        },
    );
    frame_data.mouse_pos_worldspace_x = latest.x;
    frame_data.mouse_pos_worldspace_y = latest.y;

    proof {
        lemma_scan_select_in_bounds(msgs, 0, prev.mouse);
        assert(frame_data@ =~= gameplay_step(prev, msgs));
    }

    // gameplay itself never requests a stack transition
    UpdateBehaviourDesc {
        transition_state: GameStateTransitionState::Unchanged,
        block_input: false,
    }
}

/// The reachability invariant of the machine: whenever the machine waits
/// for a selection or resolves one, the board is fully settled (no hole and
/// no run); while the board is being validated it has no hole; during
/// arrangement holes are allowed. A freshly pushed instance satisfies it
/// whenever its seeded layout happens to be run-free, and every tick
/// preserves it.
pub open spec fn frame_inv(m: FrameModel) -> bool {
    &&& frame_wf(m)
    &&& match m.state {
        GameState::WaitingForSelection1 => grid_full(m.grid) && no_marks(m.grid),
        GameState::WaitingForSelection2(_) => grid_full(m.grid) && no_marks(m.grid),
        GameState::SwapSelectedTiles(_) => grid_full(m.grid) && no_marks(m.grid),
        GameState::ValidateGrid => grid_full(m.grid),
        GameState::ArrangeTiles => true,
    }
}

/// One tick preserves the settled-board invariant: in particular, any
/// waiting-for-selection state a tick produces has a full board whose
/// removal mask is entirely clear.
pub proof fn lemma_step_preserves_invariant(prev: FrameModel, msgs: Seq<WindowMessages>)
    requires
        frame_inv(prev),
        msgs_in_range(msgs),
    ensures
        frame_inv(gameplay_step(prev, msgs)),
{
    lemma_track_latest_in_range(msgs, 0, prev.mouse);
    lemma_scan_select_in_bounds(msgs, 0, prev.mouse);
    match prev.state {
        GameState::WaitingForSelection1 => {},
        GameState::WaitingForSelection2(_) => {},
        GameState::SwapSelectedTiles(d) => {
            let swapped = swap_cells(prev.grid, d.selected_tile1, d.selected_tile2);
            if mark_count(swapped) >= 3 {
                assert forall|i: int| 0 <= i < swapped.len() implies swapped[i]
                    != ItemType::Empty by {
                    assert(swapped.len() == 30);
                }
            }
        },
        GameState::ValidateGrid => {
            if mark_count(prev.grid) < 3 {
                lemma_few_marks_means_none(prev.grid);
            }
        },
        GameState::ArrangeTiles => {
            lemma_gravity_len(prev.grid);
            lemma_refill_full(apply_gravity(prev.grid), prev.rnd, 0);
        },
    }
}

/// In any state satisfying the invariant that waits for the first
/// selection, the board is settled: no hole, no pending run.
pub proof fn lemma_selection_state_is_settled(m: FrameModel)
    requires
        frame_inv(m),
        m.state == GameState::WaitingForSelection1,
    ensures
        grid_full(m.grid),
        no_marks(m.grid),
{
}

/// The adjacency gate: a swap is committed only for the recorded first tile
/// together with an orthogonally adjacent second click, and a non-adjacent,
/// non-identical second click changes nothing but the tracked cursor.
pub proof fn lemma_adjacency_gate(
    prev: FrameModel,
    msgs: Seq<WindowMessages>,
    d: WaitingForSelection2Data,
)
    requires
        frame_wf(prev),
        msgs_in_range(msgs),
        prev.state == GameState::WaitingForSelection2(d),
    ensures
        gameplay_step(prev, msgs).state matches GameState::SwapSelectedTiles(sd) ==> {
            &&& sd.selected_tile1 == d.selected_tile1
            &&& manhattan_adjacent(sd.selected_tile1, sd.selected_tile2)
            &&& first_selected_tile(msgs, prev.mouse) == Some(sd.selected_tile2)
        },
        match first_selected_tile(msgs, prev.mouse) {
            Some(t) => (t != d.selected_tile1 && !manhattan_adjacent(d.selected_tile1, t))
                ==> gameplay_step(prev, msgs).state == prev.state && gameplay_step(prev, msgs).grid
                == prev.grid,
            None => gameplay_step(prev, msgs).state == prev.state && gameplay_step(prev, msgs).grid
                == prev.grid,
        },
{
}

/// Swap-back on an invalid move: when swapping the two recorded tiles
/// produces fewer than three covered cells, the tick restores the pre-swap
/// board exactly and returns to waiting for a selection, never reaching
/// validation.
pub proof fn lemma_invalid_swap_restores_grid(
    prev: FrameModel,
    msgs: Seq<WindowMessages>,
    d: SwapSelectedTilesData,
)
    requires
        frame_wf(prev),
        prev.state == GameState::SwapSelectedTiles(d),
        mark_count(swap_cells(prev.grid, d.selected_tile1, d.selected_tile2)) < 3,
    ensures
        gameplay_step(prev, msgs).grid == prev.grid,
        gameplay_step(prev, msgs).state == GameState::WaitingForSelection1,
{
}

/// A valid move commits the swap and moves on to validation.
pub proof fn lemma_valid_swap_enters_validation(
    prev: FrameModel,
    msgs: Seq<WindowMessages>,
    d: SwapSelectedTilesData,
)
    requires
        frame_wf(prev),
        prev.state == GameState::SwapSelectedTiles(d),
        mark_count(swap_cells(prev.grid, d.selected_tile1, d.selected_tile2)) >= 3,
    ensures
        gameplay_step(prev, msgs).grid == swap_cells(prev.grid, d.selected_tile1, d.selected_tile2),
        gameplay_step(prev, msgs).state == GameState::ValidateGrid,
{
}

/// The seed pair every gameplay instance starts from.
pub open spec fn initial_seed() -> Xoroshiro128Rng {
    Xoroshiro128Rng { s0: 23480923840221, s1: 459 }
}

/// The frame a freshly created gameplay instance holds: a random board grown
/// from the fixed seed, the cursor at the origin, and the machine waiting
/// for the first selection.
pub open spec fn initial_frame() -> FrameModel {
    FrameModel {
        grid: Seq::new(30, |k: int| layout_cell(initial_seed(), k)),
        mouse: Int2 { x: 0, y: 0 },
        rnd: rng_skip(initial_seed(), 30),
        state: GameState::WaitingForSelection1,
    }
}

impl GameplayStateFrameData {
    /// Creates the initial frame: seeds the generator, grows the random
    /// layout, and waits for the first selection.
    pub fn new() -> (frame: GameplayStateFrameData)
        ensures
            frame@ == initial_frame(),
            frame_wf(frame@),
            grid_full(frame@.grid),
    {
        let mut rnd_generator = Xoroshiro128Rng { s0: 23_480_923_840_221, s1: 459 };
        let grid_items = generate_random_layout(&mut rnd_generator);
        let frame = GameplayStateFrameData {
            state: GameState::WaitingForSelection1,
            grid_items,
            rnd_state: rnd_generator,
            mouse_pos_worldspace_x: 0,
            mouse_pos_worldspace_y: 0,
        };
        proof {
            assert(frame@.grid =~= initial_frame().grid);
            assert(frame@ =~= initial_frame());
        }
        frame
    }
}

} // verus!
