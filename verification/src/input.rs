//! Input events and coordinate handling.
//!
//! The window layer delivers pointer events in window space (origin top-left,
//! y growing downward). Gameplay works in game space (origin bottom-left, y
//! growing upward), so the vertical axis is flipped against the fixed window
//! height. A primary-button press is mapped to a grid cell by integer
//! division of the cursor position, relative to the grid origin, by the
//! per-cell pixel size; the division truncates toward zero, exactly as the
//! underlying machine division does.

use vstd::prelude::*;

verus! {

/// Height of the game window in pixels; used to flip the vertical axis.
pub const WINDOW_HEIGHT: i32 = 960;

/// Game-space x coordinate of the grid's left edge.
pub const GRID_ORIGIN_X: i32 = 45;

/// Game-space y coordinate of the grid's bottom edge.
pub const GRID_ORIGIN_Y: i32 = 135;

/// Pixel pitch of one grid cell.
pub const TILE_SIZE_PIXELS: i32 = 91;

/// Bound on the magnitude of pointer coordinates accepted from the window
/// layer; generous enough for any physical screen while keeping every
/// intermediate computation far away from `i32` overflow.
pub const COORD_LIMIT: i32 = 0x4000_0000;

/// A two-dimensional integer vector: a pixel position or a grid cell address.
#[derive(Clone, Copy, PartialEq, Eq, Structural, Debug)]
pub struct Int2 {
    pub x: i32,
    pub y: i32,
}

/// Payload of a pointer-moved event, in window-space pixels.
#[derive(Clone, Copy, PartialEq, Eq, Structural, Debug)]
pub struct MousePositionChangedData {
    pub x: i32,
    pub y: i32,
}

/// The events the window layer can deliver, drained once per tick in arrival
/// order. Gameplay consumes pointer motion and primary-button presses; the
/// remaining variants are handled (or ignored) by the outer loop.
#[derive(Clone, Copy, PartialEq, Eq, Structural, Debug)]
pub enum WindowMessages {
    MousePositionChanged(MousePositionChangedData),
    MouseLeftButtonDown,
    MouseLeftButtonUp,
    MouseFocusLost,
    MouseFocusGained,
    WindowCreated,
    WindowClosed,
}

/// A window-space coordinate the simulation accepts.
pub open spec fn coord_in_range(v: int) -> bool {
    -0x4000_0000 <= v <= 0x4000_0000
}

/// Pointer payloads must stay within [`coord_in_range`]; other events carry
/// no coordinates.
pub open spec fn msg_in_range(m: WindowMessages) -> bool {
    match m {
        WindowMessages::MousePositionChanged(d) => coord_in_range(d.x as int) && coord_in_range(
            d.y as int,
        ),
        _ => true,
    }
}

pub open spec fn msgs_in_range(msgs: Seq<WindowMessages>) -> bool {
    forall|i: int| 0 <= i < msgs.len() ==> msg_in_range(msgs[i])
}

/// A game-space position that can result from converting an accepted
/// window-space position (the axis flip can add up to `WINDOW_HEIGHT`).
pub open spec fn world_pos_in_range(p: Int2) -> bool {
    &&& -0x4000_1000 <= p.x <= 0x4000_1000
    &&& -0x4000_1000 <= p.y <= 0x4000_1000
}

/// Window space to game space: x is kept, the vertical axis is flipped.
pub open spec fn window_to_world(p: Int2) -> Int2 {
    Int2 { x: p.x, y: (960 - p.y) as i32 }
}

/// Converts a window-space position into a game-space position.
pub fn convert_window_space_to_world_space(window_space_pos: Int2) -> (world: Int2)
    requires
        coord_in_range(window_space_pos.y as int),
    ensures
        world == window_to_world(window_space_pos),
{
    Int2 { x: window_space_pos.x, y: WINDOW_HEIGHT - window_space_pos.y }
}

/// The tracked cursor position after replaying `msgs[i..]` on top of `pos`.
pub open spec fn track_latest(msgs: Seq<WindowMessages>, i: int, pos: Int2) -> Int2
    decreases msgs.len() - i,
{
    if i < 0 || i >= msgs.len() {
        pos
    } else {
        let next = match msgs[i] {
            WindowMessages::MousePositionChanged(d) => window_to_world(Int2 { x: d.x, y: d.y }),
            _ => pos,
        };
        track_latest(msgs, i + 1, next)
    }
}

/// The cursor position after an entire event batch.
pub open spec fn latest_mouse_position(msgs: Seq<WindowMessages>, pos: Int2) -> Int2 {
    track_latest(msgs, 0, pos)
}

/// Replays every pointer-moved event of the batch, in order, and returns the
/// final game-space cursor position.
pub fn calculate_latest_mouse_position(
    messages: &Vec<WindowMessages>,
    prev_mouse_pos_world_space: Int2,
) -> (pos: Int2)
    requires
        msgs_in_range(messages@),
        world_pos_in_range(prev_mouse_pos_world_space),
    ensures
        pos == latest_mouse_position(messages@, prev_mouse_pos_world_space),
        world_pos_in_range(pos),
{
    let mut mouse_pos_worldspace = prev_mouse_pos_world_space;
    let mut i: usize = 0;
    while i < messages.len()
        invariant
            i <= messages@.len(),
            msgs_in_range(messages@),
            world_pos_in_range(mouse_pos_worldspace),
            track_latest(messages@, 0, prev_mouse_pos_world_space) == track_latest(
                messages@,
                i as int,
                mouse_pos_worldspace,
            ),
        decreases messages@.len() - i,
    {
        let m = messages[i];
        match m {
            WindowMessages::MousePositionChanged(d) => {
                mouse_pos_worldspace = convert_window_space_to_world_space(
                    Int2 { x: d.x, y: d.y },
                );
            },
            _ => {},
        }
        i = i + 1;
    }
    mouse_pos_worldspace
}

/// Truncating division of a relative pixel offset by the cell pitch, as the
/// machine's signed division computes it (rounding toward zero).
pub open spec fn trunc_div_tile(rel: int) -> int {
    if rel >= 0 {
        rel / 91
    } else {
        -((-rel) / 91)
    }
}

/// The grid cell under a game-space position, if it lies within the board.
pub open spec fn tile_hit(pos: Int2) -> Option<Int2> {
    let tx = trunc_div_tile(pos.x - 45);
    let ty = 6 - trunc_div_tile(pos.y - 135);
    if 0 <= tx < 5 && 0 <= ty < 6 {
        Some(Int2 { x: tx as i32, y: ty as i32 })
    } else {
        None
    }
}

fn trunc_div_by_tile_size(rel: i32) -> (q: i32)
    requires
        -0x4000_2000 <= rel <= 0x4000_2000,
    ensures
        q == trunc_div_tile(rel as int),
{
    if rel >= 0 {
        ((rel as u32) / (TILE_SIZE_PIXELS as u32)) as i32
    } else {
        -((((-rel) as u32) / (TILE_SIZE_PIXELS as u32)) as i32)
    }
}

/// The first in-board cell selected by a primary-button press in `msgs[i..]`,
/// tracking pointer motion along the way; presses outside the board are
/// ignored and scanning continues.
pub open spec fn scan_select(msgs: Seq<WindowMessages>, i: int, pos: Int2) -> Option<Int2>
    decreases msgs.len() - i,
{
    if i < 0 || i >= msgs.len() {
        None
    } else {
        match msgs[i] {
            WindowMessages::MousePositionChanged(d) => scan_select(
                msgs,
                i + 1,
                window_to_world(Int2 { x: d.x, y: d.y }),
            ),
            WindowMessages::MouseLeftButtonDown => match tile_hit(pos) {
                Some(t) => Some(t),
                None => scan_select(msgs, i + 1, pos),
            },
            _ => scan_select(msgs, i + 1, pos),
        }
    }
}

/// The cell selected by the first accepted press of an event batch.
pub open spec fn first_selected_tile(msgs: Seq<WindowMessages>, pos: Int2) -> Option<Int2> {
    scan_select(msgs, 0, pos)
}

/// Scans the event batch for a primary-button press over the board and
/// returns the pressed cell; out-of-board presses are silently ignored.
pub fn check_for_mouse_select_field(
    messages: &Vec<WindowMessages>,
    prev_mouse_position_worldspace: Int2,
) -> (sel: Option<Int2>)
    requires
        msgs_in_range(messages@),
        world_pos_in_range(prev_mouse_position_worldspace),
    ensures
        sel == first_selected_tile(messages@, prev_mouse_position_worldspace),
        sel matches Some(t) ==> 0 <= t.x < 5 && 0 <= t.y < 6,
{
    let mut mouse_pos_worldspace = prev_mouse_position_worldspace;
    let mut i: usize = 0;
    while i < messages.len()
        invariant
            i <= messages@.len(),
            msgs_in_range(messages@),
            world_pos_in_range(mouse_pos_worldspace),
            scan_select(messages@, 0, prev_mouse_position_worldspace) == scan_select(
                messages@,
                i as int,
                mouse_pos_worldspace,
            ),
        decreases messages@.len() - i,
    {
        let m = messages[i];
        match m {
            WindowMessages::MousePositionChanged(d) => {
                mouse_pos_worldspace = convert_window_space_to_world_space(
                    Int2 { x: d.x, y: d.y },
                );
            },
            WindowMessages::MouseLeftButtonDown => {
                let cursor_relative_to_grid_x = mouse_pos_worldspace.x - GRID_ORIGIN_X;
                let cursor_relative_to_grid_y = mouse_pos_worldspace.y - GRID_ORIGIN_Y;

                let tile_id_x = trunc_div_by_tile_size(cursor_relative_to_grid_x);
                let tile_id_y = 6 - trunc_div_by_tile_size(cursor_relative_to_grid_y);

                if tile_id_x >= 0 && tile_id_x < 5 && tile_id_y >= 0 && tile_id_y < 6 {
                    return Some(Int2 { x: tile_id_x, y: tile_id_y });
                }
            },
            _ => {},
        }
        i = i + 1;
    }
    None
}

/// Replaying accepted pointer events never drives the tracked cursor out of
/// the accepted game-space range.
pub proof fn lemma_track_latest_in_range(msgs: Seq<WindowMessages>, i: int, pos: Int2)
    requires
        msgs_in_range(msgs),
        world_pos_in_range(pos),
    ensures
        world_pos_in_range(track_latest(msgs, i, pos)),
    decreases msgs.len() - i,
{
    if 0 <= i < msgs.len() {
        match msgs[i] {
            WindowMessages::MousePositionChanged(d) => {
                lemma_track_latest_in_range(msgs, i + 1, window_to_world(Int2 { x: d.x, y: d.y }));
            },
            _ => {
                lemma_track_latest_in_range(msgs, i + 1, pos);
            },
        }
    }
}

/// Whatever cell an event batch selects lies on the board.
pub proof fn lemma_scan_select_in_bounds(msgs: Seq<WindowMessages>, i: int, pos: Int2)
    ensures
        scan_select(msgs, i, pos) matches Some(t) ==> 0 <= t.x < 5 && 0 <= t.y < 6,
    decreases msgs.len() - i,
{
    if 0 <= i < msgs.len() {
        match msgs[i] {
            WindowMessages::MousePositionChanged(d) => {
                lemma_scan_select_in_bounds(msgs, i + 1, window_to_world(Int2 { x: d.x, y: d.y }));
            },
            _ => {
                lemma_scan_select_in_bounds(msgs, i + 1, pos);
            },
        }
    }
}

/// Restricts a value to the closed interval `[min, max]`; when the interval
/// is empty the `max` bound wins, as the comparison order dictates.
pub fn clamp(x: i32, min: i32, max: i32) -> (r: i32)
    ensures
        r == (if x > max {
            max
        } else if x < min {
            min
        } else {
            x
        }),
{
    if x > max {
        max
    } else if x < min {
        min
    } else {
        x
    }
}

} // verus!
