//! The board model: a fixed 6x5 grid of tile kinds, stored row-major, with
//! the queries the gameplay rules are built from — run detection along rows
//! and columns, the removal mask, selection counting, tile swapping, and
//! random (re)population from the deterministic generator.
//!
//! The mathematical model of a board is a `Seq<ItemType>` of length 30; cell
//! `(y, x)` lives at index `y * 5 + x`. A *run* is a stretch of at least
//! three consecutive cells of one non-empty kind in a row or a column; a cell
//! belongs to the removal mask exactly when some run covers it.

use vstd::prelude::*;
use crate::input::Int2;
use crate::rng::{Xoroshiro128Rng, rng_advance, rng_output, rng_skip, rnd_next_u64};

verus! {

/// Number of grid rows.
pub const GRID_ROWS: usize = 6;

/// Number of grid columns.
pub const GRID_COLS: usize = 5;

/// Total number of grid cells.
pub const GRID_CELLS: usize = 30;

/// Number of concrete (non-empty) tile kinds.
pub const ITEM_KIND_COUNT: u64 = 6;

/// What a grid cell can hold: one of six collectible kinds, or `Empty`,
/// which marks a hole during clearing and gravity and never survives a
/// settled board.
#[derive(Clone, Copy, PartialEq, Eq, Structural, Debug)]
pub enum ItemType {
    Empty,
    Cookie,
    Diamond,
    Flower,
    Heart,
    Round,
    Square,
}

/// A well-formed board: exactly 6 x 5 cells.
pub open spec fn grid_wf(g: Seq<ItemType>) -> bool {
    g.len() == 30
}

/// Row `y` of the board as a 5-cell sequence.
pub open spec fn row_of(g: Seq<ItemType>, y: int) -> Seq<ItemType> {
    Seq::new(5, |x: int| g[y * 5 + x])
}

/// Column `x` of the board as a 6-cell sequence.
pub open spec fn col_of(g: Seq<ItemType>, x: int) -> Seq<ItemType> {
    Seq::new(6, |y: int| g[y * 5 + x])
}

/// `[a, b]` is a stretch of at least three equal, non-empty cells of `lane`.
pub open spec fn is_window(lane: Seq<ItemType>, a: int, b: int) -> bool {
    &&& 0 <= a
    &&& a + 2 <= b
    &&& b < lane.len()
    &&& lane[a] != ItemType::Empty
    &&& forall|k: int| a <= k <= b ==> lane[k] == lane[a]
}

/// Cell `i` of `lane` lies inside some run of three or more equal,
/// non-empty cells.
pub open spec fn in_run(lane: Seq<ItemType>, i: int) -> bool {
    exists|a: int, b: int| is_window(lane, a, b) && a <= i <= b
}

/// Cell `(y, x)` is covered by a run along its row or along its column.
pub open spec fn cell_marked(g: Seq<ItemType>, y: int, x: int) -> bool {
    in_run(row_of(g, y), x) || in_run(col_of(g, x), y)
}

/// The removal mask of the whole board, flattened row-major.
pub open spec fn mark_mask(g: Seq<ItemType>) -> Seq<bool> {
    Seq::new(30, |i: int| cell_marked(g, i / 5, i % 5))
}

/// How many entries of a boolean sequence are set.
pub open spec fn count_true(s: Seq<bool>) -> int
    decreases s.len(),
{
    if s.len() == 0 {
        0
    } else {
        count_true(s.drop_last()) + if s.last() {
            1int
        } else {
            0int
        }
    }
}

/// How many cells of the board are covered by some run.
pub open spec fn mark_count(g: Seq<ItemType>) -> int {
    count_true(mark_mask(g))
}

/// No cell of the board is empty.
pub open spec fn grid_full(g: Seq<ItemType>) -> bool {
    forall|i: int| 0 <= i < g.len() ==> g[i] != ItemType::Empty
}

/// No cell of the board is covered by a run.
pub open spec fn no_marks(g: Seq<ItemType>) -> bool {
    forall|y: int, x: int| 0 <= y < 6 && 0 <= x < 5 ==> !cell_marked(g, y, x)
}

/// A cell address that lies on the board.
pub open spec fn tile_in_bounds(t: Int2) -> bool {
    0 <= t.x < 5 && 0 <= t.y < 6
}

/// Flat row-major index of a cell address.
pub open spec fn tile_index(t: Int2) -> int {
    t.y * 5 + t.x
}

/// Exchanges the contents of two distinct cells in place.
pub fn swap_tiles(grid_items: &mut Vec<ItemType>, tile1: Int2, tile2: Int2)
    requires
        grid_wf(old(grid_items)@),
        tile_in_bounds(tile1),
        tile_in_bounds(tile2),
        tile1 != tile2,
    ensures
        final(grid_items)@ == old(grid_items)@.update(
            tile_index(tile1),
            old(grid_items)@[tile_index(tile2)],
        ).update(tile_index(tile2), old(grid_items)@[tile_index(tile1)]),
{
    let index1 = (tile1.y as usize) * 5 + (tile1.x as usize);
    let index2 = (tile2.y as usize) * 5 + (tile2.x as usize);

    let temp = grid_items[index1];
    let other = grid_items[index2];
    grid_items.set(index1, other);
    grid_items.set(index2, temp);
}

/// How many cells of a flattened removal mask are set.
pub fn count_selected_fields(grid: &Vec<bool>) -> (count: i32)
    requires
        grid@.len() == 30,
    ensures
        count == count_true(grid@),
{
    let mut count: i32 = 0;
    let mut i: usize = 0;
    while i < grid.len()
        invariant
            grid@.len() == 30,
            i <= 30,
            0 <= count <= i,
            count == count_true(grid@.take(i as int)),
        decreases grid@.len() - i,
    {
        proof {
            assert(grid@.take(i + 1).drop_last() =~= grid@.take(i as int));
            assert(grid@.take(i + 1).last() == grid@[i as int]);
        }
        if grid[i] {
            count = count + 1;
        }
        i = i + 1;
    }
    proof {
        assert(grid@.take(30) =~= grid@);
    }
    count
}

/// The tile kind a draw value selects, by the fixed ordering of kinds.
pub open spec fn item_of(v: u64) -> ItemType {
    if v == 0 {
        ItemType::Cookie
    } else if v == 1 {
        ItemType::Diamond
    } else if v == 2 {
        ItemType::Flower
    } else if v == 3 {
        ItemType::Heart
    } else if v == 4 {
        ItemType::Round
    } else {
        ItemType::Square
    }
}

/// The tile kind produced by one draw from generator state `r`.
pub open spec fn draw_item(r: Xoroshiro128Rng) -> ItemType {
    item_of(rng_output(r) % 6)
}

/// Draws one random tile kind; the remainder ranges over exactly the six
/// concrete kinds, so the result is never `Empty`.
pub fn gen_random_item(random_generator: &mut Xoroshiro128Rng) -> (item: ItemType)
    ensures
        item == draw_item(*old(random_generator)),
        *final(random_generator) == rng_advance(*old(random_generator)),
        item != ItemType::Empty,
{
    let v = rnd_next_u64(random_generator) % ITEM_KIND_COUNT;
    match v {
        0u64 => ItemType::Cookie,
        1u64 => ItemType::Diamond,
        2u64 => ItemType::Flower,
        3u64 => ItemType::Heart,
        4u64 => ItemType::Round,
        5u64 => ItemType::Square,
        _ => vstd::pervasive::unreached(),
    }
}

/// Marks every cell of `item_row` that lies inside a maximal run of at
/// least three equal, non-empty cells, by OR-ing `true` into `match_row`;
/// already-set entries are left set.
pub fn find_connected_item_in_row(item_row: &Vec<ItemType>, match_row: &mut Vec<bool>)
    requires
        old(match_row)@.len() == item_row@.len(),
    ensures
        final(match_row)@.len() == item_row@.len(),
        forall|i: int|
            0 <= i < item_row@.len() ==> final(match_row)@[i] == (old(match_row)@[i] || in_run(
                item_row@,
                i,
            )),
{
    let ghost lane = item_row@;
    let ghost orig = match_row@;
    let n = item_row.len();
    let mut start_index: usize = 0;
    while start_index < n
        invariant
            lane == item_row@,
            n == lane.len(),
            match_row@.len() == n,
            start_index <= n,
            forall|i: int|
                0 <= i < start_index ==> match_row@[i] == (orig[i] || in_run(lane, i)),
            forall|i: int| start_index <= i < n ==> match_row@[i] == orig[i],
            forall|a: int, b: int|
                is_window(lane, a, b) && a < start_index ==> b < start_index,
        decreases n - start_index,
    {
        let group_match_type = item_row[start_index];
        if group_match_type == ItemType::Empty {
            proof {
                assert(!in_run(lane, start_index as int)) by {
                    if in_run(lane, start_index as int) {
                        let (a, b) = choose|a: int, b: int|
                            is_window(lane, a, b) && a <= start_index as int <= b;
                        assert(lane[start_index as int] == lane[a]);
                    }
                }
                assert forall|a: int, b: int|
                    is_window(lane, a, b) && a < start_index + 1 implies b < start_index + 1 by {
                    if a == start_index as int {
                        assert(lane[a] != ItemType::Empty);
                    }
                }
            }
            start_index = start_index + 1;
        } else {
            // scan forward to the end of the maximal run starting here
            let mut end: usize = start_index + 1;
            while end < n && item_row[end] == group_match_type
                invariant
                    lane == item_row@,
                    n == lane.len(),
                    start_index < end <= n,
                    group_match_type == lane[start_index as int],
                    forall|k: int| start_index <= k < end ==> lane[k] == group_match_type,
                decreases n - end,
            {
                end = end + 1;
            }
            if end - start_index >= 3 {
                // the run qualifies: mark all of it
                let mut k: usize = start_index;
                while k < end
                    invariant
                        lane == item_row@,
                        n == lane.len(),
                        match_row@.len() == n,
                        start_index <= k <= end <= n,
                        forall|i: int|
                            0 <= i < start_index ==> match_row@[i] == (orig[i] || in_run(lane, i)),
                        forall|i: int| start_index <= i < k ==> match_row@[i],
                        forall|i: int| k <= i < n ==> match_row@[i] == orig[i],
                    decreases end - k,
                {
                    match_row.set(k, true);
                    k = k + 1;
                }
                proof {
                    assert(is_window(lane, start_index as int, end - 1));
                    assert forall|i: int| start_index <= i < end implies match_row@[i] == (orig[i]
                        || in_run(lane, i)) by {
                        assert(is_window(lane, start_index as int, end - 1) && start_index <= i <= end
                            - 1);
                    }
                    assert forall|a: int, b: int| is_window(lane, a, b) && a < end as int implies b
                        < end as int by {
                        if start_index <= a < end {
                            if b >= end {
                                assert(lane[end as int] == lane[a]);
                                assert(lane[a] == group_match_type);
                            }
                        }
                    }
                }
                start_index = end;
            } else {
                proof {
                    assert(!in_run(lane, start_index as int)) by {
                        if in_run(lane, start_index as int) {
                            let (a, b) = choose|a: int, b: int|
                                is_window(lane, a, b) && a <= start_index as int <= b;
                            if a < start_index as int {
                                // the straddle invariant rules this window out
                                assert(b < start_index as int);
                            } else {
                                // a window starting here would extend the scanned run to
                                // at least three cells
                                assert(lane[a + 1] == lane[a] && lane[a + 2] == lane[a]);
                                if b >= end {
                                    assert(lane[end as int] == lane[a]);
                                } else {
                                    assert(end - start_index >= 3);
                                }
                            }
                        }
                    }
                    assert forall|a: int, b: int|
                        is_window(lane, a, b) && a < start_index + 1 implies b < start_index
                        + 1 by {
                        if a == start_index as int {
                            assert(lane[a + 1] == lane[a] && lane[a + 2] == lane[a]);
                            if b >= end {
                                assert(lane[end as int] == lane[a]);
                            } else {
                                assert(end - start_index >= 3);
                            }
                        }
                    }
                }
                start_index = start_index + 1;
            }
        }
    }
}

/// Computes the removal mask of the whole board: a cell is set exactly when
/// a run of three or more equal, non-empty tiles covers it along its row or
/// its column. The two passes OR their marks into one flattened mask.
pub fn find_connected_groups(grid_items: &Vec<ItemType>) -> (removal_grid: Vec<bool>)
    requires
        grid_wf(grid_items@),
    ensures
        removal_grid@.len() == 30,
        forall|y: int, x: int|
            0 <= y < 6 && 0 <= x < 5 ==> removal_grid@[y * 5 + x] == cell_marked(
                grid_items@,
                y,
                x,
            ),
{
    let ghost g = grid_items@;
    let mut removal_grid: Vec<bool> = Vec::new();
    let mut i: usize = 0;
    while i < GRID_CELLS
        invariant
            i <= 30,
            removal_grid@.len() == i,
            forall|j: int| 0 <= j < i ==> !removal_grid@[j],
        decreases 30 - i,
    {
        removal_grid.push(false);
        i = i + 1;
    }

    // first mark, row by row, every horizontal run
    let mut y: usize = 0;
    while y < GRID_ROWS
        invariant
            g == grid_items@,
            g.len() == 30,
            removal_grid@.len() == 30,
            y <= 6,
            forall|yy: int, xx: int|
                0 <= yy < y && 0 <= xx < 5 ==> removal_grid@[yy * 5 + xx] == in_run(
                    row_of(g, yy),
                    xx,
                ),
            forall|j: int| y * 5 <= j < 30 ==> !removal_grid@[j],
        decreases 6 - y,
    {
        let mut item_row: Vec<ItemType> = Vec::new();
        let mut x: usize = 0;
        while x < GRID_COLS
            invariant
                g == grid_items@,
                g.len() == 30,
                y < 6,
                x <= 5,
                item_row@.len() == x,
                forall|k: int| 0 <= k < x ==> item_row@[k] == g[y * 5 + k],
            decreases 5 - x,
        {
            item_row.push(grid_items[y * 5 + x]);
            x = x + 1;
        }
        proof {
            assert(item_row@ =~= row_of(g, y as int));
        }

        let mut matched_items: Vec<bool> = Vec::new();
        let mut x: usize = 0;
        while x < GRID_COLS
            invariant
                x <= 5,
                matched_items@.len() == x,
                forall|k: int| 0 <= k < x ==> !matched_items@[k],
            decreases 5 - x,
        {
            matched_items.push(false);
            x = x + 1;
        }
        find_connected_item_in_row(&item_row, &mut matched_items);

        let mut x: usize = 0;
        while x < GRID_COLS
            invariant
                g == grid_items@,
                g.len() == 30,
                removal_grid@.len() == 30,
                y < 6,
                x <= 5,
                matched_items@.len() == 5,
                forall|k: int| 0 <= k < 5 ==> matched_items@[k] == in_run(row_of(g, y as int), k),
                forall|yy: int, xx: int|
                    0 <= yy < y && 0 <= xx < 5 ==> removal_grid@[yy * 5 + xx] == in_run(
                        row_of(g, yy),
                        xx,
                    ),
                forall|xx: int|
                    0 <= xx < x ==> removal_grid@[y * 5 + xx] == in_run(row_of(g, y as int), xx),
                forall|j: int| y * 5 + x <= j < 30 ==> !removal_grid@[j],
        decreases 5 - x,
        {
            let cur = removal_grid[y * 5 + x];
            let hit = matched_items[x];
            removal_grid.set(y * 5 + x, cur || hit);
            x = x + 1;
        }
        y = y + 1;
    }

    // then OR in, column by column, every vertical run
    let mut x: usize = 0;
    while x < GRID_COLS
        invariant
            g == grid_items@,
            g.len() == 30,
            removal_grid@.len() == 30,
            x <= 5,
            forall|yy: int, xx: int|
                0 <= yy < 6 && 0 <= xx < x ==> removal_grid@[yy * 5 + xx] == cell_marked(g, yy, xx),
            forall|yy: int, xx: int|
                0 <= yy < 6 && x <= xx < 5 ==> removal_grid@[yy * 5 + xx] == in_run(
                    row_of(g, yy),
                    xx,
                ),
        decreases 5 - x,
    {
        let mut column: Vec<ItemType> = Vec::new();
        let mut yy: usize = 0;
        while yy < GRID_ROWS
            invariant
                g == grid_items@,
                g.len() == 30,
                x < 5,
                yy <= 6,
                column@.len() == yy,
                forall|k: int| 0 <= k < yy ==> column@[k] == g[k * 5 + x],
            decreases 6 - yy,
        {
            column.push(grid_items[yy * 5 + x]);
            yy = yy + 1;
        }
        proof {
            assert(column@ =~= col_of(g, x as int));
        }

        let mut matched_items: Vec<bool> = Vec::new();
        let mut yy: usize = 0;
        while yy < GRID_ROWS
            invariant
                yy <= 6,
                matched_items@.len() == yy,
                forall|k: int| 0 <= k < yy ==> !matched_items@[k],
            decreases 6 - yy,
        {
            matched_items.push(false);
            yy = yy + 1;
        }
        find_connected_item_in_row(&column, &mut matched_items);

        let mut yy: usize = 0;
        while yy < GRID_ROWS
            invariant
                g == grid_items@,
                g.len() == 30,
                removal_grid@.len() == 30,
                x < 5,
                yy <= 6,
                matched_items@.len() == 6,
                forall|k: int| 0 <= k < 6 ==> matched_items@[k] == in_run(col_of(g, x as int), k),
                forall|y2: int, xx: int|
                    0 <= y2 < 6 && 0 <= xx < x ==> removal_grid@[y2 * 5 + xx] == cell_marked(
                        g,
                        y2,
                        xx,
                    ),
                forall|y2: int|
                    0 <= y2 < yy ==> removal_grid@[y2 * 5 + x] == cell_marked(g, y2, x as int),
                forall|y2: int|
                    yy <= y2 < 6 ==> removal_grid@[y2 * 5 + x] == in_run(
                        row_of(g, y2),
                        x as int,
                    ),
                forall|y2: int, xx: int|
                    0 <= y2 < 6 && x < xx < 5 ==> removal_grid@[y2 * 5 + xx] == in_run(
                        row_of(g, y2),
                        xx,
                    ),
            decreases 6 - yy,
        {
            let cur = removal_grid[yy * 5 + x];
            let hit = matched_items[yy];
            removal_grid.set(yy * 5 + x, cur || hit);
            yy = yy + 1;
        }
        x = x + 1;
    }

    removal_grid
}

pub proof fn lemma_count_true_bounds(s: Seq<bool>)
    ensures
        0 <= count_true(s) <= s.len(),
    decreases s.len(),
{
    if s.len() > 0 {
        lemma_count_true_bounds(s.drop_last());
    }
}

proof fn lemma_count_true_one(s: Seq<bool>, i: int)
    requires
        0 <= i < s.len(),
        s[i],
    ensures
        count_true(s) >= 1,
    decreases s.len(),
{
    if i == s.len() - 1 {
        lemma_count_true_bounds(s.drop_last());
    } else {
        lemma_count_true_one(s.drop_last(), i);
        lemma_count_true_bounds(s);
    }
}

proof fn lemma_count_true_two(s: Seq<bool>, i: int, j: int)
    requires
        0 <= i < j < s.len(),
        s[i],
        s[j],
    ensures
        count_true(s) >= 2,
    decreases s.len(),
{
    if j == s.len() - 1 {
        lemma_count_true_one(s.drop_last(), i);
    } else {
        lemma_count_true_two(s.drop_last(), i, j);
    }
}

proof fn lemma_count_true_three(s: Seq<bool>, i: int, j: int, k: int)
    requires
        0 <= i < j < k < s.len(),
        s[i],
        s[j],
        s[k],
    ensures
        count_true(s) >= 3,
    decreases s.len(),
{
    if k == s.len() - 1 {
        lemma_count_true_two(s.drop_last(), i, j);
    } else {
        lemma_count_true_three(s.drop_last(), i, j, k);
    }
}

proof fn lemma_flat_coords(y: int, x: int)
    requires
        0 <= y < 6,
        0 <= x < 5,
    ensures
        (y * 5 + x) / 5 == y,
        (y * 5 + x) % 5 == x,
{
    assert((y * 5 + x) / 5 == y && (y * 5 + x) % 5 == x) by (nonlinear_arith)
        requires
            0 <= y,
            0 <= x < 5,
    ;
}

/// A single covered cell witnesses a whole run, so the removal mask is never
/// set in just one or two places: any mark comes with at least three.
pub proof fn lemma_marked_cell_implies_three(g: Seq<ItemType>, y: int, x: int)
    requires
        grid_wf(g),
        0 <= y < 6,
        0 <= x < 5,
        cell_marked(g, y, x),
    ensures
        mark_count(g) >= 3,
{
    if in_run(row_of(g, y), x) {
        let (a, b) = choose|a: int, b: int| is_window(row_of(g, y), a, b) && a <= x <= b;
        assert(cell_marked(g, y, a)) by {
            assert(is_window(row_of(g, y), a, b) && a <= a <= b);
        }
        assert(cell_marked(g, y, a + 1)) by {
            assert(is_window(row_of(g, y), a, b) && a <= a + 1 <= b);
        }
        assert(cell_marked(g, y, a + 2)) by {
            assert(is_window(row_of(g, y), a, b) && a <= a + 2 <= b);
        }
        assert(mark_mask(g)[y * 5 + a]) by {
            lemma_flat_coords(y, a);
        }
        assert(mark_mask(g)[y * 5 + a + 1]) by {
            lemma_flat_coords(y, a + 1);
        }
        assert(mark_mask(g)[y * 5 + a + 2]) by {
            lemma_flat_coords(y, a + 2);
        }
        lemma_count_true_three(mark_mask(g), y * 5 + a, y * 5 + a + 1, y * 5 + a + 2);
    } else {
        let (a, b) = choose|a: int, b: int| is_window(col_of(g, x), a, b) && a <= y <= b;
        assert(cell_marked(g, a, x)) by {
            assert(is_window(col_of(g, x), a, b) && a <= a <= b);
        }
        assert(cell_marked(g, a + 1, x)) by {
            assert(is_window(col_of(g, x), a, b) && a <= a + 1 <= b);
        }
        assert(cell_marked(g, a + 2, x)) by {
            assert(is_window(col_of(g, x), a, b) && a <= a + 2 <= b);
        }
        assert(mark_mask(g)[a * 5 + x]) by {
            lemma_flat_coords(a, x);
        }
        assert(mark_mask(g)[(a + 1) * 5 + x]) by {
            lemma_flat_coords(a + 1, x);
        }
        assert(mark_mask(g)[(a + 2) * 5 + x]) by {
            lemma_flat_coords(a + 2, x);
        }
        lemma_count_true_three(mark_mask(g), a * 5 + x, (a + 1) * 5 + x, (a + 2) * 5 + x);
    }
}

/// A board whose removal mask counts fewer than three cells has no run at
/// all: the mask is entirely clear.
pub proof fn lemma_few_marks_means_none(g: Seq<ItemType>)
    requires
        grid_wf(g),
        mark_count(g) < 3,
    ensures
        no_marks(g),
{
    assert forall|y: int, x: int| 0 <= y < 6 && 0 <= x < 5 implies !cell_marked(g, y, x) by {
        if cell_marked(g, y, x) {
            lemma_marked_cell_implies_three(g, y, x);
        }
    }
}

/// The board after swapping the contents of two cells.
pub open spec fn swap_cells(g: Seq<ItemType>, t1: Int2, t2: Int2) -> Seq<ItemType> {
    g.update(tile_index(t1), g[tile_index(t2)]).update(tile_index(t2), g[tile_index(t1)])
}

/// Distinct in-bounds cell addresses map to distinct flat indices.
pub proof fn lemma_tile_index_injective(t1: Int2, t2: Int2)
    requires
        tile_in_bounds(t1),
        tile_in_bounds(t2),
        t1 != t2,
    ensures
        tile_index(t1) != tile_index(t2),
{
}

/// Swapping the same two cells twice restores the board.
pub proof fn lemma_swap_cells_involution(g: Seq<ItemType>, t1: Int2, t2: Int2)
    requires
        grid_wf(g),
        tile_in_bounds(t1),
        tile_in_bounds(t2),
        t1 != t2,
    ensures
        swap_cells(swap_cells(g, t1, t2), t1, t2) == g,
{
    lemma_tile_index_injective(t1, t2);
    assert(swap_cells(swap_cells(g, t1, t2), t1, t2) =~= g);
}

/// The board after erasing every cell covered by a run.
pub open spec fn clear_marked(g: Seq<ItemType>) -> Seq<ItemType> {
    Seq::new(30, |i: int| if cell_marked(g, i / 5, i % 5) {
        ItemType::Empty
    } else {
        g[i]
    })
}

/// One gravity step at cell `(y, x)`: a hole swallows the tile directly
/// above it.
pub open spec fn gravity_cell(g: Seq<ItemType>, y: int, x: int) -> Seq<ItemType> {
    if 1 <= y < 6 && 0 <= x < 5 && g[y * 5 + x] == ItemType::Empty {
        g.update(y * 5 + x, g[(y - 1) * 5 + x]).update((y - 1) * 5 + x, g[y * 5 + x])
    } else {
        g
    }
}

/// Gravity steps across row `y`, from column `x` to the right edge.
pub open spec fn gravity_row(g: Seq<ItemType>, y: int, x: int) -> Seq<ItemType>
    decreases 5 - x,
{
    if x < 0 || x >= 5 {
        g
    } else {
        gravity_row(gravity_cell(g, y, x), y, x + 1)
    }
}

/// Gravity passes over rows `y` down to row 1, bottom row first.
pub open spec fn gravity_rows(g: Seq<ItemType>, y: int) -> Seq<ItemType>
    decreases y,
{
    if y <= 0 {
        g
    } else {
        gravity_rows(gravity_row(g, y, 0), y - 1)
    }
}

/// One full gravity pass over the board, exactly in scan order: rows from
/// the bottom upward, columns left to right, each hole pulling down the tile
/// directly above it.
pub open spec fn apply_gravity(g: Seq<ItemType>) -> Seq<ItemType> {
    gravity_rows(g, 5)
}

/// Refills every hole from cell `i` onward (row-major) with a fresh random
/// tile, threading the generator state through the draws.
pub open spec fn refill_cells(g: Seq<ItemType>, r: Xoroshiro128Rng, i: int) -> (
    Seq<ItemType>,
    Xoroshiro128Rng,
)
    decreases 30 - i,
{
    if i < 0 || i >= 30 {
        (g, r)
    } else if g[i] == ItemType::Empty {
        refill_cells(g.update(i, draw_item(r)), rng_advance(r), i + 1)
    } else {
        refill_cells(g, r, i + 1)
    }
}

/// Refilling touches only holes and leaves no hole behind: the refilled
/// board is full and keeps its size.
pub proof fn lemma_refill_full(g: Seq<ItemType>, r: Xoroshiro128Rng, i: int)
    requires
        g.len() == 30,
        0 <= i <= 30,
        forall|k: int| 0 <= k < i ==> g[k] != ItemType::Empty,
    ensures
        refill_cells(g, r, i).0.len() == 30,
        grid_full(refill_cells(g, r, i).0),
    decreases 30 - i,
{
    if i < 30 {
        if g[i] == ItemType::Empty {
            lemma_refill_full(g.update(i, draw_item(r)), rng_advance(r), i + 1);
        } else {
            lemma_refill_full(g, r, i + 1);
        }
    }
}

/// Gravity only moves tiles around, so the board keeps its size.
pub proof fn lemma_gravity_len(g: Seq<ItemType>)
    requires
        g.len() == 30,
    ensures
        apply_gravity(g).len() == 30,
{
    lemma_gravity_rows_len(g, 5);
}

proof fn lemma_gravity_row_len(g: Seq<ItemType>, y: int, x: int)
    requires
        g.len() == 30,
    ensures
        gravity_row(g, y, x).len() == 30,
    decreases 5 - x,
{
    if 0 <= x < 5 {
        lemma_gravity_row_len(gravity_cell(g, y, x), y, x + 1);
    }
}

proof fn lemma_gravity_rows_len(g: Seq<ItemType>, y: int)
    requires
        g.len() == 30,
    ensures
        gravity_rows(g, y).len() == 30,
    decreases y,
{
    if y > 0 {
        lemma_gravity_row_len(g, y, 0);
        lemma_gravity_rows_len(gravity_row(g, y, 0), y - 1);
    }
}

/// Cell `k` (row-major) of the layout grown from generator state `r0`.
pub open spec fn layout_cell(r0: Xoroshiro128Rng, k: int) -> ItemType {
    draw_item(rng_skip(r0, k as nat))
}

/// Fills a fresh board with 30 independent random tiles, drawn row by row.
pub fn generate_random_layout(random_generator: &mut Xoroshiro128Rng) -> (grid_items: Vec<
    ItemType,
>)
    ensures
        grid_items@.len() == 30,
        forall|k: int| 0 <= k < 30 ==> grid_items@[k] == layout_cell(*old(random_generator), k),
        *final(random_generator) == rng_skip(*old(random_generator), 30),
        grid_full(grid_items@),
{
    let ghost r0 = *random_generator;
    let mut grid_items: Vec<ItemType> = Vec::new();
    let mut k: usize = 0;
    while k < GRID_CELLS
        invariant
            k <= 30,
            grid_items@.len() == k,
            *random_generator == rng_skip(r0, k as nat),
            forall|j: int| 0 <= j < k ==> grid_items@[j] == layout_cell(r0, j),
            forall|j: int| 0 <= j < k ==> grid_items@[j] != ItemType::Empty,
        decreases 30 - k,
    {
        let item = gen_random_item(random_generator);
        grid_items.push(item);
        k = k + 1;
    }
    grid_items
}

} // verus!
