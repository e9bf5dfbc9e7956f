//! The zone around the first dig that is kept free of mines, and the room
//! that it leaves for them.

use vstd::prelude::*;
use crate::counting::{count_cells, count_row};
use crate::grid::Grid;

verus! {

/// `(x, y)` lies in the zone around the first dig that stays free of
/// mines: the cells whose distance to the dig, rounded down, is below 3.
/// These are the cells of the 5 by 5 square centred on the dig.
pub open spec fn within_exclusion(dug_x: int, dug_y: int, x: int, y: int) -> bool {
    -2 <= x - dug_x <= 2 && -2 <= y - dug_y <= 2
}

/// The cells outside the zone around a first dig at `(dug_x, dug_y)`.
pub open spec fn placeable_of(dug_x: int, dug_y: int) -> spec_fn(int, int) -> bool {
    |x: int, y: int| !within_exclusion(dug_x, dug_y, x, y)
}

/// The cells outside the zone that hold no mine yet.
pub open spec fn free_slots_of(grid: Grid, dug_x: int, dug_y: int) -> spec_fn(int, int) -> bool {
    |x: int, y: int| !within_exclusion(dug_x, dug_y, x, y) && !grid[y][x].is_mine
}

/// The number of cells of a `width` by `height` board on which a mine may
/// be laid after a first dig at `(dug_x, dug_y)`.
pub open spec fn placeable_count(width: nat, height: nat, dug_x: int, dug_y: int) -> nat {
    count_cells(width, height, placeable_of(dug_x, dug_y))
}

/// The number of columns of a board `length` columns wide that lie within
/// two columns of column `dug`; and the same of rows.
pub open spec fn zone_span(length: int, dug: int) -> int {
    (if dug + 2 < length {
        dug + 2
    } else {
        length - 1
    }) - (if dug >= 2 {
        dug - 2
    } else {
        0
    }) + 1
}

/// Of the first `upto` numbers from zero, how many lie in `low..=high`.
pub open spec fn overlap(upto: int, low: int, high: int) -> int {
    if upto <= low {
        0
    } else if upto > high {
        high - low + 1
    } else {
        upto - low
    }
}

/// In a row that crosses the zone, the cells outside it are those not in
/// the zone's columns.
proof fn lemma_placeable_in_row(upto: nat, y: int, dug_x: int, dug_y: int)
    requires
        0 <= dug_x,
        -2 <= y - dug_y <= 2,
    ensures
        count_row(upto, y, placeable_of(dug_x, dug_y)) == upto - overlap(
            upto as int,
            if dug_x >= 2 {
                dug_x - 2
            } else {
                0
            },
            dug_x + 2,
        ),
    decreases upto,
{
    if upto > 0 {
        lemma_placeable_in_row((upto - 1) as nat, y, dug_x, dug_y);
    }
}

/// In a row that does not cross the zone, every cell is outside it.
proof fn lemma_placeable_off_row(upto: nat, y: int, dug_x: int, dug_y: int)
    requires
        !(-2 <= y - dug_y <= 2),
    ensures
        count_row(upto, y, placeable_of(dug_x, dug_y)) == upto,
    decreases upto,
{
    if upto > 0 {
        lemma_placeable_off_row((upto - 1) as nat, y, dug_x, dug_y);
    }
}

/// The cells outside the zone in the first `upto` rows.
proof fn lemma_placeable_in_rows(width: nat, upto: nat, dug_x: int, dug_y: int)
    requires
        0 <= dug_x < width,
        0 <= dug_y,
    ensures
        count_cells(width, upto, placeable_of(dug_x, dug_y)) == width * upto - zone_span(
            width as int,
            dug_x,
        ) * overlap(
            upto as int,
            if dug_y >= 2 {
                dug_y - 2
            } else {
                0
            },
            dug_y + 2,
        ),
    decreases upto,
{
    let span = zone_span(width as int, dug_x);
    let low = if dug_y >= 2 {
        dug_y - 2
    } else {
        0
    };
    if upto > 0 {
        let y = upto - 1;
        lemma_placeable_in_rows(width, y as nat, dug_x, dug_y);
        assert(width * upto == width * y + width) by (nonlinear_arith)
            requires
                upto == y + 1,
        ;
        if -2 <= y - dug_y <= 2 {
            lemma_placeable_in_row(width, y, dug_x, dug_y);
            assert(span * (overlap(y, low, dug_y + 2) + 1) == span * overlap(y, low, dug_y + 2)
                + span) by (nonlinear_arith);
        } else {
            lemma_placeable_off_row(width, y, dug_x, dug_y);
        }
    } else {
        assert(width * upto == 0) by (nonlinear_arith)
            requires
                upto == 0,
        ;
        assert(span * 0 == 0) by (nonlinear_arith);
    }
}

/// The cells outside the zone around a dig are all cells of the board but
/// those of the zone: the product of the columns and the rows of the board
/// that lie within two of the dig.
pub proof fn lemma_placeable_count(width: nat, height: nat, dug_x: int, dug_y: int)
    requires
        0 <= dug_x < width,
        0 <= dug_y < height,
    ensures
        placeable_count(width, height, dug_x, dug_y) == width * height - zone_span(
            width as int,
            dug_x,
        ) * zone_span(height as int, dug_y),
        1 <= zone_span(width as int, dug_x) <= 5,
        1 <= zone_span(height as int, dug_y) <= 5,
        zone_span(width as int, dug_x) * zone_span(height as int, dug_y) <= 25,
{
    lemma_placeable_in_rows(width, height, dug_x, dug_y);
    let across = zone_span(width as int, dug_x);
    let down = zone_span(height as int, dug_y);
    assert(across * down <= 25) by (nonlinear_arith)
        requires
            1 <= across <= 5,
            1 <= down <= 5,
    ;
}

/// On a board whose tiles fit a `u32` count, the squared distance of two
/// cells fits a `u64`.
pub proof fn lemma_distance_fits(width: u32, height: u32, across: u64, down: u64)
    requires
        width * height <= u32::MAX,
        across < width,
        down < height,
    ensures
        across * across <= u64::MAX,
        down * down <= u64::MAX,
        across * across + down * down <= u64::MAX,
{
    assert(across * across <= 0xffff_ffff * 0xffff_ffff) by (nonlinear_arith)
        requires
            across <= 0xffff_ffff,
    ;
    assert(down * down <= 0xffff_ffff * 0xffff_ffff) by (nonlinear_arith)
        requires
            down <= 0xffff_ffff,
    ;
    if across > 0 && down > 0 {
        assert(width < 0x8000_0000) by (nonlinear_arith)
            requires
                width * height <= 0xffff_ffff,
                height >= 2,
        ;
        assert(height < 0x8000_0000) by (nonlinear_arith)
            requires
                width * height <= 0xffff_ffff,
                width >= 2,
        ;
        assert(across * across <= 0x8000_0000 * 0x8000_0000) by (nonlinear_arith)
            requires
                across <= 0x8000_0000,
        ;
        assert(down * down <= 0x8000_0000 * 0x8000_0000) by (nonlinear_arith)
            requires
                down <= 0x8000_0000,
        ;
    }
}

/// The distance of two cells, rounded down, is below 3 exactly if they are
/// at most two columns and two rows apart.
pub proof fn lemma_root_below_three(across: int, down: int, root: int)
    requires
        0 <= across,
        0 <= down,
        0 <= root,
        root * root <= across * across + down * down,
        across * across + down * down < (root + 1) * (root + 1),
    ensures
        root < 3 <==> across <= 2 && down <= 2,
{
    assert(root >= 3 ==> root * root >= 9) by (nonlinear_arith);
    assert(root <= 2 ==> (root + 1) * (root + 1) <= 9) by (nonlinear_arith)
        requires
            0 <= root,
    ;
    assert(across >= 3 ==> across * across >= 9) by (nonlinear_arith);
    assert(down >= 3 ==> down * down >= 9) by (nonlinear_arith);
    assert(across <= 2 ==> across * across <= 4) by (nonlinear_arith)
        requires
            0 <= across,
    ;
    assert(down <= 2 ==> down * down <= 4) by (nonlinear_arith)
        requires
            0 <= down,
    ;
    assert(across * across >= 0) by (nonlinear_arith);
    assert(down * down >= 0) by (nonlinear_arith);
}

} // verus!
