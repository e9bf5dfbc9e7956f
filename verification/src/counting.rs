//! Counting the cells of a rectangle that satisfy a predicate, and the facts
//! about such counts that the engine's proofs rest on.

use vstd::prelude::*;

verus! {

/// `1` where the condition holds, else `0`.
pub open spec fn unit(condition: bool) -> nat {
    if condition {
        1
    } else {
        0
    }
}

/// The number of `x` in `0..width` with `predicate(x, y)`.
pub open spec fn count_row(width: nat, y: int, predicate: spec_fn(int, int) -> bool) -> nat
    decreases width,
{
    if width == 0 {
        0
    } else {
        count_row((width - 1) as nat, y, predicate) + unit(predicate(width - 1, y))
    }
}

/// The number of cells `(x, y)` with `0 <= x < width`, `0 <= y < height`
/// and `predicate(x, y)`.
pub open spec fn count_cells(width: nat, height: nat, predicate: spec_fn(int, int) -> bool) -> nat
    decreases height,
{
    if height == 0 {
        0
    } else {
        count_cells(width, (height - 1) as nat, predicate) + count_row(width, height - 1, predicate)
    }
}

/// Two predicates that agree on a row are counted alike in it.
pub proof fn lemma_count_row_agree(
    width: nat,
    y: int,
    first: spec_fn(int, int) -> bool,
    second: spec_fn(int, int) -> bool,
)
    requires
        forall|x: int| 0 <= x < width ==> first(x, y) == #[trigger] second(x, y),
    ensures
        count_row(width, y, first) == count_row(width, y, second),
    decreases width,
{
    if width > 0 {
        lemma_count_row_agree((width - 1) as nat, y, first, second);
    }
}

/// Two predicates that agree on every cell are counted alike.
pub proof fn lemma_count_agree(
    width: nat,
    height: nat,
    first: spec_fn(int, int) -> bool,
    second: spec_fn(int, int) -> bool,
)
    requires
        forall|x: int, y: int|
            0 <= x < width && 0 <= y < height ==> first(x, y) == #[trigger] second(x, y),
    ensures
        count_cells(width, height, first) == count_cells(width, height, second),
    decreases height,
{
    if height > 0 {
        lemma_count_agree(width, (height - 1) as nat, first, second);
        lemma_count_row_agree(width, height - 1, first, second);
    }
}

/// Where two predicates differ at one cell of a row at most, the counts
/// differ by what that cell contributes.
pub proof fn lemma_count_row_change(
    width: nat,
    y: int,
    before: spec_fn(int, int) -> bool,
    after: spec_fn(int, int) -> bool,
    at: int,
)
    requires
        0 <= at < width,
        forall|x: int| 0 <= x < width && x != at ==> before(x, y) == #[trigger] after(x, y),
    ensures
        count_row(width, y, after) + unit(before(at, y)) == count_row(width, y, before) + unit(
            after(at, y),
        ),
    decreases width,
{
    if width - 1 == at {
        lemma_count_row_agree((width - 1) as nat, y, before, after);
    } else {
        lemma_count_row_change((width - 1) as nat, y, before, after, at);
    }
}

/// Where two predicates differ at one cell at most, the counts differ by
/// what that cell contributes.
pub proof fn lemma_count_change(
    width: nat,
    height: nat,
    before: spec_fn(int, int) -> bool,
    after: spec_fn(int, int) -> bool,
    at_x: int,
    at_y: int,
)
    requires
        0 <= at_x < width,
        0 <= at_y < height,
        forall|x: int, y: int|
            0 <= x < width && 0 <= y < height && !(x == at_x && y == at_y) ==> before(x, y)
                == #[trigger] after(x, y),
    ensures
        count_cells(width, height, after) + unit(before(at_x, at_y)) == count_cells(
            width,
            height,
            before,
        ) + unit(after(at_x, at_y)),
    decreases height,
{
    if height - 1 == at_y {
        lemma_count_agree(width, (height - 1) as nat, before, after);
        lemma_count_row_change(width, at_y, before, after, at_x);
    } else {
        lemma_count_change(width, (height - 1) as nat, before, after, at_x, at_y);
        lemma_count_row_agree(width, height - 1, before, after);
    }
}

/// A row holds at most `width` cells that satisfy the predicate, and none
/// exactly if no cell of it does.
pub proof fn lemma_count_row_range(width: nat, y: int, predicate: spec_fn(int, int) -> bool)
    ensures
        count_row(width, y, predicate) <= width,
        (forall|x: int| 0 <= x < width ==> !#[trigger] predicate(x, y)) <==> count_row(
            width,
            y,
            predicate,
        ) == 0,
    decreases width,
{
    if width > 0 {
        lemma_count_row_range((width - 1) as nat, y, predicate);
    }
}

/// A rectangle holds at most `width * height` cells that satisfy the
/// predicate, and none exactly if no cell of it does.
pub proof fn lemma_count_range(width: nat, height: nat, predicate: spec_fn(int, int) -> bool)
    ensures
        count_cells(width, height, predicate) <= width * height,
        (forall|x: int, y: int|
            0 <= x < width && 0 <= y < height ==> !#[trigger] predicate(x, y)) <==> count_cells(
            width,
            height,
            predicate,
        ) == 0,
    decreases height,
{
    if height > 0 {
        lemma_count_range(width, (height - 1) as nat, predicate);
        lemma_count_row_range(width, height - 1, predicate);
        assert(width * height == width * (height - 1) + width) by (nonlinear_arith);
    } else {
        assert(width * height == 0) by (nonlinear_arith)
            requires
                height == 0,
        ;
    }
}

/// A predicate that holds exactly where one of two exclusive predicates
/// holds is counted as the two together, in a row.
pub proof fn lemma_count_row_split(
    width: nat,
    y: int,
    whole: spec_fn(int, int) -> bool,
    first: spec_fn(int, int) -> bool,
    second: spec_fn(int, int) -> bool,
)
    requires
        forall|x: int|
            0 <= x < width ==> (#[trigger] whole(x, y) <==> first(x, y) || second(x, y)) && !(
            first(x, y) && second(x, y)),
    ensures
        count_row(width, y, whole) == count_row(width, y, first) + count_row(width, y, second),
    decreases width,
{
    if width > 0 {
        lemma_count_row_split((width - 1) as nat, y, whole, first, second);
    }
}

/// A predicate that holds exactly where one of two exclusive predicates
/// holds is counted as the two together.
pub proof fn lemma_count_split(
    width: nat,
    height: nat,
    whole: spec_fn(int, int) -> bool,
    first: spec_fn(int, int) -> bool,
    second: spec_fn(int, int) -> bool,
)
    requires
        forall|x: int, y: int|
            0 <= x < width && 0 <= y < height ==> (#[trigger] whole(x, y) <==> first(x, y)
                || second(x, y)) && !(first(x, y) && second(x, y)),
    ensures
        count_cells(width, height, whole) == count_cells(width, height, first) + count_cells(
            width,
            height,
            second,
        ),
    decreases height,
{
    if height > 0 {
        lemma_count_split(width, (height - 1) as nat, whole, first, second);
        lemma_count_row_split(width, height - 1, whole, first, second);
    }
}

/// Where one predicate implies another on a row, it is counted no higher;
/// and lower, where a cell of the row has the second without the first.
pub proof fn lemma_count_row_le(
    width: nat,
    y: int,
    narrow: spec_fn(int, int) -> bool,
    wide: spec_fn(int, int) -> bool,
)
    requires
        forall|x: int| 0 <= x < width && #[trigger] narrow(x, y) ==> wide(x, y),
    ensures
        count_row(width, y, narrow) <= count_row(width, y, wide),
        (exists|x: int| 0 <= x < width && #[trigger] wide(x, y) && !narrow(x, y)) ==> count_row(
            width,
            y,
            narrow,
        ) < count_row(width, y, wide),
    decreases width,
{
    if width > 0 {
        lemma_count_row_le((width - 1) as nat, y, narrow, wide);
    }
}

/// Where one predicate implies another on every cell, it is counted no
/// higher; and lower, where the cell `(at_x, at_y)` has the second without
/// the first.
pub proof fn lemma_count_le(
    width: nat,
    height: nat,
    narrow: spec_fn(int, int) -> bool,
    wide: spec_fn(int, int) -> bool,
    at_x: int,
    at_y: int,
)
    requires
        forall|x: int, y: int|
            0 <= x < width && 0 <= y < height && #[trigger] narrow(x, y) ==> wide(x, y),
    ensures
        count_cells(width, height, narrow) <= count_cells(width, height, wide),
        0 <= at_x < width && 0 <= at_y < height && wide(at_x, at_y) && !narrow(at_x, at_y)
            ==> count_cells(width, height, narrow) < count_cells(width, height, wide),
    decreases height,
{
    if height > 0 {
        lemma_count_le(width, (height - 1) as nat, narrow, wide, at_x, at_y);
        lemma_count_row_le(width, height - 1, narrow, wide);
    }
}

/// The start of a row holds no more cells that satisfy the predicate than
/// the row.
pub proof fn lemma_count_row_prefix(
    width: nat,
    y: int,
    predicate: spec_fn(int, int) -> bool,
    upto: nat,
)
    requires
        upto <= width,
    ensures
        count_row(upto, y, predicate) <= count_row(width, y, predicate),
    decreases width,
{
    if upto < width {
        lemma_count_row_prefix((width - 1) as nat, y, predicate, upto);
    }
}

/// The rows above row `y` and the start of that row hold no more cells
/// that satisfy the predicate than the rectangle.
pub proof fn lemma_count_prefix(
    width: nat,
    height: nat,
    predicate: spec_fn(int, int) -> bool,
    upto: nat,
    y: nat,
)
    requires
        upto <= width,
        y < height,
    ensures
        count_cells(width, y, predicate) + count_row(upto, y as int, predicate) <= count_cells(
            width,
            height,
            predicate,
        ),
    decreases height,
{
    if y == height - 1 {
        lemma_count_row_prefix(width, y as int, predicate, upto);
    } else {
        lemma_count_prefix(width, (height - 1) as nat, predicate, upto, y);
    }
}

} // verus!
