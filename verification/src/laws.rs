//! What holds of every game, proved from the definitions that the commands
//! are specified against.

use vstd::prelude::*;
use crate::cascade::lemma_opened_consistent;
use crate::grid::{
    cascade_reaches, inside, neighbouring_mines, opens_onward, same_layout, touching, with_tile,
};
use crate::input::{
    coordinates_of, first_space, lemma_first_space, number_of, unsigned_part, PLUS, SPACE,
};
use crate::model::GameView;
use crate::outside::Timestamp;
use crate::preservation::{lemma_after_dig_wf, lemma_reflag_wf};
use crate::tile::{GameState, Tile};
use crate::zone::within_exclusion;

verus! {

/// Flagging keeps the invariant of a game.
pub proof fn flag_keeps_invariant(game: GameView, position: (u32, u32), now: Timestamp)
    requires
        game.wf(),
    ensures
        game.after_flag(position, now).wf(),
{
    if game.can_flag(position) {
        lemma_reflag_wf(game, position, true, now);
    }
}

/// Unflagging keeps the invariant of a game.
pub proof fn unflag_keeps_invariant(game: GameView, position: (u32, u32), now: Timestamp)
    requires
        game.wf(),
    ensures
        game.after_unflag(position, now).wf(),
{
    if game.can_unflag(position) {
        lemma_reflag_wf(game, position, false, now);
    }
}

/// A dig in a game that is being played keeps the invariant of a game.
pub proof fn dig_keeps_invariant(game: GameView, position: (u32, u32), now: Timestamp)
    requires
        game.wf(),
    ensures
        game.after_dig(position, now).wf(),
{
    lemma_after_dig_wf(game, position, now);
}

/// The first dig leaves a game that meets the invariant.
pub proof fn first_dig_keeps_invariant(game: GameView, position: (u32, u32), after: GameView)
    requires
        game.wf(),
        game.starts(position, after),
    ensures
        after.wf(),
{
    if game.can_start(position) {
        let mined = choose|mined: GameView| #[trigger] game.starts_by(position, mined, after);
        lemma_after_dig_wf(mined, position, after.last_move_time);
    }
}

/// Once a game has started, exactly `number_of_mines` tiles hold a mine.
pub proof fn mines_are_all_laid(game: GameView)
    requires
        game.wf(),
        game.state != GameState::NotStarted,
    ensures
        game.mine_count() == game.number_of_mines,
{
}

/// A first dig that can lay its mines starts the game, lays exactly
/// `number_of_mines` mines, and none of them within the zone around the
/// dig: the 5 by 5 square centred on it.
pub proof fn first_dig_lays_mines_clear_of_it(
    game: GameView,
    position: (u32, u32),
    after: GameView,
)
    requires
        game.wf(),
        game.can_start(position),
        game.starts(position, after),
    ensures
        after.state == GameState::Playing || after.state == GameState::Won,
        after.width == game.width,
        after.height == game.height,
        after.number_of_mines == game.number_of_mines,
        after.mine_count() == game.number_of_mines,
        after.clear_around(position),
        after.tile(position).is_revealed,
        after.time_started == after.last_move_time,
{
    let mined = choose|mined: GameView| #[trigger] game.starts_by(position, mined, after);
    let x = position.0 as int;
    let y = position.1 as int;
    lemma_after_dig_wf(mined, position, after.last_move_time);
    lemma_opened_consistent(mined, position);
    crate::grid::lemma_cascade_start(mined.grid, x, y);
}

/// After a first dig that can lay its mines, the revealed tiles are
/// exactly the region of the dig, and no tile carries a flag.
pub proof fn first_dig_reveals_its_region(
    game: GameView,
    position: (u32, u32),
    after: GameView,
    x: int,
    y: int,
)
    requires
        game.wf(),
        game.can_start(position),
        game.starts(position, after),
        inside(after.grid, x, y),
    ensures
        after.grid[y][x].is_revealed <==> cascade_reaches(
            after.grid,
            position.0 as int,
            position.1 as int,
            x,
            y,
        ),
        !after.grid[y][x].is_flagged,
{
    let mined = choose|mined: GameView| #[trigger] game.starts_by(position, mined, after);
    let from_x = position.0 as int;
    let from_y = position.1 as int;
    lemma_opened_consistent(mined, position);
    if cascade_reaches(mined.grid, from_x, from_y, x, y) {
        crate::grid::lemma_cascade_same_layout(mined.grid, after.grid, from_x, from_y, x, y);
    }
    if cascade_reaches(after.grid, from_x, from_y, x, y) {
        crate::grid::lemma_cascade_same_layout(after.grid, mined.grid, from_x, from_y, x, y);
    }
}

/// The zone is where the squared distance to the dig is below 9: where the
/// distance, rounded down, is below 3.
pub proof fn zone_is_by_distance(dug_x: int, dug_y: int, x: int, y: int)
    ensures
        within_exclusion(dug_x, dug_y, x, y) <==> (x - dug_x) * (x - dug_x) + (y - dug_y) * (y
            - dug_y) < 9,
{
    let across = x - dug_x;
    let down = y - dug_y;
    assert(across >= 3 || across <= -3 ==> across * across >= 9) by (nonlinear_arith);
    assert(down >= 3 || down <= -3 ==> down * down >= 9) by (nonlinear_arith);
    assert(-2 <= across <= 2 ==> across * across <= 4) by (nonlinear_arith);
    assert(-2 <= down <= 2 ==> down * down <= 4) by (nonlinear_arith);
    assert(across * across >= 0) by (nonlinear_arith);
    assert(down * down >= 0) by (nonlinear_arith);
}

/// A board with 25 tiles more than mines has room for the mines wherever
/// the first dig lands on it.
pub proof fn roomy_board_always_starts(game: GameView, position: (u32, u32))
    requires
        game.wf(),
        game.state == GameState::NotStarted,
        game.has(position),
        game.number_of_mines + 25 <= game.width * game.height,
    ensures
        game.can_start(position),
{
    crate::zone::lemma_placeable_count(
        game.width as nat,
        game.height as nat,
        position.0 as int,
        position.1 as int,
    );
}

/// Flagging, unflagging and a dig in a game that is being played neither
/// move, add nor remove a mine, nor change a number: the first dig alone
/// lays the mines and writes the numbers.
pub proof fn mines_stay(game: GameView, position: (u32, u32), now: Timestamp)
    requires
        game.wf(),
    ensures
        same_layout(game.grid, game.after_flag(position, now).grid),
        same_layout(game.grid, game.after_unflag(position, now).grid),
        same_layout(game.grid, game.after_dig(position, now).grid),
{
    if game.can_dig(position) && !game.tile(position).is_mine {
        lemma_opened_consistent(game, position);
    }
}

/// Every tile, and so every tile without a mine, records the number of
/// mines among the tiles of the board that touch it.
pub proof fn numbers_are_right(game: GameView, position: (u32, u32))
    requires
        game.wf(),
        game.has(position),
    ensures
        game.tile(position).adjacent_mines == neighbouring_mines(
            game.grid,
            position.0 as int,
            position.1 as int,
        ),
        game.tile(position).adjacent_mines <= 8,
{
}

/// Flagging and unflagging reveal nothing, cover nothing, and leave the
/// number of tiles that are left as it is.
pub proof fn flags_reveal_nothing(
    game: GameView,
    position: (u32, u32),
    now: Timestamp,
    x: int,
    y: int,
)
    requires
        game.wf(),
        inside(game.grid, x, y),
    ensures
        game.after_flag(position, now).grid[y][x].is_revealed == game.grid[y][x].is_revealed,
        game.after_unflag(position, now).grid[y][x].is_revealed == game.grid[y][x].is_revealed,
        game.after_flag(position, now).unmined_tiles == game.unmined_tiles,
        game.after_unflag(position, now).unmined_tiles == game.unmined_tiles,
        game.after_flag(position, now).state == game.state,
        game.after_unflag(position, now).state == game.state,
{
}

/// A dig covers nothing: a revealed tile stays revealed. The number of
/// tiles that are left never grows, and it falls with every dig that opens
/// a covered tile without a mine.
pub proof fn digs_only_reveal(
    game: GameView,
    position: (u32, u32),
    now: Timestamp,
    x: int,
    y: int,
)
    requires
        game.wf(),
        inside(game.grid, x, y),
    ensures
        game.grid[y][x].is_revealed ==> game.after_dig(position, now).grid[y][x].is_revealed,
        game.after_dig(position, now).unmined_tiles <= game.unmined_tiles,
        game.can_dig(position) && !game.tile(position).is_mine && !game.tile(
            position,
        ).is_revealed ==> game.after_dig(position, now).unmined_tiles < game.unmined_tiles,
{
    if game.can_dig(position) {
        if !game.tile(position).is_mine {
            lemma_opened_consistent(game, position);
        }
    }
}

/// After a dig on a tile without a mine, the whole region of the dig is
/// revealed: the tile, and from every tile of the region with no mine
/// around it, the tiles that touch it.
pub proof fn region_is_revealed(
    game: GameView,
    position: (u32, u32),
    now: Timestamp,
    x: int,
    y: int,
)
    requires
        game.wf(),
        game.can_dig(position),
        !game.tile(position).is_mine,
        cascade_reaches(game.grid, position.0 as int, position.1 as int, x, y),
    ensures
        inside(game.grid, x, y),
        game.after_dig(position, now).grid[y][x].is_revealed,
{
    crate::cascade::lemma_reach_safe(game.grid, position.0 as int, position.1 as int, x, y);
}

/// The region of a dig holds, with each of its tiles that has no mine
/// around it, every tile of the board that touches that tile.
pub proof fn region_takes_in_borders(
    game: GameView,
    position: (u32, u32),
    via_x: int,
    via_y: int,
    x: int,
    y: int,
)
    requires
        game.wf(),
        cascade_reaches(game.grid, position.0 as int, position.1 as int, via_x, via_y),
        game.grid[via_y][via_x].adjacent_mines == 0,
        touching(via_x, via_y, x, y),
        inside(game.grid, x, y),
    ensures
        cascade_reaches(game.grid, position.0 as int, position.1 as int, x, y),
{
    crate::cascade::lemma_reach_safe(
        game.grid,
        position.0 as int,
        position.1 as int,
        via_x,
        via_y,
    );
    crate::cascade::lemma_no_mine_around(game.grid, via_x, via_y, x, y);
    crate::grid::lemma_cascade_extend(
        game.grid,
        position.0 as int,
        position.1 as int,
        via_x,
        via_y,
        x,
        y,
    );
}

/// In every game, around a revealed tile that has no mine and no mine
/// around it, every tile is revealed.
pub proof fn revealed_part_is_closed(game: GameView, x: int, y: int, other_x: int, other_y: int)
    requires
        game.wf(),
        inside(game.grid, x, y),
        game.grid[y][x].is_revealed,
        !game.grid[y][x].is_mine,
        game.grid[y][x].adjacent_mines == 0,
        touching(x, y, other_x, other_y),
        inside(game.grid, other_x, other_y),
    ensures
        game.grid[other_y][other_x].is_revealed,
{
    assert(opens_onward(game.grid, x, y));
}

/// A game is won exactly when the tiles that are left are as many as the
/// mines; and then, once it has started, every tile without a mine is
/// revealed.
pub proof fn won_exactly_when_cleared(game: GameView)
    requires
        game.wf(),
    ensures
        game.state == GameState::Won <==> game.unmined_tiles == game.number_of_mines,
        game.state == GameState::Won ==> game.revealed_safe_count() + game.mine_count()
            == game.width * game.height,
{
}

/// Only a dig wins a game, and only in a game that is being played:
/// flagging and unflagging leave the state as it is, and a dig changes
/// nothing in a game that is won or lost.
pub proof fn won_only_by_digging(game: GameView, position: (u32, u32), now: Timestamp)
    requires
        game.wf(),
    ensures
        game.after_flag(position, now).state == game.state,
        game.after_unflag(position, now).state == game.state,
        game.state != GameState::Playing ==> game.after_dig(position, now) == game,
        game.after_dig(position, now).state == GameState::Won ==> game.state == GameState::Playing
            || game.state == GameState::Won,
{
}

/// A dig on a mine without a flag, in a game that is being played, loses
/// the game and reveals that tile and no other.
pub proof fn mine_loses(game: GameView, position: (u32, u32), now: Timestamp)
    requires
        game.wf(),
        game.can_dig(position),
        game.tile(position).is_mine,
    ensures
        game.after_dig(position, now).state == GameState::Lost,
        game.after_dig(position, now).grid == with_tile(
            game.grid,
            position.0 as int,
            position.1 as int,
            Tile { is_revealed: true, ..game.tile(position) },
        ),
        forall|x: int, y: int|
            inside(game.grid, x, y) && !(x == position.0 && y == position.1) ==> game.after_dig(
                position,
                now,
            ).grid[y][x] == #[trigger] game.grid[y][x],
        game.after_dig(position, now).unmined_tiles == game.unmined_tiles,
        game.after_dig(position, now).placed_flag_count == game.placed_flag_count,
{
}

/// The flags placed never exceed the mines, and with as many flags as
/// mines on the board, flagging changes nothing.
pub proof fn flags_stay_within_budget(game: GameView, position: (u32, u32), now: Timestamp)
    requires
        game.wf(),
    ensures
        game.placed_flag_count <= game.number_of_mines,
        game.after_flag(position, now).placed_flag_count <= game.number_of_mines,
        game.placed_flag_count == game.number_of_mines ==> game.after_flag(position, now) == game,
{
}

/// Unflagging a tile that was just flagged gives back the board and the
/// number of flags as they were.
pub proof fn unflag_undoes_flag(
    game: GameView,
    position: (u32, u32),
    first: Timestamp,
    second: Timestamp,
)
    requires
        game.wf(),
        game.can_flag(position),
    ensures
        game.after_flag(position, first).after_unflag(position, second) == (GameView {
            last_move_time: second,
            ..game
        }),
{
    let y = position.1 as int;
    let flagged = game.after_flag(position, first);
    let back = flagged.after_unflag(position, second);
    assert(back.grid =~= game.grid) by {
        assert(back.grid[y] =~= game.grid[y]);
    }
}

/// A token with a space in it writes no number.
proof fn lemma_number_has_no_space(token: Seq<u8>, at: int)
    requires
        0 <= at < token.len(),
        token[at] == SPACE,
    ensures
        number_of(token) is None,
{
    let digits = unsigned_part(token);
    if token[0] == PLUS {
        assert(digits[at - 1] == token[at]);
    }
}

/// Wherever a space parts a message into two tokens that write numbers,
/// the message holds these numbers as its coordinates; and a message that
/// holds coordinates is parted so by its first space.
pub proof fn coordinates_are_two_numbers(message: Seq<u8>, at: int)
    ensures
        0 <= at < message.len() && message[at] == SPACE && number_of(message.subrange(0, at))
            is Some && number_of(message.subrange(at + 1, message.len() as int)) is Some
            ==> coordinates_of(message) == Some(
            (
                number_of(message.subrange(0, at))->0,
                number_of(message.subrange(at + 1, message.len() as int))->0,
            ),
        ),
        coordinates_of(message) is Some ==> {
            &&& 0 <= first_space(message) < message.len()
            &&& message[first_space(message)] == SPACE
            &&& number_of(message.subrange(0, first_space(message))) is Some
            &&& number_of(
                message.subrange(first_space(message) + 1, message.len() as int),
            ) is Some
        },
{
    lemma_first_space(message);
    let first = first_space(message);
    if 0 <= at < message.len() && message[at] == SPACE && number_of(message.subrange(0, at))
        is Some {
        if first < at {
            let token = message.subrange(0, at);
            lemma_number_has_no_space(token, first);
        }
    }
}

} // verus!
