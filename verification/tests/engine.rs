use minesweeper::{Game, GameState, Tile};

fn count_tiles(game: &Game, property: fn(&Tile) -> bool) -> u32 {
    let mut count = 0;
    for row in &game.tiles {
        for tile in row {
            if property(tile) {
                count += 1;
            }
        }
    }
    count
}

fn mines_around(game: &Game, x: i64, y: i64) -> u32 {
    let mut count = 0;
    for dy in -1i64..=1 {
        for dx in -1i64..=1 {
            if dx == 0 && dy == 0 {
                continue;
            }
            let (a, b) = (x + dx, y + dy);
            if a >= 0 && b >= 0 && a < game.width as i64 && b < game.height as i64 {
                if game.tiles[b as usize][a as usize].is_mine {
                    count += 1;
                }
            }
        }
    }
    count
}

/// The region of a dig, found by a flood fill of its own.
fn region(game: &Game, from: (u32, u32)) -> Vec<Vec<bool>> {
    let mut seen = vec![vec![false; game.width as usize]; game.height as usize];
    if game.tiles[from.1 as usize][from.0 as usize].is_mine {
        return seen;
    }
    let mut stack = vec![(from.0 as i64, from.1 as i64)];
    seen[from.1 as usize][from.0 as usize] = true;
    while let Some((x, y)) = stack.pop() {
        if mines_around(game, x, y) != 0 {
            continue;
        }
        for dy in -1i64..=1 {
            for dx in -1i64..=1 {
                let (a, b) = (x + dx, y + dy);
                if a < 0 || b < 0 || a >= game.width as i64 || b >= game.height as i64 {
                    continue;
                }
                if seen[b as usize][a as usize] || game.tiles[b as usize][a as usize].is_mine {
                    continue;
                }
                seen[b as usize][a as usize] = true;
                stack.push((a, b));
            }
        }
    }
    seen
}

fn check_board(game: &Game) {
    assert!(game.is_well_formed());
    assert_eq!(game.tiles.len(), game.height as usize);
    for row in &game.tiles {
        assert_eq!(row.len(), game.width as usize);
    }
    let revealed_safe = count_tiles(game, |t| t.is_revealed && !t.is_mine);
    assert_eq!(game.unmined_tiles + revealed_safe, game.width * game.height);
    assert_eq!(game.placed_flag_count, count_tiles(game, |t| t.is_flagged));
    assert!(game.placed_flag_count <= game.number_of_mines);
    assert_eq!(count_tiles(game, |t| t.is_flagged && t.is_revealed), 0);
    let revealed_mines = count_tiles(game, |t| t.is_revealed && t.is_mine);
    assert_eq!(revealed_mines, if game.state == GameState::Lost { 1 } else { 0 });
    assert_eq!(game.state == GameState::Won, game.unmined_tiles == game.number_of_mines);
    if game.state == GameState::NotStarted {
        assert_eq!(count_tiles(game, |t| t.is_mine), 0);
        assert_eq!(count_tiles(game, |t| t.is_revealed), 0);
    } else {
        assert_eq!(count_tiles(game, |t| t.is_mine), game.number_of_mines);
    }
    for y in 0..game.height as i64 {
        for x in 0..game.width as i64 {
            let tile = &game.tiles[y as usize][x as usize];
            assert_eq!(tile.adjacent_mines, mines_around(game, x, y));
            if tile.is_revealed && !tile.is_mine && tile.adjacent_mines == 0 {
                for dy in -1i64..=1 {
                    for dx in -1i64..=1 {
                        let (a, b) = (x + dx, y + dy);
                        if a >= 0 && b >= 0 && a < game.width as i64 && b < game.height as i64 {
                            assert!(game.tiles[b as usize][a as usize].is_revealed);
                        }
                    }
                }
            }
        }
    }
}

fn revealed_map(game: &Game) -> Vec<Vec<bool>> {
    game.tiles.iter().map(|row| row.iter().map(|t| t.is_revealed).collect()).collect()
}

fn find_tile(game: &Game, property: fn(&Tile) -> bool) -> Option<(u32, u32)> {
    for y in 0..game.height {
        for x in 0..game.width {
            if property(&game.tiles[y as usize][x as usize]) {
                return Some((x, y));
            }
        }
    }
    None
}

/// A game that is being played after its first dig at `dug`.
fn started(width: u32, height: u32, mines: u32, dug: (u32, u32)) -> Game {
    for _ in 0..10_000 {
        let mut game = Game::new(width, height, mines);
        game.dig(dug);
        if game.state == GameState::Playing {
            return game;
        }
    }
    panic!("no first dig left the game going");
}

#[test]
fn tile_new_is_blank() {
    let tile = Tile::new();
    assert!(!tile.is_mine);
    assert!(!tile.is_flagged);
    assert!(!tile.is_revealed);
    assert_eq!(tile.adjacent_mines, 0);
}

#[test]
fn new_game_has_not_started() {
    let game = Game::new(10, 8, 10);
    assert_eq!(game.width, 10);
    assert_eq!(game.height, 8);
    assert_eq!(game.number_of_mines, 10);
    assert_eq!(game.unmined_tiles, 80);
    assert_eq!(game.placed_flag_count, 0);
    assert_eq!(game.state, GameState::NotStarted);
    assert_eq!(game.tiles.len(), 8);
    for row in &game.tiles {
        assert_eq!(row.len(), 10);
        for tile in row {
            assert!(!tile.is_mine && !tile.is_flagged && !tile.is_revealed);
            assert_eq!(tile.adjacent_mines, 0);
        }
    }
    assert_eq!(game.time_started, game.last_move_time);
    for row in &game.tiles {
        for tile in row {
            assert_eq!(*tile, Tile::new());
        }
    }
    check_board(&game);
}

#[test]
fn try_new_takes_what_new_takes() {
    let game = Game::try_new(10, 8, 10).unwrap();
    assert_eq!((game.width, game.height, game.number_of_mines), (10, 8, 10));
    assert_eq!(game.unmined_tiles, 80);
    assert_eq!(game.state, GameState::NotStarted);
    check_board(&game);
    assert!(Game::try_new(1, 2, 1).is_some());
    assert!(Game::try_new(10, 8, 79).is_some());
    assert!(Game::try_new(0, 8, 1).is_none());
    assert!(Game::try_new(10, 0, 1).is_none());
    assert!(Game::try_new(10, 8, 0).is_none());
    assert!(Game::try_new(10, 8, 80).is_none());
    assert!(Game::try_new(10, 8, 81).is_none());
    assert!(Game::try_new(1, 1, 1).is_none());
    assert!(Game::try_new(65536, 65536, 1).is_none());
    assert!(Game::try_new(u32::MAX, u32::MAX, 1).is_none());
}

#[test]
fn first_dig_lays_exactly_the_mines() {
    for &(width, height, mines) in &[(10u32, 8u32, 10u32), (18, 14, 40), (24, 20, 99), (6, 6, 11)] {
        for round in 0..20u32 {
            let dug = (round * 7 % width, round * 3 % height);
            let mut game = Game::new(width, height, mines);
            game.dig(dug);
            assert!(game.state == GameState::Playing || game.state == GameState::Won);
            assert_eq!(count_tiles(&game, |t| t.is_mine), mines);
            check_board(&game);
        }
    }
}

#[test]
fn no_mine_within_the_zone_of_the_first_dig() {
    for round in 0..60u32 {
        let dug = (round % 10, round % 8);
        let mut game = Game::new(10, 8, 10);
        game.dig(dug);
        for y in 0..8i64 {
            for x in 0..10i64 {
                let across = (x - dug.0 as i64).abs();
                let down = (y - dug.1 as i64).abs();
                if across <= 2 && down <= 2 {
                    assert!(!game.tiles[y as usize][x as usize].is_mine);
                }
            }
        }
    }
}

#[test]
fn every_number_counts_the_mines_around() {
    for round in 0..20u32 {
        let mut game = Game::new(18, 14, 40);
        game.dig((round % 18, round % 14));
        for y in 0..14i64 {
            for x in 0..18i64 {
                let tile = &game.tiles[y as usize][x as usize];
                assert!(tile.adjacent_mines <= 8);
                assert_eq!(tile.adjacent_mines, mines_around(&game, x, y));
            }
        }
    }
}

#[test]
fn first_dig_reveals_exactly_its_region() {
    for round in 0..30u32 {
        let dug = (round % 18, (round * 5) % 14);
        let mut game = Game::new(18, 14, 40);
        game.dig(dug);
        assert_eq!(revealed_map(&game), region(&game, dug));
        assert!(game.tiles[dug.1 as usize][dug.0 as usize].is_revealed);
        assert_eq!(game.tiles[dug.1 as usize][dug.0 as usize].adjacent_mines, 0);
    }
}

#[test]
fn later_digs_add_their_region_and_keep_what_is_revealed() {
    for round in 0..10u32 {
        let mut game = Game::new(24, 20, 99);
        game.dig((round, round));
        let mut left = game.unmined_tiles;
        for y in 0..20u32 {
            for x in 0..24u32 {
                if game.state != GameState::Playing {
                    break;
                }
                if game.tiles[y as usize][x as usize].is_mine {
                    continue;
                }
                let before = revealed_map(&game);
                let was_covered = !before[y as usize][x as usize];
                let reach = region(&game, (x, y));
                game.dig((x, y));
                let after = revealed_map(&game);
                for b in 0..20usize {
                    for a in 0..24usize {
                        assert_eq!(after[b][a], before[b][a] || reach[b][a]);
                    }
                }
                if was_covered {
                    assert!(game.unmined_tiles < left);
                } else {
                    assert_eq!(game.unmined_tiles, left);
                }
                left = game.unmined_tiles;
                check_board(&game);
            }
        }
        assert_eq!(game.state, GameState::Won);
        assert_eq!(game.unmined_tiles, 99);
    }
}

#[test]
fn digging_every_safe_tile_wins_at_the_last_one() {
    let mut game = Game::new(10, 8, 10);
    game.dig((5, 4));
    while let Some(position) = find_tile(&game, |t| !t.is_mine && !t.is_revealed) {
        assert_eq!(game.state, GameState::Playing);
        assert!(game.unmined_tiles > game.number_of_mines);
        game.dig(position);
    }
    assert_eq!(game.state, GameState::Won);
    assert_eq!(game.unmined_tiles, game.number_of_mines);
    assert_eq!(count_tiles(&game, |t| t.is_revealed), 70);
    check_board(&game);
}

#[test]
fn digging_a_mine_loses_and_reveals_only_that_tile() {
    for round in 0..20u32 {
        let mut game = Game::new(18, 14, 40);
        game.dig((round % 18, round % 14));
        if game.state != GameState::Playing {
            continue;
        }
        let mine = find_tile(&game, |t| t.is_mine).unwrap();
        let before = revealed_map(&game);
        let left = game.unmined_tiles;
        let flags = game.placed_flag_count;
        game.dig(mine);
        assert_eq!(game.state, GameState::Lost);
        let after = revealed_map(&game);
        for y in 0..14usize {
            for x in 0..18usize {
                if (x as u32, y as u32) == mine {
                    assert!(after[y][x]);
                    assert!(!before[y][x]);
                } else {
                    assert_eq!(after[y][x], before[y][x]);
                }
            }
        }
        assert_eq!(game.unmined_tiles, left);
        assert_eq!(game.placed_flag_count, flags);
        check_board(&game);
    }
}

#[test]
fn a_finished_game_takes_no_command() {
    let mut game = started(10, 8, 10, (0, 0));
    let mine = find_tile(&game, |t| t.is_mine).unwrap();
    let covered = find_tile(&game, |t| !t.is_mine && !t.is_revealed).unwrap();
    game.flag(covered);
    game.dig(mine);
    assert_eq!(game.state, GameState::Lost);
    let revealed = revealed_map(&game);
    let moved = game.last_move_time;
    game.dig((9, 7));
    game.dig(covered);
    game.unflag(covered);
    game.flag((9, 7));
    assert_eq!(game.state, GameState::Lost);
    assert_eq!(revealed_map(&game), revealed);
    assert_eq!(game.placed_flag_count, 1);
    assert!(game.tiles[covered.1 as usize][covered.0 as usize].is_flagged);
    assert_eq!(game.last_move_time, moved);
    check_board(&game);

    let mut won = Game::new(4, 1, 1);
    won.dig((0, 0));
    assert_eq!(won.state, GameState::Won);
    won.dig((3, 0));
    won.flag((3, 0));
    assert_eq!(won.state, GameState::Won);
    assert!(!won.tiles[0][3].is_revealed);
    assert!(!won.tiles[0][3].is_flagged);
    assert_eq!(won.placed_flag_count, 0);
}

#[test]
fn flags_stay_within_the_number_of_mines() {
    let mut game = started(10, 8, 3, (0, 0));
    let mut placed = 0;
    for y in 0..8u32 {
        for x in 0..10u32 {
            let revealed = game.tiles[y as usize][x as usize].is_revealed;
            game.flag((x, y));
            if !revealed && placed < 3 {
                placed += 1;
                assert!(game.tiles[y as usize][x as usize].is_flagged);
            } else {
                assert!(!game.tiles[y as usize][x as usize].is_flagged);
            }
            assert_eq!(game.placed_flag_count, placed);
            assert!(game.placed_flag_count <= game.number_of_mines);
        }
    }
    assert_eq!(game.placed_flag_count, 3);
    check_board(&game);
}

#[test]
fn flag_then_unflag_twice_changes_nothing() {
    let mut game = started(10, 8, 10, (0, 0));
    let covered = find_tile(&game, |t| !t.is_revealed).unwrap();
    let flags = game.placed_flag_count;
    for _ in 0..2 {
        game.flag(covered);
        assert!(game.tiles[covered.1 as usize][covered.0 as usize].is_flagged);
        assert_eq!(game.placed_flag_count, flags + 1);
        game.unflag(covered);
        assert!(!game.tiles[covered.1 as usize][covered.0 as usize].is_flagged);
        assert_eq!(game.placed_flag_count, flags);
    }
    check_board(&game);
}

#[test]
fn flag_and_unflag_without_effect() {
    let mut game = Game::new(10, 8, 10);
    game.flag((1, 1));
    game.unflag((1, 1));
    assert_eq!(game.placed_flag_count, 0);
    assert!(!game.tiles[1][1].is_flagged);
    assert_eq!(game.state, GameState::NotStarted);

    let mut game = started(10, 8, 10, (1, 1));
    game.flag((1, 1));
    assert!(!game.tiles[1][1].is_flagged);
    assert_eq!(game.placed_flag_count, 0);
    let covered = find_tile(&game, |t| !t.is_revealed).unwrap();
    game.unflag(covered);
    assert_eq!(game.placed_flag_count, 0);
    game.flag(covered);
    game.flag(covered);
    assert_eq!(game.placed_flag_count, 1);
    game.flag((10, 0));
    game.flag((0, 8));
    game.unflag((10, 0));
    game.unflag((u32::MAX, u32::MAX));
    assert_eq!(game.placed_flag_count, 1);
    check_board(&game);
}

#[test]
fn a_flagged_tile_is_not_dug() {
    let mut game = started(10, 8, 10, (0, 0));
    let mine = find_tile(&game, |t| t.is_mine).unwrap();
    game.flag(mine);
    let revealed = revealed_map(&game);
    let moved = game.last_move_time;
    game.dig(mine);
    assert_eq!(game.state, GameState::Playing);
    assert_eq!(revealed_map(&game), revealed);
    assert_eq!(game.last_move_time, moved);
    game.unflag(mine);
    game.dig(mine);
    assert_eq!(game.state, GameState::Lost);
}

#[test]
fn revealing_clears_a_flag_in_the_region() {
    for round in 0..200u32 {
        let mut game = Game::new(24, 20, 40);
        game.dig((0, 0));
        if game.state != GameState::Playing {
            continue;
        }
        // a covered tile with no mine around it, and a covered safe tile that touches it
        let mut found = None;
        for y in 0..20i64 {
            for x in 0..24i64 {
                let tile = &game.tiles[y as usize][x as usize];
                if tile.is_revealed || tile.is_mine || tile.adjacent_mines != 0 {
                    continue;
                }
                if x + 1 < 24 && !game.tiles[y as usize][x as usize + 1].is_revealed {
                    found = Some(((x as u32, y as u32), (x as u32 + 1, y as u32)));
                }
            }
        }
        let (open, beside) = match found {
            Some(pair) => pair,
            None => continue,
        };
        game.flag(beside);
        assert_eq!(game.placed_flag_count, 1);
        game.dig(open);
        assert!(game.tiles[beside.1 as usize][beside.0 as usize].is_revealed);
        assert!(!game.tiles[beside.1 as usize][beside.0 as usize].is_flagged);
        assert_eq!(game.placed_flag_count, 0);
        check_board(&game);
        let _ = round;
        return;
    }
    panic!("no board with a covered open region came up");
}

#[test]
fn dig_beyond_the_board_changes_nothing() {
    let mut game = Game::new(10, 8, 10);
    game.dig((10, 0));
    game.dig((0, 8));
    game.dig((u32::MAX, u32::MAX));
    assert_eq!(game.state, GameState::NotStarted);
    assert_eq!(count_tiles(&game, |t| t.is_mine), 0);
    let mut game = started(10, 8, 10, (9, 7));
    let revealed = revealed_map(&game);
    game.dig((10, 7));
    game.dig((9, 8));
    assert_eq!(revealed_map(&game), revealed);
    assert_eq!(game.state, GameState::Playing);
}

#[test]
fn forced_mine_on_a_four_by_one_board() {
    for _ in 0..200 {
        let mut game = Game::new(4, 1, 1);
        game.dig((0, 0));
        assert!(game.tiles[0][3].is_mine);
        for x in 0..3 {
            assert!(!game.tiles[0][x].is_mine);
        }
        assert_eq!(game.tiles[0][0].adjacent_mines, 0);
        assert_eq!(game.tiles[0][1].adjacent_mines, 0);
        assert_eq!(game.tiles[0][2].adjacent_mines, 1);
        assert_eq!(game.tiles[0][3].adjacent_mines, 0);
        assert!(game.tiles[0][0].is_revealed);
        assert!(game.tiles[0][1].is_revealed);
        assert!(game.tiles[0][2].is_revealed);
        assert!(!game.tiles[0][3].is_revealed);
        assert_eq!(game.unmined_tiles, 1);
        assert_eq!(game.state, GameState::Won);
        assert_eq!(game.time_started, game.last_move_time);
    }
}

#[test]
fn forced_mine_on_a_one_by_four_board() {
    for _ in 0..200 {
        let mut game = Game::new(1, 4, 1);
        game.dig((0, 3));
        assert!(game.tiles[0][0].is_mine);
        assert_eq!(game.tiles[1][0].adjacent_mines, 1);
        assert_eq!(game.tiles[2][0].adjacent_mines, 0);
        assert_eq!(game.tiles[3][0].adjacent_mines, 0);
        assert!(!game.tiles[0][0].is_revealed);
        assert!(game.tiles[1][0].is_revealed);
        assert!(game.tiles[2][0].is_revealed);
        assert!(game.tiles[3][0].is_revealed);
        assert_eq!(game.unmined_tiles, 1);
        assert_eq!(game.state, GameState::Won);
    }
}

#[test]
fn one_free_slot_too_many_keeps_the_game_going() {
    let mut at_four = 0;
    for _ in 0..200 {
        let mut game = Game::new(5, 1, 1);
        game.dig((0, 0));
        assert!(game.tiles[0][3].is_mine != game.tiles[0][4].is_mine);
        assert!(game.tiles[0][0].is_revealed && game.tiles[0][1].is_revealed);
        if game.tiles[0][4].is_mine {
            at_four += 1;
            assert_eq!(game.tiles[0][2].adjacent_mines, 0);
            assert_eq!(game.tiles[0][3].adjacent_mines, 1);
            assert!(game.tiles[0][2].is_revealed && game.tiles[0][3].is_revealed);
            assert_eq!(game.unmined_tiles, 1);
            assert_eq!(game.state, GameState::Won);
        } else {
            assert_eq!(game.tiles[0][2].adjacent_mines, 1);
            assert_eq!(game.tiles[0][4].adjacent_mines, 1);
            assert!(game.tiles[0][2].is_revealed);
            assert!(!game.tiles[0][4].is_revealed);
            assert_eq!(game.unmined_tiles, 2);
            assert_eq!(game.state, GameState::Playing);
            game.dig((4, 0));
            assert_eq!(game.unmined_tiles, 1);
            assert_eq!(game.state, GameState::Won);
        }
    }
    assert!(at_four > 0 && at_four < 200);
}

#[test]
fn a_board_filled_outside_the_zone_is_won_at_once() {
    for _ in 0..20 {
        let mut game = Game::new(6, 6, 11);
        game.dig((2, 2));
        for y in 0..6usize {
            for x in 0..6usize {
                let tile = &game.tiles[y][x];
                assert_eq!(tile.is_mine, x == 5 || y == 5);
                assert_eq!(tile.is_revealed, !(x == 5 || y == 5));
            }
        }
        assert_eq!(game.tiles[0][0].adjacent_mines, 0);
        assert_eq!(game.tiles[3][3].adjacent_mines, 0);
        assert_eq!(game.tiles[0][4].adjacent_mines, 2);
        assert_eq!(game.tiles[2][4].adjacent_mines, 3);
        assert_eq!(game.tiles[4][2].adjacent_mines, 3);
        assert_eq!(game.tiles[4][4].adjacent_mines, 5);
        assert_eq!(game.tiles[5][5].adjacent_mines, 2);
        assert_eq!(game.tiles[5][0].adjacent_mines, 1);
        assert_eq!(game.tiles[5][2].adjacent_mines, 2);
        assert_eq!(game.unmined_tiles, 11);
        assert_eq!(game.state, GameState::Won);
        check_board(&game);
    }
}

#[test]
fn a_region_without_numbers_opens_the_whole_board() {
    for _ in 0..20 {
        let mut game = Game::new(8, 5, 15);
        game.dig((2, 2));
        for y in 0..5usize {
            for x in 0..8usize {
                assert_eq!(game.tiles[y][x].is_mine, x >= 5);
                assert_eq!(game.tiles[y][x].is_revealed, x < 5);
                if x < 4 {
                    assert_eq!(game.tiles[y][x].adjacent_mines, 0);
                }
            }
        }
        assert_eq!(game.unmined_tiles, 15);
        assert_eq!(game.state, GameState::Won);
    }
}

#[test]
fn a_first_dig_without_room_for_the_mines_changes_nothing() {
    let mut game = Game::new(1, 2, 1);
    game.dig((0, 0));
    assert_eq!(game.state, GameState::NotStarted);
    assert!(!game.tiles[0][0].is_revealed && !game.tiles[1][0].is_revealed);
    assert!(!game.tiles[0][0].is_mine && !game.tiles[1][0].is_mine);
    assert_eq!(game.unmined_tiles, 2);
    check_board(&game);

    let mut game = Game::new(6, 6, 12);
    game.dig((2, 2));
    assert_eq!(game.state, GameState::NotStarted);
    assert_eq!(count_tiles(&game, |t| t.is_mine), 0);
    game.dig((0, 0));
    assert!(game.state == GameState::Playing || game.state == GameState::Won);
    assert_eq!(count_tiles(&game, |t| t.is_mine), 12);
    check_board(&game);
}

#[test]
fn mines_keep_the_rounded_distance_of_three() {
    // (3, 0) and (0, 3) are at distance 3; (2, 2) is at distance 2 after rounding down.
    let mut far = [0u32; 2];
    for _ in 0..300 {
        let mut game = Game::new(4, 4, 7);
        game.dig((0, 0));
        assert_eq!(game.state, GameState::Won);
        for y in 0..4usize {
            for x in 0..4usize {
                assert_eq!(game.tiles[y][x].is_mine, x == 3 || y == 3);
            }
        }
        far[0] += game.tiles[0][3].is_mine as u32;
        far[1] += game.tiles[3][0].is_mine as u32;
    }
    assert_eq!(far, [300, 300]);
}

#[test]
fn a_column_one_tile_wide_is_filled() {
    for _ in 0..50 {
        let mut game = Game::new(1, 40, 30);
        game.dig((0, 20));
        assert_eq!(count_tiles(&game, |t| t.is_mine), 30);
        for y in 18..=22usize {
            assert!(!game.tiles[y][0].is_mine);
        }
        check_board(&game);
    }
}

#[test]
fn a_board_with_hardly_a_free_tile_is_filled() {
    let mut game = Game::new(60, 60, 3575);
    game.dig((30, 30));
    assert_eq!(game.state, GameState::Won);
    for y in 0..60i64 {
        for x in 0..60i64 {
            let within = (x - 30).abs() <= 2 && (y - 30).abs() <= 2;
            assert_eq!(game.tiles[y as usize][x as usize].is_mine, !within);
            assert_eq!(game.tiles[y as usize][x as usize].is_revealed, within);
        }
    }
    assert_eq!(game.tiles[30][30].adjacent_mines, 0);
    assert_eq!(game.tiles[28][28].adjacent_mines, 5);
    assert_eq!(game.tiles[28][30].adjacent_mines, 3);
    assert_eq!(game.tiles[0][0].adjacent_mines, 3);
    assert_eq!(game.tiles[10][10].adjacent_mines, 8);
    assert_eq!(game.tiles[27][30].adjacent_mines, 5);
    assert_eq!(game.unmined_tiles, 3575);
    check_board(&game);
}

#[test]
fn the_times_follow_the_commands() {
    fn reading(game_time: minesweeper::Timestamp) -> (i64, u32) {
        (game_time.seconds, game_time.nanoseconds)
    }
    let made = Game::new(10, 8, 10).time_started;
    assert!(made.seconds > 1_600_000_000);
    let mut game = started(10, 8, 10, (4, 4));
    let started = game.time_started;
    assert_eq!(started, game.last_move_time);
    assert!(reading(started) >= reading(made));
    let covered = find_tile(&game, |t| !t.is_revealed).unwrap();
    game.flag(covered);
    assert_eq!(game.time_started, started);
    let moved = game.last_move_time;
    assert!(reading(moved) >= reading(started));
    game.flag(covered);
    assert_eq!(game.last_move_time, moved);
    game.unflag(covered);
    assert!(reading(game.last_move_time) >= reading(moved));
    assert_eq!(game.time_started, started);
}

#[test]
fn a_game_changed_by_hand_is_found_out() {
    let fresh = || {
        let game = started(10, 8, 10, (5, 4));
        assert!(game.is_well_formed());
        game
    };

    let mut game = fresh();
    game.unmined_tiles -= 1;
    assert!(!game.is_well_formed());

    let mut game = fresh();
    game.placed_flag_count += 1;
    assert!(!game.is_well_formed());

    let mut game = fresh();
    game.number_of_mines += 1;
    assert!(!game.is_well_formed());

    let mut game = fresh();
    game.state = GameState::Won;
    assert!(!game.is_well_formed());

    let mut game = fresh();
    game.state = GameState::Lost;
    assert!(!game.is_well_formed());

    let mut game = fresh();
    game.state = GameState::NotStarted;
    assert!(!game.is_well_formed());

    let mut game = fresh();
    game.width = 9;
    assert!(!game.is_well_formed());

    let mut game = fresh();
    game.tiles.pop();
    assert!(!game.is_well_formed());

    let mut game = fresh();
    game.tiles[3].push(Tile::new());
    assert!(!game.is_well_formed());

    let mut game = fresh();
    game.tiles[4][5].is_flagged = true;
    game.placed_flag_count = 1;
    assert!(!game.is_well_formed());

    let mut game = fresh();
    game.tiles[4][5].adjacent_mines = 1;
    assert!(!game.is_well_formed());

    let mut game = fresh();
    game.tiles[4][5].is_revealed = false;
    game.unmined_tiles += 1;
    assert!(!game.is_well_formed());

    let mut game = fresh();
    let mine = find_tile(&game, |t| t.is_mine).unwrap();
    game.tiles[mine.1 as usize][mine.0 as usize].is_revealed = true;
    assert!(!game.is_well_formed());
    game.state = GameState::Lost;
    assert!(game.is_well_formed());

    let mut game = fresh();
    let covered = find_tile(&game, |t| !t.is_revealed && !t.is_mine).unwrap();
    game.tiles[covered.1 as usize][covered.0 as usize].is_flagged = true;
    game.placed_flag_count = 1;
    assert!(game.is_well_formed());

    let mut game = Game::new(10, 8, 10);
    game.tiles[0][0].is_mine = true;
    assert!(!game.is_well_formed());

    let mut game = Game::new(10, 8, 10);
    game.width = 0;
    assert!(!game.is_well_formed());

    let mut game = Game::new(10, 8, 10);
    game.number_of_mines = 80;
    assert!(!game.is_well_formed());
    game.number_of_mines = 0;
    assert!(!game.is_well_formed());
    game.number_of_mines = 79;
    assert!(game.is_well_formed());

    let mut game = Game::new(10, 8, 10);
    game.width = 1 << 20;
    game.height = 1 << 20;
    assert!(!game.is_well_formed());
}
