use minesweeper::input::{game_settings, process_coordinates};
use minesweeper::Game;

/// The coordinates of a message as the standard library reads them: the
/// message split at every space, each part parsed as a `u32`.
fn by_the_standard_library(message: &str) -> Option<(u32, u32)> {
    let parts: Vec<&str> = message.split(' ').collect();
    if parts.len() != 2 {
        return None;
    }
    match (parts[0].parse::<u32>(), parts[1].parse::<u32>()) {
        (Ok(x), Ok(y)) => Some((x, y)),
        _ => None,
    }
}

#[test]
fn coordinates_are_read() {
    assert_eq!(process_coordinates(b"3 4"), Some((3, 4)));
    assert_eq!(process_coordinates(b"0 0"), Some((0, 0)));
    assert_eq!(process_coordinates(b"10 8"), Some((10, 8)));
    assert_eq!(process_coordinates(b"+10 +8"), Some((10, 8)));
    assert_eq!(process_coordinates(b"007 0010"), Some((7, 10)));
    assert_eq!(process_coordinates(b"4294967295 1"), Some((4294967295, 1)));
    assert_eq!(process_coordinates(b"1 4294967295"), Some((1, 4294967295)));
    assert_eq!(
        process_coordinates(b"000000000000000000000000000012 5"),
        Some((12, 5))
    );
}

#[test]
fn what_is_no_pair_of_numbers_is_refused() {
    for message in [
        "", " ", "3", "3 ", " 3", "3  4", "3 4 ", " 3 4", "3 4 5", "3,4", "a b", "3 b", "a 4",
        "-3 4", "3 -4", "+ 4", "3 +", "++3 4", "3+ 4", "3.0 4", "0x3 4", "4294967296 1",
        "1 4294967296", "99999999999999999999 1", "1 99999999999999999999", "3\t4", "3\n4",
        "\u{ff13} 4",
    ] {
        assert_eq!(process_coordinates(message.as_bytes()), None, "{:?}", message);
    }
}

#[test]
fn coordinates_are_read_as_the_standard_library_reads_them() {
    let tokens = [
        "", "0", "1", "9", "10", "+1", "-1", "+", "-", "007", "+007", "4294967295", "4294967296",
        "42949672950", "+4294967295", "99999999999999999999", "1a", "a", "a1", "1+", "++1", "1.5",
        "\u{e9}", "\u{ff11}", "0000000000000000000000001",
    ];
    let mut read = 0;
    for first in tokens {
        assert_eq!(
            process_coordinates(first.as_bytes()),
            by_the_standard_library(first)
        );
        for second in tokens {
            for message in [
                format!("{} {}", first, second),
                format!("{}{}", first, second),
                format!("{}  {}", first, second),
                format!("{} {} ", first, second),
                format!(" {} {}", first, second),
                format!("{} {} {}", first, second, first),
            ] {
                let expected = by_the_standard_library(&message);
                assert_eq!(process_coordinates(message.as_bytes()), expected, "{:?}", message);
                if expected.is_some() {
                    read += 1;
                }
            }
        }
    }
    assert!(read >= 81);
}

#[test]
fn the_word_names_the_size_of_the_game() {
    assert_eq!(game_settings(b"easy"), Some((10, 8, 10)));
    assert_eq!(game_settings(b"medium"), Some((18, 14, 40)));
    assert_eq!(game_settings(b"hard"), Some((24, 20, 99)));
    assert_eq!(game_settings(b"EASY"), Some((10, 8, 10)));
    assert_eq!(game_settings(b"Medium"), Some((18, 14, 40)));
    assert_eq!(game_settings(b"hArD"), Some((24, 20, 99)));
    for word in [
        "", "eas", "easy ", " easy", "easyy", "harder", "har", "mediu", "extreme", "e\u{e4}sy",
        "%asy", "EAS\u{79}\u{301}", "\u{45}asy\u{0}",
    ] {
        assert_eq!(game_settings(word.as_bytes()), None, "{:?}", word);
    }
    for word in [
        "easy", "Easy", "MEDIUM", "medium", "HARD", "hard", "impossible", "", "\u{c9}asy",
    ] {
        let expected = match word.to_ascii_lowercase().as_str() {
            "easy" => Some((10, 8, 10)),
            "medium" => Some((18, 14, 40)),
            "hard" => Some((24, 20, 99)),
            _ => None,
        };
        assert_eq!(game_settings(word.as_bytes()), expected);
    }
}

#[test]
fn every_named_game_starts_wherever_it_is_dug() {
    for word in ["easy", "medium", "hard"] {
        let (width, height, mines) = game_settings(word.as_bytes()).unwrap();
        let corners = [(0, 0), (width - 1, 0), (0, height - 1), (width - 1, height - 1)];
        for dug in corners.into_iter().chain([(width / 2, height / 2)]) {
            let mut game = Game::try_new(width, height, mines).unwrap();
            game.dig(dug);
            assert!(game.is_well_formed());
            assert_ne!(game.state, minesweeper::GameState::NotStarted);
        }
    }
}

#[test]
fn coordinates_counted_from_one_name_a_position() {
    let game = Game::new(10, 8, 10);
    assert_eq!(game.board_position((1, 1)), Some((0, 0)));
    assert_eq!(game.board_position((10, 8)), Some((9, 7)));
    assert_eq!(game.board_position((3, 5)), Some((2, 4)));
    assert_eq!(game.board_position((0, 1)), None);
    assert_eq!(game.board_position((1, 0)), None);
    assert_eq!(game.board_position((0, 0)), None);
    assert_eq!(game.board_position((11, 8)), None);
    assert_eq!(game.board_position((10, 9)), None);
    assert_eq!(game.board_position((u32::MAX, u32::MAX)), None);
}
