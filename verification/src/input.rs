//! Reading what a player types: the word that names the size of a new
//! game, and the two coordinates of a move.

use vstd::prelude::*;
use crate::game::Game;

verus! {

/// The byte of a space.
pub const SPACE: u8 = 32;

/// The byte of a plus sign.
pub const PLUS: u8 = 43;

/// The byte of the digit zero.
pub const ZERO: u8 = 48;

/// The byte is a decimal digit.
pub open spec fn is_digit(byte: u8) -> bool {
    ZERO <= byte <= ZERO + 9
}

/// What a digit is worth; other bytes are worth nothing.
pub open spec fn digit_value(byte: u8) -> nat {
    if is_digit(byte) {
        (byte - ZERO) as nat
    } else {
        0
    }
}

/// Every byte is a decimal digit.
pub open spec fn all_digits(bytes: Seq<u8>) -> bool {
    forall|i: int| 0 <= i < bytes.len() ==> is_digit(#[trigger] bytes[i])
}

/// The number that the digits write in base ten.
pub open spec fn decimal(digits: Seq<u8>) -> nat
    decreases digits.len(),
{
    if digits.len() == 0 {
        0
    } else {
        decimal(digits.drop_last()) * 10 + digit_value(digits.last())
    }
}

/// The token without the plus sign that may lead it.
pub open spec fn unsigned_part(token: Seq<u8>) -> Seq<u8> {
    if token.len() > 0 && token[0] == PLUS {
        token.subrange(1, token.len() as int)
    } else {
        token
    }
}

/// The number that a token writes, if it writes one that a `u32` holds:
/// one digit or more, with or without a plus sign before them.
pub open spec fn number_of(token: Seq<u8>) -> Option<u32> {
    let digits = unsigned_part(token);
    if digits.len() > 0 && all_digits(digits) && decimal(digits) <= u32::MAX {
        Some(decimal(digits) as u32)
    } else {
        None
    }
}

/// The index of the first space, or the length where there is none.
pub open spec fn first_space(message: Seq<u8>) -> int
    decreases message.len(),
{
    if message.len() == 0 || message[0] == SPACE {
        0
    } else {
        1 + first_space(message.subrange(1, message.len() as int))
    }
}

/// The coordinates that a message holds: two numbers with one space
/// between them, and nothing else.
pub open spec fn coordinates_of(message: Seq<u8>) -> Option<(u32, u32)> {
    let space = first_space(message);
    if space < message.len() {
        match (
            number_of(message.subrange(0, space)),
            number_of(message.subrange(space + 1, message.len() as int)),
        ) {
            (Some(x), Some(y)) => Some((x, y)),
            _ => None,
        }
    } else {
        None
    }
}

/// The first space is a space, and no space comes before it.
pub proof fn lemma_first_space(message: Seq<u8>)
    ensures
        0 <= first_space(message) <= message.len(),
        first_space(message) < message.len() ==> message[first_space(message)] == SPACE,
        forall|i: int| 0 <= i < first_space(message) ==> #[trigger] message[i] != SPACE,
    decreases message.len(),
{
    if message.len() > 0 && message[0] != SPACE {
        let rest = message.subrange(1, message.len() as int);
        lemma_first_space(rest);
        assert forall|i: int| 0 <= i < first_space(message) implies #[trigger] message[i]
            != SPACE by {
            if i > 0 {
                assert(rest[i - 1] == message[i]);
            }
        }
    }
}

/// Where no space comes before an index that holds a space or ends the
/// message, the index is that of the first space.
pub proof fn lemma_first_space_is(message: Seq<u8>, at: int)
    requires
        0 <= at <= message.len(),
        at < message.len() ==> message[at] == SPACE,
        forall|i: int| 0 <= i < at ==> #[trigger] message[i] != SPACE,
    ensures
        first_space(message) == at,
{
    lemma_first_space(message);
}

/// The start of a row of digits writes no more than the whole row.
pub proof fn lemma_decimal_prefix(digits: Seq<u8>, upto: int)
    requires
        0 <= upto <= digits.len(),
    ensures
        decimal(digits.subrange(0, upto)) <= decimal(digits),
    decreases digits.len(),
{
    if upto == digits.len() {
        assert(digits.subrange(0, upto) =~= digits);
    } else {
        lemma_decimal_prefix(digits.drop_last(), upto);
        assert(digits.drop_last().subrange(0, upto) =~= digits.subrange(0, upto));
    }
}

/// The number that the bytes of the message from `from` up to `to` write,
/// if they write one.
fn parse_number(message: &[u8], from: usize, to: usize) -> (number: Option<u32>)
    requires
        from <= to <= message@.len(),
    ensures
        number == number_of(message@.subrange(from as int, to as int)),
{
    let ghost token = message@.subrange(from as int, to as int);
    let mut at = from;
    if at < to && message[at] == PLUS {
        at = at + 1;
    }
    let ghost digits = unsigned_part(token);
    let start = at;
    if at == to {
        return None;
    }
    let mut value: u64 = 0;
    while at < to
        invariant
            from <= start <= at <= to <= message@.len(),
            token == message@.subrange(from as int, to as int),
            digits == unsigned_part(token),
            digits == message@.subrange(start as int, to as int),
            all_digits(digits.subrange(0, at - start)),
            value == decimal(digits.subrange(0, at - start)),
            value <= u32::MAX,
        decreases to - at,
    {
        let byte = message[at];
        let ghost seen = digits.subrange(0, at - start);
        let ghost more = digits.subrange(0, at - start + 1);
        proof {
            assert(more.drop_last() =~= seen);
            lemma_decimal_prefix(digits, at - start + 1);
        }
        if byte < ZERO || byte > ZERO + 9 {
            return None;
        }
        value = value * 10 + (byte - ZERO) as u64;
        if value > u32::MAX as u64 {
            return None;
        }
        at = at + 1;
    }
    proof {
        assert(digits.subrange(0, at - start) =~= digits);
    }
    Some(value as u32)
}

/// Reads the two coordinates of a move from a message: two numbers with
/// one space between them, and nothing else. A number is one decimal digit
/// or more, with or without a plus sign before them, and no greater than
/// `u32::MAX`.
pub fn process_coordinates(message: &[u8]) -> (coordinates: Option<(u32, u32)>)
    ensures
        coordinates == coordinates_of(message@),
{
    let mut space: usize = 0;
    while space < message.len() && message[space] != SPACE
        invariant
            space <= message@.len(),
            forall|i: int| 0 <= i < space ==> #[trigger] message@[i] != SPACE,
        decreases message@.len() - space,
    {
        space = space + 1;
    }
    proof {
        lemma_first_space_is(message@, space as int);
    }
    if space == message.len() {
        return None;
    }
    let first = parse_number(message, 0, space);
    let second = parse_number(message, space + 1, message.len());
    match (first, second) {
        (Some(x), Some(y)) => Some((x, y)),
        _ => None,
    }
}

/// The letter in lower case, and any other byte as it is.
pub open spec fn lower(byte: u8) -> u8 {
    if 65 <= byte <= 90 {
        (byte + 32) as u8
    } else {
        byte
    }
}

/// The word with its letters in lower case.
pub open spec fn lowered(word: Seq<u8>) -> Seq<u8> {
    Seq::new(word.len(), |i: int| lower(word[i]))
}

/// The bytes of `easy`.
pub open spec fn easy() -> Seq<u8> {
    seq![101u8, 97u8, 115u8, 121u8]
}

/// The bytes of `medium`.
pub open spec fn medium() -> Seq<u8> {
    seq![109u8, 101u8, 100u8, 105u8, 117u8, 109u8]
}

/// The bytes of `hard`.
pub open spec fn hard() -> Seq<u8> {
    seq![104u8, 97u8, 114u8, 100u8]
}

/// The width, the height and the number of mines of the game that a word
/// names, whatever the case of its letters: `easy`, `medium` or `hard`.
pub open spec fn settings_of(word: Seq<u8>) -> Option<(u32, u32, u32)> {
    if lowered(word) == easy() {
        Some((10u32, 8u32, 10u32))
    } else if lowered(word) == medium() {
        Some((18u32, 14u32, 40u32))
    } else if lowered(word) == hard() {
        Some((24u32, 20u32, 99u32))
    } else {
        None
    }
}

/// Whether the word, its letters taken in lower case, is spelled as given.
fn spells(word: &[u8], spelling: &[u8]) -> (same: bool)
    ensures
        same == (lowered(word@) == spelling@),
{
    if word.len() != spelling.len() {
        return false;
    }
    let mut at: usize = 0;
    while at < word.len()
        invariant
            at <= word@.len(),
            word@.len() == spelling@.len(),
            forall|i: int| 0 <= i < at ==> lower(word@[i]) == #[trigger] spelling@[i],
        decreases word@.len() - at,
    {
        let byte = word[at];
        let letter = if byte >= 65 && byte <= 90 {
            byte + 32
        } else {
            byte
        };
        if letter != spelling[at] {
            return false;
        }
        at = at + 1;
    }
    assert(lowered(word@) =~= spelling@);
    true
}

/// The width, the height and the number of mines of the game that a word
/// names: `easy`, `medium` or `hard`, in letters of either case. Each is a
/// board that `Game::new` takes, with room for its mines wherever the first
/// dig lands.
pub fn game_settings(word: &[u8]) -> (settings: Option<(u32, u32, u32)>)
    ensures
        settings == settings_of(word@),
        settings matches Some((width, height, number_of_mines)) ==> {
            &&& width > 0
            &&& height > 0
            &&& number_of_mines > 0
            &&& number_of_mines + 25 <= width * height <= u32::MAX
        },
{
    let easy_word: [u8; 4] = [101, 97, 115, 121];
    let medium_word: [u8; 6] = [109, 101, 100, 105, 117, 109];
    let hard_word: [u8; 4] = [104, 97, 114, 100];
    if spells(word, &easy_word) {
        Some((10, 8, 10))
    } else if spells(word, &medium_word) {
        Some((18, 14, 40))
    } else if spells(word, &hard_word) {
        Some((24, 20, 99))
    } else {
        None
    }
}

impl Game {
    /// The position on the board of the tile that a player names by a
    /// column and a row counted from one, if there is such a tile.
    pub fn board_position(&self, coordinates: (u32, u32)) -> (position: Option<(u32, u32)>)
        ensures
            position == if 1 <= coordinates.0 <= self.width && 1 <= coordinates.1 <= self.height {
                Some(((coordinates.0 - 1) as u32, (coordinates.1 - 1) as u32))
            } else {
                None
            },
    {
        if coordinates.0 == 0 || coordinates.1 == 0 || coordinates.0 > self.width || coordinates.1
            > self.height {
            return None;
        }
        Some((coordinates.0 - 1, coordinates.1 - 1))
    }
}

} // verus!
