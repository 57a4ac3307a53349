//! Which positions the engine can be trusted with.
//!
//! The engine reads any text that is laid out like a position, also one no
//! game could reach, and then works on it as if it were sound. Four kinds
//! of unsound position make it fail, and `board_is_playable` finds them
//! before a move is generated:
//!
//! - more pieces than a game can bring about: the engine writes the moves
//!   of a position into a list of some 250 places without looking at its
//!   end, which the armies of a game never fill but a board crowded with
//!   queens can;
//! - a castling right whose king or rook is not on its home square;
//! - an en-passant square with a piece standing on it;
//! - a king of the side that has just moved standing in check, so that the
//!   side to move could take it.
//!
//! The last is decided by the engine itself: the same board is read once
//! more with the other side to move, and asked whether that side is in check.
//!
//! A sound position can still be one the engine cannot play on from: it
//! counts the plies played, and those since the last capture or pawn move,
//! in sixteen bits. `board_has_room` tells whether both counts leave room.
use pleco::Board;
use vstd::prelude::*;

use crate::engine::{board_fen, board_in_check, board_parse, board_piece, board_plies};
use crate::engine::{board_quiet_plies, MAX_PLIES_PLAYED, MAX_QUIET_PLIES};
use crate::engine::{in_check, parsed_position, piece_on, plies_played, position_text, quiet_plies};
use crate::notation::{count_char, has_char, is_well_shaped, occurrences, split_fields};
use crate::notation::{text_fields, well_shaped};

verus! {

/// Square numbers of the squares that castling starts from.
pub const A1: u8 = 0;

pub const E1: u8 = 4;

pub const H1: u8 = 7;

pub const A8: u8 = 56;

pub const E8: u8 = 60;

pub const H8: u8 = 63;

/// How many pieces a side holds beyond the `given` it begins with.
pub open spec fn surplus(held: nat, given: nat) -> nat {
    if held > given {
        (held - given) as nat
    } else {
        0
    }
}

/// One side's pieces are an army a game can bring about: one king, and
/// every queen, rook, bishop or knight beyond the first set paid for with a
/// pawn.
pub open spec fn army_sound(
    board: Seq<char>,
    king: char,
    queen: char,
    rook: char,
    bishop: char,
    knight: char,
    pawn: char,
) -> bool {
    &&& occurrences(board, king) == 1
    &&& occurrences(board, pawn) + surplus(occurrences(board, queen), 1) + surplus(
        occurrences(board, rook),
        2,
    ) + surplus(occurrences(board, bishop), 2) + surplus(occurrences(board, knight), 2) <= 8
}

/// Both sides hold armies a game can bring about.
pub open spec fn material_sound(text: Seq<char>) -> bool {
    let fields = text_fields(text);
    &&& fields.len() >= 1
    &&& army_sound(fields[0], 'K', 'Q', 'R', 'B', 'N', 'P')
    &&& army_sound(fields[0], 'k', 'q', 'r', 'b', 'n', 'p')
}

/// A castling right, written `mark` in `rights`, is backed by the pieces:
/// where the mark stands, `king` is on `king_sq` and `rook` on `rook_sq`.
pub open spec fn right_is_backed(
    text: Seq<char>,
    rights: Seq<char>,
    mark: char,
    king: char,
    king_sq: u8,
    rook: char,
    rook_sq: u8,
) -> bool {
    rights.contains(mark) ==> piece_on(text, king_sq) == Some(king) && piece_on(text, rook_sq)
        == Some(rook)
}

/// Every castling right the text grants has its king and its rook at home.
pub open spec fn castling_sound(text: Seq<char>) -> bool {
    let fields = text_fields(text);
    &&& fields.len() >= 3
    &&& right_is_backed(text, fields[2], 'K', 'K', E1, 'R', H1)
    &&& right_is_backed(text, fields[2], 'Q', 'K', E1, 'R', A1)
    &&& right_is_backed(text, fields[2], 'k', 'k', E8, 'r', H8)
    &&& right_is_backed(text, fields[2], 'q', 'k', E8, 'r', A8)
}

/// The number of the square a field names, as in `e3`: the file's letter,
/// then the rank's digit. `None` for a field that names no square.
pub open spec fn square_named(field: Seq<char>) -> Option<u8> {
    if field.len() == 2 && 'a' <= field[0] <= 'h' && '1' <= field[1] <= '8' {
        Some(((field[1] as u8 - '1' as u8) * 8 + (field[0] as u8 - 'a' as u8)) as u8)
    } else {
        None
    }
}

/// The square a pawn can be taken on in passing, where the text names one,
/// is empty.
pub open spec fn en_passant_sound(text: Seq<char>) -> bool {
    let fields = text_fields(text);
    &&& fields.len() >= 4
    &&& match square_named(fields[3]) {
        Some(sq) => piece_on(text, sq) is None,
        None => true,
    }
}

/// The mark of the side that is not to move, given the mark of the one that is.
pub open spec fn other_side(side: Seq<char>) -> Seq<char> {
    if side == seq!['w'] {
        seq!['b']
    } else {
        seq!['w']
    }
}

/// The text of the same board with the other side to move: the pieces, the
/// other side's mark, the castling rights, and no en-passant square.
pub open spec fn turned(text: Seq<char>) -> Seq<char> {
    let fields = text_fields(text);
    fields[0] + seq![' '] + other_side(fields[1]) + seq![' '] + fields[2] + seq![' ', '-']
}

/// The side that is not to move is not in check: the engine reads the
/// turned text and finds the side to move there out of check.
pub open spec fn waiting_king_safe(text: Seq<char>) -> bool {
    let other = turned(text);
    &&& well_shaped(other)
    &&& match parsed_position(other) {
        Some(seen) => !in_check(seen),
        None => false,
    }
}

/// A position the engine can generate, play and search moves in.
pub open spec fn playable(text: Seq<char>) -> bool {
    &&& material_sound(text)
    &&& castling_sound(text)
    &&& en_passant_sound(text)
    &&& waiting_king_safe(text)
}

/// The engine's counters leave room to play on from the position, as far
/// as a search may go.
pub open spec fn has_room(text: Seq<char>) -> bool {
    plies_played(text) <= MAX_PLIES_PLAYED && quiet_plies(text) <= MAX_QUIET_PLIES
}

/// Whether the engine's counters leave room to play on from the board's
/// position.
pub fn board_has_room(board: &Board) -> (ok: bool)
    ensures
        ok == has_room(position_text(*board)),
{
    board_plies(board) <= MAX_PLIES_PLAYED && board_quiet_plies(board) <= MAX_QUIET_PLIES
}

/// Counts the pieces written `piece` that a side holds beyond the `given`
/// it begins with, as far as a game allows: `None` for more than eight.
fn count_surplus(board: &str, piece: char, given: usize) -> (extra: Option<usize>)
    requires
        given <= 2,
    ensures
        match extra {
            Some(n) => n == surplus(occurrences(board@, piece), given as nat) && n <= 8,
            None => surplus(occurrences(board@, piece), given as nat) > 8,
        },
{
    let held = count_char(board, piece);
    if held > given + 8 {
        None
    } else if held > given {
        Some(held - given)
    } else {
        Some(0)
    }
}

/// Whether one side's pieces are an army a game can bring about.
pub fn army_is_sound(
    board: &str,
    king: char,
    queen: char,
    rook: char,
    bishop: char,
    knight: char,
    pawn: char,
) -> (ok: bool)
    ensures
        ok == army_sound(board@, king, queen, rook, bishop, knight, pawn),
{
    if count_char(board, king) != 1 {
        return false;
    }
    let pawns = count_char(board, pawn);
    if pawns > 8 {
        return false;
    }
    match (
        count_surplus(board, queen, 1),
        count_surplus(board, rook, 2),
        count_surplus(board, bishop, 2),
        count_surplus(board, knight, 2),
    ) {
        (Some(queens), Some(rooks), Some(bishops), Some(knights)) => pawns + queens + rooks
            + bishops + knights <= 8,
        _ => false,
    }
}

/// Whether `piece` stands on square `sq` of the board.
fn stands_on(board: &Board, sq: u8, piece: char) -> (ok: bool)
    requires
        sq < 64,
    ensures
        ok == (piece_on(position_text(*board), sq) == Some(piece)),
{
    match board_piece(board, sq) {
        Some(c) => c == piece,
        None => false,
    }
}

/// Whether the right written `mark` is absent from `rights` or backed by
/// its king and rook.
fn right_holds(
    board: &Board,
    rights: &str,
    mark: char,
    king: char,
    king_sq: u8,
    rook: char,
    rook_sq: u8,
) -> (ok: bool)
    requires
        king_sq < 64,
        rook_sq < 64,
    ensures
        ok == right_is_backed(position_text(*board), rights@, mark, king, king_sq, rook, rook_sq),
{
    if has_char(rights, mark) {
        stands_on(board, king_sq, king) && stands_on(board, rook_sq, rook)
    } else {
        true
    }
}

/// Reads a square's number from a field that names one.
pub fn read_square(field: &str) -> (sq: Option<u8>)
    ensures
        sq == square_named(field@),
        sq matches Some(n) ==> n < 64,
{
    if field.unicode_len() != 2 {
        return None;
    }
    let file = field.get_char(0);
    let rank = field.get_char(1);
    if 'a' <= file && file <= 'h' && '1' <= rank && rank <= '8' {
        let column: u8 = file as u8 - 'a' as u8;
        let row: u8 = rank as u8 - '1' as u8;
        Some(row * 8 + column)
    } else {
        None
    }
}

/// Whether square `sq` of the board is empty.
fn is_empty(board: &Board, sq: u8) -> (ok: bool)
    requires
        sq < 64,
    ensures
        ok == (piece_on(position_text(*board), sq) is None),
{
    board_piece(board, sq).is_none()
}

/// Whether `side` is White's mark.
fn is_white_mark(side: &str) -> (white: bool)
    ensures
        white == (side@ == seq!['w']),
{
    if side.unicode_len() == 1 {
        let c = side.get_char(0);
        proof {
            if c == 'w' {
                assert(side@ =~= seq!['w']);
            }
        }
        c == 'w'
    } else {
        false
    }
}

/// Writes the text of the same board with the other side to move.
fn turn_text(board_field: &str, side: &str, rights: &str) -> (other: String)
    ensures
        other@ == board_field@ + seq![' '] + other_side(side@) + seq![' '] + rights@ + seq![
            ' ',
            '-',
        ],
{
    proof {
        reveal_strlit(" ");
        reveal_strlit("b");
        reveal_strlit("w");
        reveal_strlit(" -");
    }
    let mut other = board_field.to_owned();
    other.append(" ");
    if is_white_mark(side) {
        other.append("b");
        assert(other@ =~= board_field@ + seq![' '] + other_side(side@));
    } else {
        other.append("w");
        assert(other@ =~= board_field@ + seq![' '] + other_side(side@));
    }
    other.append(" ");
    other.append(rights);
    other.append(" -");
    assert(other@ =~= board_field@ + seq![' '] + other_side(side@) + seq![' '] + rights@ + seq![
        ' ',
        '-',
    ]);
    other
}

/// Whether the board shows a position the engine can be trusted with.
pub fn board_is_playable(board: &Board) -> (ok: bool)
    ensures
        ok == playable(position_text(*board)),
{
    let text = board_fen(board);
    let fields = split_fields(text.as_str());
    if fields.len() < 4 {
        return false;
    }
    let pieces = fields[0].as_str();
    if !army_is_sound(pieces, 'K', 'Q', 'R', 'B', 'N', 'P') {
        return false;
    }
    if !army_is_sound(pieces, 'k', 'q', 'r', 'b', 'n', 'p') {
        return false;
    }
    let rights = fields[2].as_str();
    if !right_holds(board, rights, 'K', 'K', E1, 'R', H1) {
        return false;
    }
    if !right_holds(board, rights, 'Q', 'K', E1, 'R', A1) {
        return false;
    }
    if !right_holds(board, rights, 'k', 'k', E8, 'r', H8) {
        return false;
    }
    if !right_holds(board, rights, 'q', 'k', E8, 'r', A8) {
        return false;
    }
    match read_square(fields[3].as_str()) {
        Some(sq) => {
            if !is_empty(board, sq) {
                return false;
            }
        },
        None => {},
    }
    let other = turn_text(pieces, fields[1].as_str(), rights);
    assert(other@ == turned(text@));
    if !is_well_shaped(other.as_str()) {
        return false;
    }
    match board_parse(other.as_str()) {
        Ok(seen) => !board_in_check(&seen),
        Err(_) => false,
    }
}

} // verus!
