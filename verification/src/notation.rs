//! The shape a position text must have before the engine is asked to read it.
//!
//! The engine's reader answers most malformed texts with an error, but on a
//! few it stops the program: a rank that runs past its eighth square and
//! goes on, a board without exactly one king a side, a castling field with
//! a mark it does not know, a move number of zero or one too large to
//! double. `is_well_shaped` finds those texts first. It cuts
//! the text into fields with the very function the engine's reader uses, so
//! both look at the same fields.
use vstd::prelude::*;

verus! {

/// The largest full-move number the engine can turn into a count of plies.
pub const MAX_MOVE_NUMBER: u16 = 32768;

/// The fields `str::split_whitespace` cuts a text into, in order.
pub uninterp spec fn text_fields(text: Seq<char>) -> Seq<Seq<char>>;

/// The number `str::parse::<u16>` reads from a field, or `None` where it
/// reads none.
pub uninterp spec fn counter_value(field: Seq<char>) -> Option<u16>;

/// How often `c` occurs in `s`.
pub open spec fn occurrences(s: Seq<char>, c: char) -> nat
    decreases s.len(),
{
    if s.len() == 0 {
        0
    } else {
        occurrences(s.drop_last(), c) + if s.last() == c {
            1nat
        } else {
            0nat
        }
    }
}

/// The column a rank has reached after `c`, having stood at `col`: a slash
/// begins the next rank, a digit skips that many squares, any other mark
/// takes one.
pub open spec fn column_after(col: int, c: char) -> int {
    if c == '/' {
        0
    } else if '0' <= c <= '9' {
        col + (c as int - '0' as int)
    } else {
        col + 1
    }
}

/// Every mark of the board field, read from column `col` on, begins within
/// the eight squares of its rank.
pub open spec fn ranks_fit_from(field: Seq<char>, col: int) -> bool
    decreases field.len(),
{
    if field.len() == 0 {
        true
    } else {
        &&& field[0] == '/' || col <= 7
        &&& ranks_fit_from(field.drop_first(), column_after(col, field[0]))
    }
}

/// No rank of the board field goes on after it has run past its eighth
/// square.
pub open spec fn ranks_fit(field: Seq<char>) -> bool {
    ranks_fit_from(field, 0)
}

/// The marks a castling field is made of.
pub open spec fn is_castling_mark(c: char) -> bool {
    c == 'K' || c == 'Q' || c == 'k' || c == 'q' || c == '-'
}

/// A field that holds castling marks and nothing else.
pub open spec fn only_castling_marks(field: Seq<char>) -> bool {
    forall|i: int| 0 <= i < field.len() ==> is_castling_mark(#[trigger] field[i])
}

/// A move-number field the engine can take: one that is no number at all,
/// which it refuses or skips, or a number from 1 to `MAX_MOVE_NUMBER`.
pub open spec fn counter_in_range(field: Seq<char>) -> bool {
    match counter_value(field) {
        Some(n) => 1 <= n <= MAX_MOVE_NUMBER,
        None => true,
    }
}

/// A position text the engine can be asked to read: four to six fields,
/// ranks that fit and one king of each colour among the pieces, castling
/// marks only in the third field and, where there is a sixth, a move number
/// in range.
pub open spec fn well_shaped(text: Seq<char>) -> bool {
    let fields = text_fields(text);
    &&& 4 <= fields.len() <= 6
    &&& ranks_fit(fields[0])
    &&& occurrences(fields[0], 'K') == 1
    &&& occurrences(fields[0], 'k') == 1
    &&& only_castling_marks(fields[2])
    &&& (fields.len() == 6 ==> counter_in_range(fields[5]))
}

/// `str::split_whitespace`, each field copied into a `String`. Its result
/// is, by definition, the fields of the text.
#[verifier::external_body]
pub(crate) fn split_fields(text: &str) -> (fields: Vec<String>)
    ensures
        fields@.len() == text_fields(text@).len(),
        forall|i: int| 0 <= i < fields@.len() ==> (#[trigger] fields@[i])@ == text_fields(text@)[i],
{
    text.split_whitespace().map(String::from).collect()
}

/// `str::parse::<u16>`, the error dropped.
#[verifier::external_body]
fn parse_counter(field: &str) -> (r: Option<u16>)
    ensures
        r == counter_value(field@),
{
    field.parse::<u16>().ok()
}

/// Counts the occurrences of `c` in `field`.
pub fn count_char(field: &str, c: char) -> (n: usize)
    ensures
        n == occurrences(field@, c),
{
    let len = field.unicode_len();
    let mut n: usize = 0;
    let mut i: usize = 0;
    while i < len
        invariant
            i <= len,
            len == field@.len(),
            n == occurrences(field@.subrange(0, i as int), c),
            n <= i,
        decreases len - i,
    {
        let ch = field.get_char(i);
        proof {
            assert(field@.subrange(0, i + 1).drop_last() =~= field@.subrange(0, i as int));
        }
        if ch == c {
            n += 1;
        }
        i += 1;
    }
    proof {
        assert(field@.subrange(0, len as int) =~= field@);
    }
    n
}

/// Whether no rank of the board field goes on after it has run past its
/// eighth square.
pub fn ranks_do_fit(field: &str) -> (ok: bool)
    ensures
        ok == ranks_fit(field@),
{
    let len = field.unicode_len();
    let mut col: u8 = 0;
    let mut i: usize = 0;
    proof {
        assert(field@.skip(0) =~= field@);
    }
    while i < len
        invariant
            i <= len,
            len == field@.len(),
            col <= 16,
            ranks_fit(field@) == ranks_fit_from(field@.skip(i as int), col as int),
        decreases len - i,
    {
        let c = field.get_char(i);
        proof {
            assert(field@.skip(i as int)[0] == c);
            assert(field@.skip(i as int).drop_first() =~= field@.skip(i + 1));
        }
        if c == '/' {
            col = 0;
        } else {
            if col > 7 {
                return false;
            }
            if '0' <= c && c <= '9' {
                col = col + (c as u8 - '0' as u8);
            } else {
                col = col + 1;
            }
        }
        i += 1;
    }
    true
}

/// Whether `c` occurs in `field`.
pub fn has_char(field: &str, c: char) -> (found: bool)
    ensures
        found == field@.contains(c),
{
    let len = field.unicode_len();
    let mut i: usize = 0;
    while i < len
        invariant
            i <= len,
            len == field@.len(),
            forall|j: int| 0 <= j < i ==> field@[j] != c,
        decreases len - i,
    {
        if field.get_char(i) == c {
            return true;
        }
        i += 1;
    }
    false
}

/// Whether `field` holds castling marks and nothing else.
pub fn holds_castling_marks(field: &str) -> (ok: bool)
    ensures
        ok == only_castling_marks(field@),
{
    let len = field.unicode_len();
    let mut i: usize = 0;
    while i < len
        invariant
            i <= len,
            len == field@.len(),
            forall|j: int| 0 <= j < i ==> is_castling_mark(#[trigger] field@[j]),
        decreases len - i,
    {
        let ch = field.get_char(i);
        if !(ch == 'K' || ch == 'Q' || ch == 'k' || ch == 'q' || ch == '-') {
            return false;
        }
        i += 1;
    }
    true
}

/// Whether a move number read from a field is one the engine can take.
pub fn counter_fits(value: Option<u16>) -> (ok: bool)
    ensures
        ok == match value {
            Some(n) => 1 <= n <= MAX_MOVE_NUMBER,
            None => true,
        },
{
    match value {
        Some(n) => 1 <= n && n <= MAX_MOVE_NUMBER,
        None => true,
    }
}

/// Whether the engine can be asked to read `text`.
pub fn is_well_shaped(text: &str) -> (ok: bool)
    ensures
        ok == well_shaped(text@),
{
    let fields = split_fields(text);
    if fields.len() < 4 || fields.len() > 6 {
        return false;
    }
    if !ranks_do_fit(fields[0].as_str()) {
        return false;
    }
    if count_char(fields[0].as_str(), 'K') != 1 {
        return false;
    }
    if count_char(fields[0].as_str(), 'k') != 1 {
        return false;
    }
    if !holds_castling_marks(fields[2].as_str()) {
        return false;
    }
    if fields.len() == 6 {
        return counter_fits(parse_counter(fields[5].as_str()));
    }
    true
}

} // verus!
