//! Pure derivation of on-screen pixel positions from logical grid coordinates.
//!
//! A cursor occupies a whole swimlane cell, positioned by [`cell_transform`];
//! a node occupies a sub-rectangle inset by the node margins, positioned by
//! [`node_transform`]. Positions are signed pixel offsets; a transform is the
//! SVG-style string `translate(x,y)` for such an offset.

use vstd::prelude::*;
use vstd::string::StringExecFns;
use crate::constants::{
    SWIMLANE_COL_WIDTH, SWIMLANE_HEIGHT, NODE_MARGIN_X, NODE_MARGIN_Y, NODE_WIDTH, NODE_HEIGHT,
};

verus! {

/// A column index whose pixel offsets fit in `isize`.
pub open spec fn valid_col(col: usize) -> bool {
    (col as int + 1) * (SWIMLANE_COL_WIDTH as int) <= isize::MAX as int
}

/// A row index whose pixel offsets fit in `isize`.
pub open spec fn valid_row(row: usize) -> bool {
    (row as int + 1) * (SWIMLANE_HEIGHT as int) <= isize::MAX as int
}

/// Pixel x-offset of the left edge of the cell in column `col`.
pub open spec fn spec_cell_left(col: usize) -> int {
    col as int * SWIMLANE_COL_WIDTH as int
}

/// Pixel y-offset of the top edge of the cell in row `row`.
pub open spec fn spec_cell_top(row: usize) -> int {
    row as int * SWIMLANE_HEIGHT as int
}

/// Pixel x-offset of the left edge of a node's box in column `col`.
pub open spec fn spec_node_left(col: usize) -> int {
    spec_cell_left(col) + NODE_MARGIN_X as int
}

/// Pixel y-offset of the top edge of a node's box in row `row`.
pub open spec fn spec_node_top(row: usize) -> int {
    spec_cell_top(row) + NODE_MARGIN_Y as int
}

/// Left edge of the cell in column `col`.
pub fn cell_left(col: usize) -> (r: isize)
    requires
        valid_col(col),
    ensures
        r as int == spec_cell_left(col),
{
    (col as isize) * SWIMLANE_COL_WIDTH
}

/// Top edge of the cell in row `row`.
pub fn cell_top(row: usize) -> (r: isize)
    requires
        valid_row(row),
    ensures
        r as int == spec_cell_top(row),
{
    (row as isize) * SWIMLANE_HEIGHT
}

/// Left edge of a node's box in column `col`.
pub fn node_left(col: usize) -> (r: isize)
    requires
        valid_col(col),
    ensures
        r as int == spec_node_left(col),
{
    cell_left(col) + NODE_MARGIN_X
}

/// Top edge of a node's box in row `row`.
pub fn node_top(row: usize) -> (r: isize)
    requires
        valid_row(row),
    ensures
        r as int == spec_node_top(row),
{
    cell_top(row) + NODE_MARGIN_Y
}

/// The character that writes the decimal digit `d`.
pub open spec fn digit_char(d: int) -> char {
    if d == 0 {
        '0'
    } else if d == 1 {
        '1'
    } else if d == 2 {
        '2'
    } else if d == 3 {
        '3'
    } else if d == 4 {
        '4'
    } else if d == 5 {
        '5'
    } else if d == 6 {
        '6'
    } else if d == 7 {
        '7'
    } else if d == 8 {
        '8'
    } else {
        '9'
    }
}

/// Decimal digits of a non-negative integer, most significant first,
/// without a sign and without leading zeros (but `0` itself is "0").
pub open spec fn spec_dec_nat(n: nat) -> Seq<char>
    decreases n,
{
    if n < 10 {
        seq![digit_char(n as int)]
    } else {
        spec_dec_nat(n / 10).push(digit_char((n % 10) as int))
    }
}

/// Decimal writing of an integer: a leading '-' when it is negative.
pub open spec fn spec_dec(n: int) -> Seq<char> {
    if n < 0 {
        seq!['-'] + spec_dec_nat((-n) as nat)
    } else {
        spec_dec_nat(n as nat)
    }
}

/// The transform string for a translation by `(x, y)` pixels.
pub open spec fn spec_translate(x: int, y: int) -> Seq<char> {
    "translate("@ + spec_dec(x) + ","@ + spec_dec(y) + ")"@
}

/// The transform string that places the cell in row `row`, column `col`.
pub open spec fn spec_cell_transform(row: usize, col: usize) -> Seq<char> {
    spec_translate(spec_cell_left(col), spec_cell_top(row))
}

/// The transform string that places a node's box in row `row`, column `col`.
pub open spec fn spec_node_transform(row: usize, col: usize) -> Seq<char> {
    spec_translate(spec_node_left(col), spec_node_top(row))
}

/// One decimal digit as a string slice.
fn digit_str(d: u8) -> (r: &'static str)
    requires
        d < 10,
    ensures
        r@ == seq![digit_char(d as int)],
{
    proof {
        reveal_strlit("0");
        reveal_strlit("1");
        reveal_strlit("2");
        reveal_strlit("3");
        reveal_strlit("4");
        reveal_strlit("5");
        reveal_strlit("6");
        reveal_strlit("7");
        reveal_strlit("8");
        reveal_strlit("9");
    }
    match d {
        0 => "0",
        1 => "1",
        2 => "2",
        3 => "3",
        4 => "4",
        5 => "5",
        6 => "6",
        7 => "7",
        8 => "8",
        _ => "9",
    }
}

/// The digit characters of `ds`, in reverse order of `ds`.
spec fn rev_digit_chars(ds: Seq<u8>) -> Seq<char> {
    ds.map_values(|d: u8| digit_char(d as int)).reverse()
}

/// Decimal string of `n`, as std's formatting would write it.
pub fn isize_to_string(n: isize) -> (r: String)
    ensures
        r@ == spec_dec(n as int),
{
    let mut s = String::new();
    let mut m: i128 = n as i128;
    if m < 0 {
        s.append("-");
        m = -m;
    }
    let ghost m0: nat = m as nat;
    let ghost sign: Seq<char> = if n < 0 { seq!['-'] } else { Seq::empty() };
    proof {
        reveal_strlit("-");
        assert(s@ =~= sign);
    }
    let mut digits: Vec<u8> = Vec::new();
    while m >= 10
        invariant
            0 <= m <= m0,
            spec_dec_nat(m0) =~= spec_dec_nat(m as nat) + rev_digit_chars(digits@),
            forall|i: int| 0 <= i < digits@.len() ==> #[trigger] digits@[i] < 10,
        decreases m,
    {
        let d: u8 = (m % 10) as u8;
        let ghost pre = digits@;
        digits.push(d);
        proof {
            assert(digits@.map_values(|d: u8| digit_char(d as int)) =~= pre.map_values(
                |d: u8| digit_char(d as int),
            ).push(digit_char(d as int)));
            assert(rev_digit_chars(digits@) =~= seq![digit_char(d as int)] + rev_digit_chars(pre));
            assert(spec_dec_nat((m / 10) as nat) + rev_digit_chars(digits@) =~= spec_dec_nat(
                (m / 10) as nat,
            ).push(digit_char((m % 10) as int)) + rev_digit_chars(pre));
        }
        m = m / 10;
    }
    let d: u8 = m as u8;
    let ghost pre = digits@;
    digits.push(d);
    proof {
        assert(digits@.map_values(|d: u8| digit_char(d as int)) =~= pre.map_values(
            |d: u8| digit_char(d as int),
        ).push(digit_char(d as int)));
        assert(rev_digit_chars(digits@) =~= seq![digit_char(d as int)] + rev_digit_chars(pre));
        assert(spec_dec_nat(m0) =~= rev_digit_chars(digits@));
    }
    let mut j: usize = 0;
    while j < digits.len()
        invariant
            0 <= j <= digits@.len(),
            forall|i: int| 0 <= i < digits@.len() ==> #[trigger] digits@[i] < 10,
            spec_dec_nat(m0) =~= rev_digit_chars(digits@),
            s@ =~= sign + rev_digit_chars(digits@).take(j as int),
        decreases digits@.len() - j,
    {
        let d = digits[digits.len() - 1 - j];
        s.append(digit_str(d));
        proof {
            assert(rev_digit_chars(digits@)[j as int] == digit_char(
                digits@[digits@.len() - 1 - j] as int,
            ));
            assert(rev_digit_chars(digits@).take(j as int + 1) =~= rev_digit_chars(digits@).take(
                j as int,
            ).push(rev_digit_chars(digits@)[j as int]));
        }
        j = j + 1;
    }
    proof {
        assert(rev_digit_chars(digits@).take(digits@.len() as int) =~= rev_digit_chars(digits@));
        assert(s@ =~= spec_dec(n as int));
    }
    s
}

/// The transform string `translate(x,y)`.
pub fn translate_string(x: isize, y: isize) -> (r: String)
    ensures
        r@ == spec_translate(x as int, y as int),
{
    let mut s = String::from_str("translate(");
    let xs = isize_to_string(x);
    s.append(xs.as_str());
    s.append(",");
    let ys = isize_to_string(y);
    s.append(ys.as_str());
    s.append(")");
    proof {
        assert(s@ =~= spec_translate(x as int, y as int));
    }
    s
}

/// Transform placing the whole cell in row `row`, column `col`; a cursor
/// occupies a full cell.
pub fn cell_transform(row: usize, col: usize) -> (r: String)
    requires
        valid_row(row),
        valid_col(col),
    ensures
        r@ == spec_cell_transform(row, col),
{
    let left = cell_left(col);
    let top = cell_top(row);
    translate_string(left, top)
}

/// Transform placing a node's inset box in row `row`, column `col`.
pub fn node_transform(row: usize, col: usize) -> (r: String)
    requires
        valid_row(row),
        valid_col(col),
    ensures
        r@ == spec_node_transform(row, col),
{
    let left = node_left(col);
    let top = node_top(row);
    translate_string(left, top)
}

/// Law: a node's position offsets its cell's position by exactly the node
/// margins, and on each axis the node's box plus its two margins partitions
/// the cell exactly.
pub proof fn lemma_node_offsets_cell(row: usize, col: usize)
    ensures
        spec_node_left(col) == spec_cell_left(col) + NODE_MARGIN_X as int,
        spec_node_top(row) == spec_cell_top(row) + NODE_MARGIN_Y as int,
        NODE_WIDTH as int + 2 * NODE_MARGIN_X as int == SWIMLANE_COL_WIDTH as int,
        NODE_HEIGHT as int + 2 * NODE_MARGIN_Y as int == SWIMLANE_HEIGHT as int,
{
}

} // verus!
