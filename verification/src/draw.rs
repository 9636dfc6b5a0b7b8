//! Drawing operations: what rendering produces, for a terminal to carry out.

use vstd::prelude::*;
use crate::text::string_of;

verus! {

/// One thing to do to the terminal. Rows and columns count from zero at the
/// top left of a surface; drawing goes to the surface last selected.
#[derive(Debug, Clone, PartialEq, Eq)]
pub enum DrawOp {
    /// Create a surface of this size, after those that exist.
    OpenSurface { rows: i32, cols: i32 },
    /// Destroy the surface at this position; later ones move up by one.
    CloseSurface { index: usize },
    /// Direct what follows to the surface at this position.
    Select { index: usize },
    /// `len` blank cells from `(row, col)` to the right, drawn with the
    /// attributes `attr`.
    Rule { row: i32, col: i32, len: i32, attr: u64 },
    /// `text` from `(row, col)` to the right.
    Text { row: i32, col: i32, text: String },
    /// Make the cursor visible.
    ShowCursor,
    /// Bring the selected surface to the screen.
    Flush,
    /// Leave the terminal as it was found and end with this status.
    Exit { status: i32 },
}

/// A drawing operation as contracts see it.
pub ghost enum Draw {
    OpenSurface { rows: int, cols: int },
    CloseSurface { index: int },
    Select { index: int },
    Rule { row: int, col: int, len: int, attr: int },
    Text { row: int, col: int, text: Seq<char> },
    ShowCursor,
    Flush,
    Exit { status: int },
}

impl View for DrawOp {
    type V = Draw;

    open spec fn view(&self) -> Draw {
        match *self {
            DrawOp::OpenSurface { rows, cols } => Draw::OpenSurface {
                rows: rows as int,
                cols: cols as int,
            },
            DrawOp::CloseSurface { index } => Draw::CloseSurface { index: index as int },
            DrawOp::Select { index } => Draw::Select { index: index as int },
            DrawOp::Rule { row, col, len, attr } => Draw::Rule {
                row: row as int,
                col: col as int,
                len: len as int,
                attr: attr as int,
            },
            DrawOp::Text { row, col, text } => Draw::Text {
                row: row as int,
                col: col as int,
                text: text@,
            },
            DrawOp::ShowCursor => Draw::ShowCursor,
            DrawOp::Flush => Draw::Flush,
            DrawOp::Exit { status } => Draw::Exit { status: status as int },
        }
    }
}

/// The views of a sequence of operations.
pub open spec fn views(ops: Seq<DrawOp>) -> Seq<Draw> {
    Seq::new(ops.len(), |i: int| ops[i]@)
}

/// Adds `op` after the operations in `ops`.
pub fn emit(ops: &mut Vec<DrawOp>, op: DrawOp)
    ensures
        views(final(ops)@) == views(old(ops)@).push(op@),
{
    ops.push(op);
    assert(views(ops@) =~= views(old(ops)@).push(op@));
}

/// Adds the operations of `more` after those in `ops`.
pub fn emit_all(ops: &mut Vec<DrawOp>, more: Vec<DrawOp>)
    ensures
        views(final(ops)@) == views(old(ops)@) + views(more@),
{
    let mut more = more;
    let ghost added = more@;
    ops.append(&mut more);
    assert(views(ops@) =~= views(old(ops)@) + views(added));
}

/// `y - k`, or the least row there is where that would fall below it.
pub open spec fn rows_up(y: i32, k: i32) -> int {
    if y - k >= i32::MIN {
        y - k
    } else {
        i32::MIN as int
    }
}

/// Computes `rows_up`.
pub fn up(y: i32, k: i32) -> (r: i32)
    requires
        0 <= k,
    ensures
        r == rows_up(y, k),
{
    if y >= i32::MIN + k {
        y - k
    } else {
        i32::MIN
    }
}

/// Half of a length; a length below zero counts as zero.
pub open spec fn half(v: i32) -> int {
    if v <= 0 {
        0
    } else {
        v / 2
    }
}

/// Computes `half`.
pub fn half_of(v: i32) -> (h: i32)
    ensures
        h == half(v),
        0 <= h <= i32::MAX / 2,
{
    if v <= 0 {
        0
    } else {
        v / 2
    }
}

/// A `~` in the first column of each row from `from` up to, not including, `to`.
pub open spec fn tilde_rows(from: int, to: int) -> Seq<Draw> {
    Seq::new(
        if to > from { (to - from) as nat } else { 0 },
        |k: int| Draw::Text { row: from + k, col: 0, text: seq!['~'] },
    )
}

/// Draws `tilde_rows(from, to)`.
pub fn tildes(ops: &mut Vec<DrawOp>, from: i32, to: i32)
    ensures
        views(final(ops)@) == views(old(ops)@) + tilde_rows(from as int, to as int),
{
    let mut row: i32 = from;
    assert(views(ops@) =~= views(old(ops)@) + tilde_rows(from as int, row as int));
    while row < to
        invariant
            from <= row,
            row <= to || row == from,
            views(ops@) == views(old(ops)@) + tilde_rows(from as int, row as int),
        decreases to - row,
    {
        let mut mark: Vec<char> = Vec::new();
        mark.push('~');
        let text = string_of(&mark);
        assert(text@ =~= seq!['~']);
        emit(ops, DrawOp::Text { row, col: 0, text });
        row = row + 1;
        assert(views(ops@) =~= views(old(ops)@) + tilde_rows(from as int, row as int)) by {
            assert(tilde_rows(from as int, row as int) =~= tilde_rows(
                from as int,
                row as int - 1,
            ).push(Draw::Text { row: row as int - 1, col: 0, text: seq!['~'] }));
        }
    }
    assert(tilde_rows(from as int, row as int) =~= tilde_rows(from as int, to as int));
}

/// Where the `i`-th label of a tab bar begins: the first in column 1, each
/// next one a blank column after the end of the one before.
pub open spec fn label_col(labels: Seq<Seq<char>>, i: int) -> int
    decreases i,
{
    if i <= 0 {
        1
    } else {
        label_col(labels, i - 1) + labels[i - 1].len() + 1
    }
}

/// The first `n` labels of a tab bar, each at its column in row 0. A label
/// whose column no surface can have is left out.
pub open spec fn tab_labels(labels: Seq<Seq<char>>, n: int) -> Seq<Draw>
    decreases n,
{
    if n <= 0 {
        Seq::empty()
    } else if label_col(labels, n - 1) <= i32::MAX {
        tab_labels(labels, n - 1).push(
            Draw::Text { row: 0, col: label_col(labels, n - 1), text: labels[n - 1] },
        )
    } else {
        tab_labels(labels, n - 1)
    }
}

/// The attribute that selects colour pair `n`: its number, above the eight
/// bits of a cell that hold the character.
pub open spec fn pair_attr(n: int) -> int {
    n * 256
}

/// The attribute for bold.
pub open spec fn bold_attr() -> int {
    0x20_0000
}

/// No attributes.
pub open spec fn plain_attr() -> int {
    0
}

/// The attributes of the command line: colour pair 2.
pub open spec fn prompt_attr() -> int {
    pair_attr(2)
}

/// The attributes of the tab bar: colour pair 2, in bold.
pub open spec fn tab_attr() -> int {
    pair_attr(2) + bold_attr()
}

/// The attribute of colour pair `n`.
///
/// Trusted: this is `ncurses::COLOR_PAIR`, which shifts the number of the
/// pair eight bits to the left, past the character. For a number that is
/// not negative that is the number times 256.
#[verifier::external_body]
fn color_pair(n: i16) -> (attr: u64)
    requires
        0 <= n,
    ensures
        attr == pair_attr(n as int),
{
    ncurses::COLOR_PAIR(n) as u64
}

/// The attribute for bold.
///
/// Trusted: this is `ncurses::A_BOLD`, which is the one bit thirteen places
/// above the eight bits of the character.
#[verifier::external_body]
fn bold() -> (attr: u64)
    ensures
        attr == bold_attr(),
{
    ncurses::A_BOLD() as u64
}

/// Computes `prompt_attr`.
pub fn prompt_highlight() -> (attr: u64)
    ensures
        attr == prompt_attr(),
{
    color_pair(2)
}

/// Computes `tab_attr`.
pub fn tab_highlight() -> (attr: u64)
    ensures
        attr == tab_attr(),
{
    let pair = color_pair(2);
    let strong = bold();
    assert(0x200u64 | 0x20_0000u64 == 0x20_0200u64) by (bit_vector);
    pair | strong
}

/// The highlighted rule across row 0 that the labels are written on.
pub open spec fn tab_rule(width: i32) -> Draw {
    Draw::Rule { row: 0, col: 0, len: width as int, attr: tab_attr() }
}

/// Draws `tab_rule(width)`.
pub fn draw_tab_rule(ops: &mut Vec<DrawOp>, width: i32)
    ensures
        views(final(ops)@) == views(old(ops)@).push(tab_rule(width)),
{
    emit(ops, DrawOp::Rule { row: 0, col: 0, len: width, attr: tab_highlight() });
}

/// Draws the labels of a tab bar, in order.
pub fn draw_tab_labels(ops: &mut Vec<DrawOp>, labels: Vec<String>)
    ensures
        views(final(ops)@) == views(old(ops)@) + tab_labels(
            crate::text::texts(labels@),
            labels@.len() as int,
        ),
{
    let ghost all = crate::text::texts(labels@);
    let mut col: i32 = 1;
    let mut fits: bool = true;
    let mut i: usize = 0;
    assert(views(ops@) =~= views(old(ops)@) + tab_labels(all, 0));
    while i < labels.len()
        invariant
            i <= labels.len(),
            all == crate::text::texts(labels@),
            1 <= col,
            fits ==> col == label_col(all, i as int),
            !fits ==> label_col(all, i as int) > i32::MAX,
            views(ops@) == views(old(ops)@) + tab_labels(all, i as int),
        decreases labels.len() - i,
    {
        let text = labels[i].clone();
        let len = text.as_str().unicode_len();
        assert(text@ == all[i as int]);
        if fits {
            emit(ops, DrawOp::Text { row: 0, col, text });
            if len < 0x7fff_fffe && col <= 0x7fff_fffe - (len as i32) {
                col = col + (len as i32) + 1;
            } else {
                fits = false;
            }
        }
        i += 1;
        assert(views(ops@) =~= views(old(ops)@) + tab_labels(all, i as int));
    }
}

} // verus!
