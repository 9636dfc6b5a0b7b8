//! Sessions: one surface of the terminal, the documents open in it, and how
//! it is drawn.

use vstd::prelude::*;
use vstd::string::StringExecFns;
use vstd::string::StrSliceExecFns;
use crate::draw::{draw_tab_labels, draw_tab_rule, emit, half, half_of, rows_up, tab_labels, tab_rule, tilde_rows, tildes, up, views, Draw, DrawOp};
use crate::file::{ArranoFile, Document, FileData, FileError};
use crate::pos::Pos;
use crate::text::{decimal, push_decimal, string_of, texts};

verus! {

/// One surface and the documents open in it, in the order they were opened.
/// The surface itself is kept by whoever carries out the drawing operations.
#[derive(Debug)]
pub struct State {
    pub documents: Vec<ArranoFile>,
    /// The position of the document that is shown.
    pub current: usize,
    /// Reserved for the cursor.
    pub screen_pos: Pos<i32>,
    /// Reserved for scrolling.
    pub buffer_pos: Pos<usize>,
}

/// A session as contracts see it.
pub ghost struct Session {
    pub documents: Seq<Document>,
    pub current: int,
    pub screen_pos: Pos<i32>,
    pub buffer_pos: Pos<usize>,
}

/// The views of a sequence of documents.
pub open spec fn documents(v: Seq<ArranoFile>) -> Seq<Document> {
    Seq::new(v.len(), |i: int| v[i]@)
}

impl View for State {
    type V = Session;

    open spec fn view(&self) -> Session {
        Session {
            documents: documents(self.documents@),
            current: self.current as int,
            screen_pos: self.screen_pos,
            buffer_pos: self.buffer_pos,
        }
    }
}

impl Session {
    /// A session always shows one of its documents.
    pub open spec fn wf(self) -> bool {
        0 <= self.current < self.documents.len()
    }

    /// The session that shows `doc` and nothing else.
    pub open spec fn single(doc: Document) -> Session {
        Session {
            documents: seq![doc],
            current: 0,
            screen_pos: Pos { x: 0i32, y: 0i32 },
            buffer_pos: Pos { x: 0usize, y: 0usize },
        }
    }

    /// The document that is shown.
    pub open spec fn active(self) -> Document {
        self.documents[self.current]
    }
}

/// The document without lines that is bound to no file.
pub open spec fn empty_document() -> Document {
    Document { path: None, lines: Seq::empty(), data: None }
}

/// The document a session starts with: the lines of `content` under the
/// name `path` where a file is given, the empty document where none is.
pub open spec fn initial_document(
    path: Option<String>,
    content: Option<String>,
    data: Option<FileData>,
) -> Document {
    match path {
        Some(p) => Document {
            path: Some(p@),
            lines: crate::file::split_lines(content->Some_0@),
            data: data,
        },
        None => empty_document(),
    }
}

/// The request for a surface that covers a terminal of these dimensions.
pub open spec fn surface_for(dimensions: Pos<i32>) -> Draw {
    Draw::OpenSurface { rows: dimensions.y as int, cols: dimensions.x as int }
}

/// The name a document goes by in a tab bar.
pub open spec fn label_text(doc: Document) -> Seq<char> {
    match doc.path {
        Some(p) => p,
        None => "Empty file"@,
    }
}

/// The tab-bar names of a sequence of documents.
pub open spec fn label_texts(docs: Seq<Document>) -> Seq<Seq<char>> {
    Seq::new(docs.len(), |i: int| label_text(docs[i]))
}

/// The rows of the content region for a terminal of these dimensions: from
/// row 2 up to, not including, the last two rows.
pub open spec fn region_for(dimensions: Pos<i32>) -> Pos<i32> {
    Pos { x: 2i32, y: rows_up(dimensions.y, 2) as i32 }
}

/// The geometry to draw with when the terminal reports `live`. Where the
/// terminal still has the dimensions that were recorded, those and the
/// recorded region; where it was resized, what it has now and the region
/// that goes with that.
pub open spec fn settle(dimensions: Pos<i32>, display: Pos<i32>, live: Pos<i32>) -> (
    Pos<i32>,
    Pos<i32>,
) {
    if live == dimensions {
        (dimensions, display)
    } else {
        (live, region_for(live))
    }
}

/// The column at which `text` begins when centred in `width` columns.
pub open spec fn centered(width: i32, text: Seq<char>) -> int {
    half(width) - text.len() / 2
}

/// What is drawn for a document without content: a title and a line below
/// it, centred, and a `~` on every row from there down to the end of the
/// content region.
pub open spec fn banner_ops(dimensions: Pos<i32>, display: Pos<i32>) -> Seq<Draw> {
    seq![
        Draw::Text {
            row: half(dimensions.y) - 1,
            col: centered(dimensions.x, "Arrano v0.0.1"@),
            text: "Arrano v0.0.1"@,
        },
        Draw::Text {
            row: half(dimensions.y),
            col: centered(dimensions.x, "Arrano is free and open source"@),
            text: "Arrano is free and open source"@,
        },
    ] + tilde_rows(half(dimensions.y) + 1, display.y as int)
}

/// The column at which the number of line `n` begins, so that it ends in
/// column 3; a number too long for that begins in column 0.
pub open spec fn gutter_col(n: nat) -> int {
    if decimal(n).len() >= 4 {
        0
    } else {
        4 - decimal(n).len()
    }
}

/// The first `n` lines, each on the row of its number: the number in the
/// gutter, the text from column 5.
pub open spec fn file_rows(lines: Seq<Seq<char>>, n: int) -> Seq<Draw>
    decreases n,
{
    if n <= 0 {
        Seq::empty()
    } else {
        file_rows(lines, n - 1).push(
            Draw::Text { row: n, col: gutter_col(n as nat), text: decimal(n as nat) },
        ).push(Draw::Text { row: n, col: 5, text: lines[n - 1] })
    }
}

/// How many of `count` lines have a row: a row is a 32-bit number.
pub open spec fn shown(count: nat) -> int {
    if count <= i32::MAX {
        count as int
    } else {
        i32::MAX as int
    }
}

/// What is drawn for a document with content: its lines, then a `~` on every
/// row after the last line down to the end of the content region.
pub open spec fn file_ops(lines: Seq<Seq<char>>, display: Pos<i32>) -> Seq<Draw> {
    file_rows(lines, shown(lines.len())) + tilde_rows(shown(lines.len()) + 1, display.y as int)
}

/// What is drawn in the content area for `doc`. Whether the document is
/// bound to a file plays no part: one without lines gets the banner.
pub open spec fn content_ops(doc: Document, dimensions: Pos<i32>, display: Pos<i32>) -> Seq<Draw> {
    if doc.lines.len() == 0 {
        banner_ops(dimensions, display)
    } else {
        file_ops(doc.lines, display)
    }
}

/// All that rendering a session draws: the tab bar with a label for each of
/// its documents, the content of the one that is shown, the cursor, and the
/// flush.
pub open spec fn session_ops(s: Session, dimensions: Pos<i32>, display: Pos<i32>) -> Seq<Draw> {
    seq![tab_rule(dimensions.x)] + tab_labels(
        label_texts(s.documents),
        s.documents.len() as int,
    ) + content_ops(s.active(), dimensions, display) + seq![Draw::ShowCursor, Draw::Flush]
}

/// Computes `region_for`.
pub fn region(dimensions: Pos<i32>) -> (r: Pos<i32>)
    ensures
        r == region_for(dimensions),
{
    Pos { x: 2, y: up(dimensions.y, 2) }
}

fn center(width: i32, text: &str) -> (col: i32)
    requires
        text@.len() <= 0x1000,
    ensures
        col == centered(width, text@),
{
    let len = text.unicode_len();
    let h: i32 = half_of(width);
    h - ((len / 2) as i32)
}

/// The tab-bar name of `doc`.
pub fn label_of(doc: &ArranoFile) -> (label: String)
    ensures
        label@ == label_text(doc@),
{
    match &doc.path {
        Some(p) => p.clone(),
        None => String::from_str("Empty file"),
    }
}

impl State {
    /// A session with one document: the file `path` where one is given,
    /// with what reading and inspecting it gave (`None` for a failure of
    /// either), and an empty document where none is given. With the session
    /// comes the request for its surface, of the size of the terminal.
    pub fn new(
        path: Option<String>,
        content: Option<String>,
        data: Option<FileData>,
        dimensions: Pos<i32>,
    ) -> (r: Result<(Self, DrawOp), FileError>)
        ensures
            r is Err <==> path is Some && !(content is Some && data is Some),
            r is Err ==> r->Err_0 == FileError::ResourceUnreadable,
            r is Ok ==> r->Ok_0.0@ == Session::single(initial_document(path, content, data)),
            r is Ok ==> r->Ok_0.0@.wf(),
            r is Ok ==> r->Ok_0.1@ == surface_for(dimensions),
    {
        let surface = DrawOp::OpenSurface { rows: dimensions.y, cols: dimensions.x };
        match path {
            Some(p) => {
                match ArranoFile::new(p, content, data) {
                    Ok(document) => Ok((State::showing(document), surface)),
                    Err(e) => Err(e),
                }
            },
            None => Ok((State::showing(ArranoFile::new_empty()), surface)),
        }
    }

    /// The session that shows `document` and nothing else.
    pub fn showing(document: ArranoFile) -> (s: Self)
        ensures
            s@ == Session::single(document@),
            s@.wf(),
    {
        let mut open: Vec<ArranoFile> = Vec::new();
        open.push(document);
        assert(documents(open@) =~= seq![document@]);
        State {
            documents: open,
            current: 0,
            screen_pos: Pos { x: 0, y: 0 },
            buffer_pos: Pos { x: 0, y: 0 },
        }
    }

    /// The document that is shown.
    pub fn active(&self) -> (doc: &ArranoFile)
        requires
            self@.wf(),
        ensures
            doc@ == self@.active(),
    {
        &self.documents[self.current]
    }

    /// The tab-bar names of the session's documents, in order.
    pub fn labels(&self) -> (names: Vec<String>)
        ensures
            texts(names@) == label_texts(self@.documents),
    {
        let mut names: Vec<String> = Vec::new();
        let mut i: usize = 0;
        while i < self.documents.len()
            invariant
                i <= self.documents.len(),
                texts(names@) == label_texts(self@.documents).subrange(0, i as int),
            decreases self.documents.len() - i,
        {
            let ghost before = texts(names@);
            let label = label_of(&self.documents[i]);
            assert(documents(self.documents@)[i as int] == self.documents@[i as int]@);
            names.push(label);
            assert(texts(names@) =~= before.push(label@));
            i += 1;
            assert(texts(names@) =~= label_texts(self@.documents).subrange(0, i as int));
        }
        assert(texts(names@) =~= label_texts(self@.documents));
        names
    }

    /// Draws the session: the tab bar, the content, the cursor, the flush.
    /// `live` is what the terminal reports now; where that differs from
    /// `dimensions` the terminal was resized, and the session is drawn for
    /// what it has now.
    pub fn display(&self, dimensions: Pos<i32>, display: Pos<i32>, live: Pos<i32>) -> (ops: Vec<
        DrawOp,
    >)
        requires
            self@.wf(),
        ensures
            views(ops@) == session_ops(
                self@,
                settle(dimensions, display, live).0,
                settle(dimensions, display, live).1,
            ),
    {
        let same = dimensions.compare(&live);
        proof {
            crate::pos::lemma_compare_i32(dimensions, live);
        }
        let dims = if same { dimensions } else { live };
        let rows = if same { display } else { region(live) };
        let mut ops: Vec<DrawOp> = Vec::new();
        assert(views(ops@) =~= Seq::<Draw>::empty());
        draw_tab_rule(&mut ops, dims.x);
        let names = self.labels();
        assert(names@.len() == texts(names@).len());
        assert(self@.documents.len() == label_texts(self@.documents).len());
        draw_tab_labels(&mut ops, names);
        content(&mut ops, self.active(), dims, rows);
        emit(&mut ops, DrawOp::ShowCursor);
        emit(&mut ops, DrawOp::Flush);
        assert(views(ops@) =~= session_ops(self@, dims, rows));
        ops
    }
}

/// Draws the content area for `doc`.
pub fn content(ops: &mut Vec<DrawOp>, doc: &ArranoFile, dimensions: Pos<i32>, display: Pos<i32>)
    ensures
        views(final(ops)@) == views(old(ops)@) + content_ops(doc@, dimensions, display),
{
    if doc.buffer.len() == 0 {
        display_empty(ops, dimensions, display);
    } else {
        display_file(ops, doc, display);
    }
}

fn display_empty(ops: &mut Vec<DrawOp>, dimensions: Pos<i32>, display: Pos<i32>)
    ensures
        views(final(ops)@) == views(old(ops)@) + banner_ops(dimensions, display),
{
    proof {
        reveal_strlit("Arrano v0.0.1");
        reveal_strlit("Arrano is free and open source");
    }
    let center_y = half_of(dimensions.y);
    let title = "Arrano v0.0.1";
    let subtitle = "Arrano is free and open source";
    emit(
        ops,
        DrawOp::Text {
            row: center_y - 1,
            col: center(dimensions.x, title),
            text: String::from_str(title),
        },
    );
    emit(
        ops,
        DrawOp::Text {
            row: center_y,
            col: center(dimensions.x, subtitle),
            text: String::from_str(subtitle),
        },
    );
    tildes(ops, center_y + 1, display.y);
    assert(views(ops@) =~= views(old(ops)@) + banner_ops(dimensions, display));
}

fn display_file(ops: &mut Vec<DrawOp>, doc: &ArranoFile, display: Pos<i32>)
    ensures
        views(final(ops)@) == views(old(ops)@) + file_ops(doc@.lines, display),
{
    let ghost lines = doc@.lines;
    let mut i: usize = 0;
    let mut row: i32 = 0;
    assert(views(ops@) =~= views(old(ops)@) + file_rows(lines, 0));
    while i < doc.buffer.len() && row < i32::MAX
        invariant
            i <= doc.buffer.len(),
            lines == texts(doc.buffer@),
            row == i,
            views(ops@) == views(old(ops)@) + file_rows(lines, i as int),
        decreases doc.buffer.len() - i,
    {
        row = row + 1;
        let mut digits: Vec<char> = Vec::new();
        push_decimal(row as u32, &mut digits);
        assert(digits@ =~= decimal(row as nat));
        let col: i32 = if digits.len() >= 4 {
            0
        } else {
            4 - (digits.len() as i32)
        };
        emit(ops, DrawOp::Text { row, col, text: string_of(&digits) });
        emit(ops, DrawOp::Text { row, col: 5, text: doc.buffer[i].clone() });
        i += 1;
        assert(views(ops@) =~= views(old(ops)@) + file_rows(lines, i as int));
    }
    assert(i as int == shown(lines.len()));
    if row < i32::MAX {
        tildes(ops, row + 1, display.y);
    } else {
        assert(tilde_rows(shown(lines.len()) + 1, display.y as int) =~= Seq::<Draw>::empty());
    }
    assert(views(ops@) =~= views(old(ops)@) + file_ops(lines, display));
}

} // verus!
