//! The controller: the open sessions, the command line, and what one key
//! does to them.

use vstd::prelude::*;
use vstd::string::StringExecFns;
use crate::draw::{draw_tab_labels, draw_tab_rule, emit, emit_all, plain_attr, prompt_attr, prompt_highlight, rows_up, tab_labels, tab_rule, up, views, Draw, DrawOp};
use crate::file::{Document, FileData, FileError};
use crate::pos::Pos;
use crate::state::{content, content_ops, empty_document, initial_document, label_of, label_text, region, region_for, settle, surface_for, Session, State};
use crate::text::{string_of, texts};

verus! {

/// The key that opens the command line.
pub const KEY_COLON: i32 = 58;

/// The key that confirms a command.
pub const KEY_ENTER: i32 = 10;

/// The backspace key as a keypad reports it.
pub const KEY_BACKSPACE: i32 = 0o407;

/// The code of the backspace key.
///
/// Trusted: this is the constant `ncurses::KEY_BACKSPACE`, which the crate
/// defines as 0x107, the same number as `KEY_BACKSPACE` here.
#[verifier::external_body]
fn backspace_key() -> (key: i32)
    ensures
        key == KEY_BACKSPACE,
{
    ncurses::KEY_BACKSPACE
}

/// The controller of the editor.
#[derive(Debug)]
pub struct App {
    /// The open sessions, oldest first.
    pub buffers: Vec<State>,
    /// The position of the session that is drawn and gets the keys.
    pub current: usize,
    /// The dimensions the terminal last reported: columns and rows.
    pub dimensions: Pos<i32>,
    /// The rows of the content region: the first, and the one after the last.
    pub display: Pos<i32>,
    /// The command being typed, with its leading colon.
    pub command: Vec<char>,
    /// Whether keys go to the command line.
    pub capturing: bool,
    /// Set once the last session is gone.
    pub terminado: bool,
}

/// The controller as contracts see it.
pub ghost struct Model {
    pub sessions: Seq<Session>,
    pub current: int,
    pub dimensions: Pos<i32>,
    pub display: Pos<i32>,
    pub command: Seq<char>,
    pub capturing: bool,
    pub terminado: bool,
}

/// The views of a sequence of sessions.
pub open spec fn sessions(v: Seq<State>) -> Seq<Session> {
    Seq::new(v.len(), |i: int| v[i]@)
}

impl View for App {
    type V = Model;

    open spec fn view(&self) -> Model {
        Model {
            sessions: sessions(self.buffers@),
            current: self.current as int,
            dimensions: self.dimensions,
            display: self.display,
            command: self.command@,
            capturing: self.capturing,
            terminado: self.terminado,
        }
    }
}

impl Model {
    /// What holds of a controller at all times: every session shows one of
    /// its documents; the controller has ended exactly when no session is
    /// left, and until then `current` is the position of a session; the
    /// command is empty unless the command line is open, and the command
    /// line is closed once the controller has ended.
    pub open spec fn wf(self) -> bool {
        &&& forall|i: int| 0 <= i < self.sessions.len() ==> (#[trigger] self.sessions[i]).wf()
        &&& self.terminado <==> self.sessions.len() == 0
        &&& !self.terminado ==> 0 <= self.current < self.sessions.len()
        &&& self.terminado ==> !self.capturing
        &&& !self.capturing ==> self.command.len() == 0
    }

    /// The row of the command line: the last but one.
    pub open spec fn command_row(self) -> int {
        rows_up(self.dimensions.y, 2)
    }

    /// The row of messages: the last.
    pub open spec fn message_row(self) -> int {
        rows_up(self.dimensions.y, 1)
    }

    /// The tab-bar names of the sessions: each goes by the document it shows.
    pub open spec fn labels(self) -> Seq<Seq<char>> {
        Seq::new(self.sessions.len(), |i: int| label_text(self.sessions[i].active()))
    }
}

/// The controller at its start: one session that shows `doc`, the command
/// line closed, and the content region that goes with `dimensions`.
pub open spec fn initial(doc: Document, dimensions: Pos<i32>) -> Model {
    Model {
        sessions: seq![Session::single(doc)],
        current: 0,
        dimensions: dimensions,
        display: region_for(dimensions),
        command: Seq::empty(),
        capturing: false,
        terminado: false,
    }
}

/// Whether the command line takes `key` for a backspace.
pub open spec fn is_backspace(key: i32) -> bool {
    key == KEY_BACKSPACE
}

/// Whether `key` is a character that can be typed into a command.
pub open spec fn is_printable(key: i32) -> bool {
    32 <= key <= 126
}

/// The controller once it has taken note of what the terminal reports.
pub open spec fn resized(m: Model, live: Pos<i32>) -> Model {
    Model {
        dimensions: settle(m.dimensions, m.display, live).0,
        display: settle(m.dimensions, m.display, live).1,
        ..m
    }
}

/// One full drawing of the controller: on the surface of the current
/// session, the rule of the tab bar, the content of the document that the
/// session shows, a label for each session, the cursor, and the flush.
pub open spec fn frame(m: Model) -> Seq<Draw> {
    seq![Draw::Select { index: m.current }, tab_rule(m.dimensions.x)] + content_ops(
        m.sessions[m.current].active(),
        m.dimensions,
        m.display,
    ) + tab_labels(m.labels(), m.sessions.len() as int) + seq![Draw::ShowCursor, Draw::Flush]
}

/// The command line as drawn while a command is typed: the row blanked in
/// its colours, the command on it, and the flush.
pub open spec fn prompt_ops(m: Model) -> Seq<Draw> {
    seq![
        Draw::Rule {
            row: m.command_row(),
            col: 1,
            len: rows_up(m.dimensions.x, 2),
            attr: prompt_attr(),
        },
        Draw::Text { row: m.command_row(), col: 1, text: m.command },
        Draw::Flush,
    ]
}

/// The command line blanked again.
pub open spec fn clear_prompt(m: Model) -> Draw {
    Draw::Rule {
        row: m.command_row(),
        col: 1,
        len: rows_up(m.dimensions.x, 2),
        attr: plain_attr(),
    }
}

/// The controller after the command in `m.command` was carried out.
///
/// `:q` closes the current session; the session before it becomes current,
/// or the first one where there is none before it; with the last session
/// gone the controller ends. `:qa` closes all sessions and ends. `:new`
/// opens a session on an empty document after the others and makes it
/// current. Any other text changes nothing. The command line is closed and
/// emptied in each case.
pub open spec fn dispatch(m: Model) -> Model {
    let closed = Model { command: Seq::empty(), capturing: false, ..m };
    if m.command == ":q"@ {
        let rest = m.sessions.remove(m.current);
        if rest.len() == 0 {
            Model { sessions: rest, current: 0, terminado: true, ..closed }
        } else {
            Model {
                sessions: rest,
                current: if m.current > 0 { m.current - 1 } else { 0 },
                ..closed
            }
        }
    } else if m.command == ":qa"@ {
        Model { sessions: Seq::empty(), current: 0, terminado: true, ..closed }
    } else if m.command == ":new"@ {
        Model {
            sessions: m.sessions.push(Session::single(empty_document())),
            current: m.sessions.len() as int,
            ..closed
        }
    } else {
        closed
    }
}

/// What carrying out the command in `m.command` asks of the terminal: for
/// `:q` the surface of the session is closed, and the terminal left where
/// that was the last one; for `:qa` the terminal is left; for `:new` a
/// surface is opened; for any other text a message is written on the
/// message row. Leaving is with status 0.
pub open spec fn dispatch_ops(m: Model) -> Seq<Draw> {
    if m.command == ":q"@ {
        if m.sessions.len() == 1 {
            seq![Draw::CloseSurface { index: m.current }, Draw::Exit { status: 0 }]
        } else {
            seq![Draw::CloseSurface { index: m.current }]
        }
    } else if m.command == ":qa"@ {
        seq![Draw::Exit { status: 0 }]
    } else if m.command == ":new"@ {
        seq![surface_for(m.dimensions)]
    } else {
        seq![
            Draw::Text { row: m.message_row(), col: 1, text: "Command not found: "@ + m.command },
        ]
    }
}

/// The controller after `key` was typed into the open command line.
///
/// A backspace takes the last character away, and closes the command line
/// where there is none to take. Enter carries the command out. A printable
/// character is added at the end. Any other key changes nothing.
pub open spec fn capture(m: Model, key: i32) -> Model {
    if is_backspace(key) {
        if m.command.len() == 0 {
            Model { capturing: false, ..m }
        } else {
            Model { command: m.command.drop_last(), ..m }
        }
    } else if key == KEY_ENTER {
        dispatch(m)
    } else if is_printable(key) {
        Model { command: m.command.push(key as u8 as char), ..m }
    } else {
        m
    }
}

/// What a key typed into the open command line asks of the terminal: the
/// command line is drawn again where the command changed; on Enter it is
/// drawn, blanked, and the command carried out.
pub open spec fn capture_ops(m: Model, key: i32) -> Seq<Draw> {
    if is_backspace(key) {
        if m.command.len() == 0 {
            Seq::empty()
        } else {
            prompt_ops(capture(m, key))
        }
    } else if key == KEY_ENTER {
        prompt_ops(m).push(clear_prompt(m)) + dispatch_ops(m)
    } else if is_printable(key) {
        prompt_ops(capture(m, key))
    } else {
        Seq::empty()
    }
}

/// The controller after one key, with the terminal reporting `live`.
/// A colon opens the command line; while it is open every key goes to it;
/// any other key changes nothing.
pub open spec fn step(m: Model, key: i32, live: Pos<i32>) -> Model {
    let g = resized(m, live);
    if g.capturing {
        capture(g, key)
    } else if key == KEY_COLON {
        Model { capturing: true, command: seq![':'], ..g }
    } else {
        g
    }
}

/// What one key asks of the terminal: on the surface of the current
/// session, what the command line asks; then, unless the command line is
/// open or the controller has ended, one full drawing.
pub open spec fn step_ops(m: Model, key: i32, live: Pos<i32>) -> Seq<Draw> {
    let g = resized(m, live);
    let n = step(m, key, live);
    seq![Draw::Select { index: m.current }] + (if g.capturing {
        capture_ops(g, key)
    } else if key == KEY_COLON {
        prompt_ops(n)
    } else {
        Seq::empty()
    }) + (if n.terminado || n.capturing {
        Seq::empty()
    } else {
        frame(n)
    })
}

/// Carrying out `:new` adds exactly one session, after the others, which
/// stay as they are; it shows an empty document and becomes the current one.
pub proof fn lemma_new_adds_session(m: Model)
    requires
        m.command == ":new"@,
    ensures
        dispatch(m).sessions.len() == m.sessions.len() + 1,
        dispatch(m).sessions.subrange(0, m.sessions.len() as int) == m.sessions,
        dispatch(m).current == m.sessions.len(),
        dispatch(m).sessions[dispatch(m).current] == Session::single(empty_document()),
        dispatch_ops(m) == seq![surface_for(m.dimensions)],
{
    reveal_strlit(":new");
    reveal_strlit(":q");
    reveal_strlit(":qa");
    assert(":new"@.len() == 4);
    assert(dispatch(m).sessions.subrange(0, m.sessions.len() as int) =~= m.sessions);
}

/// Carrying out `:q` with one session open ends the controller: no session
/// is left, and the terminal is asked to close the surface and to leave
/// with status 0, and nothing else.
pub proof fn lemma_quit_last(m: Model)
    requires
        m.wf(),
        m.command == ":q"@,
        m.sessions.len() == 1,
    ensures
        dispatch(m).terminado,
        dispatch(m).sessions.len() == 0,
        dispatch_ops(m) == seq![Draw::CloseSurface { index: 0 }, Draw::Exit { status: 0 }],
{
}

/// Carrying out `:qa` ends the controller however many sessions are open:
/// none is left, and the terminal is asked to leave with status 0, and
/// nothing else.
pub proof fn lemma_quit_all(m: Model)
    requires
        m.command == ":qa"@,
    ensures
        dispatch(m).terminado,
        dispatch(m).sessions.len() == 0,
        dispatch_ops(m) == seq![Draw::Exit { status: 0 }],
{
    reveal_strlit(":q");
    reveal_strlit(":qa");
    assert(":qa"@.len() == 3);
}

/// Carrying out a text that is no command leaves the sessions, with every
/// document in them, and the current position as they were; the terminal is
/// asked for one thing, a text on the message row.
pub proof fn lemma_unknown_command(m: Model)
    requires
        m.command != ":q"@,
        m.command != ":qa"@,
        m.command != ":new"@,
    ensures
        dispatch(m).sessions == m.sessions,
        dispatch(m).current == m.current,
        dispatch(m).terminado == m.terminado,
        dispatch(m).dimensions == m.dimensions,
        dispatch(m).display == m.display,
        dispatch_ops(m) == seq![
            Draw::Text { row: m.message_row(), col: 1, text: "Command not found: "@ + m.command },
        ],
{
}

/// A well-formed controller that has not ended stays well-formed over any key.
pub proof fn lemma_step_wf(m: Model, key: i32, live: Pos<i32>)
    requires
        m.wf(),
        !m.terminado,
    ensures
        step(m, key, live).wf(),
{
    let g = resized(m, live);
    assert(g.sessions == m.sessions);
    if g.capturing && !is_backspace(key) && key == KEY_ENTER {
        let n = dispatch(g);
        assert(Session::single(empty_document()).wf());
        assert forall|i: int| 0 <= i < n.sessions.len() implies (#[trigger] n.sessions[i]).wf() by {
            if g.command == ":q"@ {
                if i < g.current {
                    assert(n.sessions[i] == g.sessions[i]);
                } else {
                    assert(n.sessions[i] == g.sessions[i + 1]);
                }
            } else if g.command == ":qa"@ {
            } else if g.command == ":new"@ {
                if i < g.sessions.len() {
                    assert(n.sessions[i] == g.sessions[i]);
                }
            } else {
            }
        }
    }
}

impl App {
    /// Starts the controller with one session: on the file `path` where one
    /// is given, with what reading and inspecting it gave (`None` for a
    /// failure of either), otherwise on an empty document. `dimensions` is
    /// what the terminal reports. With the controller comes what to draw
    /// first: the surface of the session, and one full drawing.
    pub fn new(
        path: Option<String>,
        content: Option<String>,
        data: Option<FileData>,
        dimensions: Pos<i32>,
    ) -> (r: Result<(Self, Vec<DrawOp>), FileError>)
        ensures
            r is Err <==> path is Some && !(content is Some && data is Some),
            r is Err ==> r->Err_0 == FileError::ResourceUnreadable,
            r is Ok ==> r->Ok_0.0@ == initial(initial_document(path, content, data), dimensions),
            r is Ok ==> views(r->Ok_0.1@) == seq![surface_for(dimensions)] + frame(r->Ok_0.0@),
            r is Ok ==> r->Ok_0.0@.wf(),
    {
        let (session, surface) = match State::new(path, content, data, dimensions) {
            Ok(made) => made,
            Err(e) => {
                return Err(e);
            },
        };
        let mut buffers: Vec<State> = Vec::new();
        buffers.push(session);
        let app = Self {
            current: 0,
            dimensions,
            display: region(dimensions),
            buffers,
            command: Vec::new(),
            capturing: false,
            terminado: false,
        };
        assert(app@.sessions =~= seq![session@]);
        let mut ops: Vec<DrawOp> = Vec::new();
        assert(views(ops@) =~= Seq::<Draw>::empty());
        emit(&mut ops, surface);
        let first = app.render();
        emit_all(&mut ops, first);
        assert(views(ops@) =~= seq![surface_for(dimensions)] + frame(app@));
        Ok((app, ops))
    }

    /// The tab-bar names of the sessions, in order.
    fn labels(&self) -> (names: Vec<String>)
        requires
            self@.wf(),
        ensures
            texts(names@) == self@.labels(),
            names@.len() == self@.sessions.len(),
    {
        let mut names: Vec<String> = Vec::new();
        let mut i: usize = 0;
        while i < self.buffers.len()
            invariant
                i <= self.buffers.len(),
                self@.wf(),
                names@.len() == i,
                texts(names@) == self@.labels().subrange(0, i as int),
            decreases self.buffers.len() - i,
        {
            let ghost before = texts(names@);
            assert(self@.sessions[i as int] == self.buffers@[i as int]@);
            assert(self@.sessions[i as int].wf());
            let label = label_of(self.buffers[i].active());
            names.push(label);
            assert(texts(names@) =~= before.push(label@));
            i += 1;
            assert(texts(names@) =~= self@.labels().subrange(0, i as int));
        }
        assert(texts(names@) =~= self@.labels());
        names
    }

    fn render(&self) -> (ops: Vec<DrawOp>)
        requires
            self@.wf(),
            !self@.terminado,
        ensures
            views(ops@) == frame(self@),
    {
        let mut ops: Vec<DrawOp> = Vec::new();
        assert(views(ops@) =~= Seq::<Draw>::empty());
        emit(&mut ops, DrawOp::Select { index: self.current });
        draw_tab_rule(&mut ops, self.dimensions.x);
        assert(self@.sessions[self.current as int] == self.buffers@[self.current as int]@);
        assert(self@.sessions[self.current as int].wf());
        content(&mut ops, self.buffers[self.current].active(), self.dimensions, self.display);
        draw_tab_labels(&mut ops, self.labels());
        emit(&mut ops, DrawOp::ShowCursor);
        emit(&mut ops, DrawOp::Flush);
        assert(views(ops@) =~= frame(self@));
        ops
    }

    fn resize(&mut self, live: Pos<i32>)
        ensures
            final(self)@ == resized(old(self)@, live),
    {
        let same = self.dimensions.compare(&live);
        proof {
            crate::pos::lemma_compare_i32(self.dimensions, live);
        }
        if !same {
            self.dimensions = live;
            self.display = region(live);
        }
    }

    /// Draws the controller in full, for the dimensions `live` that the
    /// terminal reports now; where they are new, they are recorded first,
    /// with the content region that goes with them.
    pub fn display(&mut self, live: Pos<i32>) -> (ops: Vec<DrawOp>)
        requires
            old(self)@.wf(),
            !old(self)@.terminado,
        ensures
            final(self)@ == resized(old(self)@, live),
            final(self)@.wf(),
            views(ops@) == frame(final(self)@),
    {
        self.resize(live);
        self.render()
    }

    fn prompt(&self, ops: &mut Vec<DrawOp>)
        ensures
            views(final(ops)@) == views(old(ops)@) + prompt_ops(self@),
    {
        let row = up(self.dimensions.y, 2);
        let len = up(self.dimensions.x, 2);
        emit(ops, DrawOp::Rule { row, col: 1, len, attr: prompt_highlight() });
        emit(ops, DrawOp::Text { row, col: 1, text: string_of(&self.command) });
        emit(ops, DrawOp::Flush);
        assert(views(ops@) =~= views(old(ops)@) + prompt_ops(self@));
    }

    /// Carries out the command that was typed, and closes the command line.
    pub fn handle_action(&mut self) -> (ops: Vec<DrawOp>)
        requires
            old(self)@.wf(),
            !old(self)@.terminado,
        ensures
            final(self)@ == dispatch(old(self)@),
            views(ops@) == dispatch_ops(old(self)@),
    {
        let text = string_of(&self.command);
        let mut ops: Vec<DrawOp> = Vec::new();
        assert(views(ops@) =~= Seq::<Draw>::empty());
        self.command.clear();
        self.capturing = false;
        if text == String::from_str(":q") {
            let index = self.current;
            self.buffers.remove(index);
            assert(sessions(self.buffers@) =~= old(self)@.sessions.remove(index as int));
            emit(&mut ops, DrawOp::CloseSurface { index });
            if self.buffers.len() == 0 {
                self.current = 0;
                self.terminado = true;
                emit(&mut ops, DrawOp::Exit { status: 0 });
            } else {
                self.current = if index > 0 {
                    index - 1
                } else {
                    0
                };
            }
            assert(self.command@ =~= Seq::<char>::empty());
            assert(views(ops@) =~= dispatch_ops(old(self)@));
        } else if text == String::from_str(":qa") {
            self.buffers.clear();
            self.current = 0;
            self.terminado = true;
            emit(&mut ops, DrawOp::Exit { status: 0 });
            assert(sessions(self.buffers@) =~= Seq::<Session>::empty());
            assert(self.command@ =~= Seq::<char>::empty());
            assert(views(ops@) =~= dispatch_ops(old(self)@));
        } else if text == String::from_str(":new") {
            if let Ok((session, surface)) = State::new(None, None, None, self.dimensions) {
                let at = self.buffers.len();
                self.buffers.push(session);
                self.current = at;
                emit(&mut ops, surface);
                assert(sessions(self.buffers@) =~= old(self)@.sessions.push(
                    Session::single(empty_document()),
                ));
            }
            assert(self.command@ =~= Seq::<char>::empty());
            assert(views(ops@) =~= dispatch_ops(old(self)@));
        } else {
            let message = String::from_str("Command not found: ").concat(text.as_str());
            emit(&mut ops, DrawOp::Text { row: up(self.dimensions.y, 1), col: 1, text: message });
            assert(self.command@ =~= Seq::<char>::empty());
            assert(views(ops@) =~= dispatch_ops(old(self)@));
        }
        ops
    }

    /// Takes one key into the open command line.
    pub fn handle_command(&mut self, key: i32) -> (ops: Vec<DrawOp>)
        requires
            old(self)@.wf(),
            !old(self)@.terminado,
        ensures
            final(self)@ == capture(old(self)@, key),
            views(ops@) == capture_ops(old(self)@, key),
    {
        let mut ops: Vec<DrawOp> = Vec::new();
        assert(views(ops@) =~= Seq::<Draw>::empty());
        if key == backspace_key() {
            if self.command.len() == 0 {
                self.capturing = false;
            } else {
                self.command.pop();
                assert(self.command@ =~= old(self).command@.drop_last());
                self.prompt(&mut ops);
            }
        } else if key == KEY_ENTER {
            self.prompt(&mut ops);
            emit(
                &mut ops,
                DrawOp::Rule {
                    row: up(self.dimensions.y, 2),
                    col: 1,
                    len: up(self.dimensions.x, 2),
                    attr: 0,
                },
            );
            let more = self.handle_action();
            emit_all(&mut ops, more);
            assert(views(ops@) =~= capture_ops(old(self)@, key));
        } else if 32 <= key && key <= 126 {
            self.command.push(key as u8 as char);
            self.prompt(&mut ops);
        }
        assert(views(ops@) =~= capture_ops(old(self)@, key));
        ops
    }

    /// One turn of the main loop: takes note of the dimensions `live` that
    /// the terminal reports, takes the key, and says what to draw.
    pub fn update(&mut self, key: i32, live: Pos<i32>) -> (ops: Vec<DrawOp>)
        requires
            old(self)@.wf(),
            !old(self)@.terminado,
        ensures
            final(self)@ == step(old(self)@, key, live),
            views(ops@) == step_ops(old(self)@, key, live),
            final(self)@.wf(),
    {
        proof {
            lemma_step_wf(old(self)@, key, live);
        }
        let mut ops: Vec<DrawOp> = Vec::new();
        assert(views(ops@) =~= Seq::<Draw>::empty());
        emit(&mut ops, DrawOp::Select { index: self.current });
        self.resize(live);
        if self.capturing {
            let more = self.handle_command(key);
            emit_all(&mut ops, more);
        } else if key == KEY_COLON {
            self.capturing = true;
            self.command.push(':');
            assert(self.command@ =~= seq![':']);
            self.prompt(&mut ops);
        }
        if !self.terminado && !self.capturing {
            let all = self.render();
            emit_all(&mut ops, all);
        }
        assert(views(ops@) =~= step_ops(old(self)@, key, live));
        ops
    }
}

} // verus!
