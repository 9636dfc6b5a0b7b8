use arrano::app::{App, KEY_BACKSPACE, KEY_COLON, KEY_ENTER};
use arrano::draw::DrawOp;
use arrano::file::{FileData, FileError};
use arrano::pos::Pos;

fn dims() -> Pos<i32> {
    Pos::new(80, 24)
}

const TAB: u64 = 0x20_0200;
const PROMPT: u64 = 0x200;

fn text(row: i32, col: i32, text: &str) -> DrawOp {
    DrawOp::Text { row, col, text: text.to_string() }
}

fn start() -> App {
    App::new(None, None, None, dims()).unwrap().0
}

fn on_file(path: &str, content: &str) -> App {
    let data = FileData { mode: 0o644, size: 0, is_directory: false };
    App::new(Some(path.to_string()), Some(content.to_string()), Some(data), dims()).unwrap().0
}

fn type_line(app: &mut App, line: &str) -> Vec<DrawOp> {
    let mut last = Vec::new();
    for c in line.chars() {
        last = app.update(c as i32, dims());
    }
    last
}

fn prompt(command: &str) -> Vec<DrawOp> {
    vec![
        DrawOp::Rule { row: 22, col: 1, len: 78, attr: PROMPT },
        text(22, 1, command),
        DrawOp::Flush,
    ]
}

fn banner_frame(index: usize, labels: &[(i32, &str)]) -> Vec<DrawOp> {
    let mut want = vec![
        DrawOp::Select { index },
        DrawOp::Rule { row: 0, col: 0, len: 80, attr: TAB },
        text(11, 34, "Arrano v0.0.1"),
        text(12, 25, "Arrano is free and open source"),
    ];
    want.extend((13..22).map(|r| text(r, 0, "~")));
    want.extend(labels.iter().map(|(col, l)| text(0, *col, l)));
    want.push(DrawOp::ShowCursor);
    want.push(DrawOp::Flush);
    want
}

#[test]
fn starting_without_a_file_draws_the_banner() {
    let (app, ops) = App::new(None, None, None, dims()).unwrap();
    assert_eq!(app.buffers.len(), 1);
    assert_eq!(app.current, 0);
    assert_eq!(app.buffers[0].documents.len(), 1);
    assert!(app.buffers[0].documents[0].buffer.is_empty());
    assert_eq!(app.dimensions, dims());
    assert_eq!(app.display, Pos::new(2, 22));
    assert!(app.command.is_empty());
    assert!(!app.capturing);
    assert!(!app.terminado);
    let mut want = vec![DrawOp::OpenSurface { rows: 24, cols: 80 }];
    want.extend(banner_frame(0, &[(1, "Empty file")]));
    assert_eq!(ops, want);
}

#[test]
fn starting_on_an_unreadable_file_fails() {
    let r = App::new(Some("gone.txt".to_string()), None, None, dims());
    assert!(matches!(r, Err(FileError::ResourceUnreadable)));
}

#[test]
fn starting_on_a_file_shows_its_lines() {
    let data = FileData { mode: 0o644, size: 4, is_directory: false };
    let (app, ops) =
        App::new(Some("a.txt".to_string()), Some("hi\n".to_string()), Some(data), dims()).unwrap();
    assert_eq!(app.buffers[0].documents[0].buffer, vec!["hi".to_string()]);
    assert_eq!(ops[0], DrawOp::OpenSurface { rows: 24, cols: 80 });
    assert_eq!(ops[3], text(1, 3, "1"));
    assert_eq!(ops[4], text(1, 5, "hi"));
    assert_eq!(ops[ops.len() - 3], text(0, 1, "a.txt"));
}

#[test]
fn a_colon_opens_the_command_line() {
    let mut app = start();
    let ops = app.update(KEY_COLON, dims());
    assert!(app.capturing);
    assert_eq!(app.command, vec![':']);
    let mut want = vec![DrawOp::Select { index: 0 }];
    want.extend(prompt(":"));
    assert_eq!(ops, want);
}

#[test]
fn other_keys_only_draw_again() {
    let mut app = start();
    let ops = app.update('x' as i32, dims());
    assert!(!app.capturing);
    assert!(app.command.is_empty());
    assert_eq!(app.buffers.len(), 1);
    let mut want = vec![DrawOp::Select { index: 0 }];
    want.extend(banner_frame(0, &[(1, "Empty file")]));
    assert_eq!(ops, want);
}

#[test]
fn typed_characters_gather_in_the_command() {
    let mut app = start();
    let ops = type_line(&mut app, ":ne");
    assert_eq!(app.command, vec![':', 'n', 'e']);
    let mut want = vec![DrawOp::Select { index: 0 }];
    want.extend(prompt(":ne"));
    assert_eq!(ops, want);
    let ignored = app.update(27, dims());
    assert_eq!(app.command, vec![':', 'n', 'e']);
    assert_eq!(ignored, vec![DrawOp::Select { index: 0 }]);
    assert!(app.capturing);
}

#[test]
fn backspace_takes_the_last_character() {
    let mut app = start();
    type_line(&mut app, ":qx");
    let ops = app.update(KEY_BACKSPACE, dims());
    assert_eq!(app.command, vec![':', 'q']);
    let mut want = vec![DrawOp::Select { index: 0 }];
    want.extend(prompt(":q"));
    assert_eq!(ops, want);
    app.update(13, dims());
    assert_eq!(app.command, vec![':', 'q']);
}

#[test]
fn backspace_on_an_empty_command_closes_the_line() {
    let mut app = start();
    type_line(&mut app, ":");
    app.update(KEY_BACKSPACE, dims());
    assert!(app.capturing);
    assert!(app.command.is_empty());
    let ops = app.update(KEY_BACKSPACE, dims());
    assert!(!app.capturing);
    assert!(app.command.is_empty());
    assert_eq!(app.buffers.len(), 1);
    let mut want = vec![DrawOp::Select { index: 0 }];
    want.extend(banner_frame(0, &[(1, "Empty file")]));
    assert_eq!(ops, want);
}

#[test]
fn new_opens_a_session_and_makes_it_current() {
    let mut app = on_file("a.txt", "hi\n");
    type_line(&mut app, ":new");
    let ops = app.update(KEY_ENTER, dims());
    assert_eq!(app.buffers.len(), 2);
    assert_eq!(app.current, 1);
    assert_eq!(app.buffers[0].documents[0].buffer, vec!["hi".to_string()]);
    assert_eq!(app.buffers[1].documents[0].path, None);
    assert!(app.buffers[1].documents[0].buffer.is_empty());
    assert!(app.command.is_empty());
    assert!(!app.capturing);
    assert!(!app.terminado);
    let mut want = vec![DrawOp::Select { index: 0 }];
    want.extend(prompt(":new"));
    want.push(DrawOp::Rule { row: 22, col: 1, len: 78, attr: 0 });
    want.push(DrawOp::OpenSurface { rows: 24, cols: 80 });
    want.extend(banner_frame(1, &[(1, "a.txt"), (7, "Empty file")]));
    assert_eq!(ops, want);
}

#[test]
fn new_from_an_earlier_session_goes_to_the_last() {
    let mut app = start();
    type_line(&mut app, ":new\n:new\n");
    assert_eq!(app.current, 2);
    app.current = 0;
    type_line(&mut app, ":new\n");
    assert_eq!(app.buffers.len(), 4);
    assert_eq!(app.current, 3);
}

#[test]
fn quitting_the_last_session_ends() {
    let mut app = start();
    type_line(&mut app, ":q");
    let ops = app.update(KEY_ENTER, dims());
    assert!(app.buffers.is_empty());
    assert!(app.terminado);
    assert!(!app.capturing);
    assert!(app.command.is_empty());
    let mut want = vec![DrawOp::Select { index: 0 }];
    want.extend(prompt(":q"));
    want.push(DrawOp::Rule { row: 22, col: 1, len: 78, attr: 0 });
    want.push(DrawOp::CloseSurface { index: 0 });
    want.push(DrawOp::Exit { status: 0 });
    assert_eq!(ops, want);
}

#[test]
fn quitting_one_of_several_moves_back_by_one() {
    let mut app = on_file("a.txt", "hi\n");
    type_line(&mut app, ":new\n:new\n");
    assert_eq!(app.current, 2);
    let ops = type_line(&mut app, ":q\n");
    assert_eq!(app.buffers.len(), 2);
    assert_eq!(app.current, 1);
    assert!(!app.terminado);
    assert!(ops.contains(&DrawOp::CloseSurface { index: 2 }));
    assert_eq!(ops[ops.len() - 1], DrawOp::Flush);
    assert!(ops.contains(&DrawOp::Select { index: 1 }));
}

#[test]
fn quitting_the_first_of_several_stays_at_the_first() {
    let mut app = on_file("a.txt", "hi\n");
    type_line(&mut app, ":new\n");
    app.current = 0;
    let ops = type_line(&mut app, ":q\n");
    assert_eq!(app.buffers.len(), 1);
    assert_eq!(app.current, 0);
    assert_eq!(app.buffers[0].documents[0].path, None);
    assert!(!app.terminado);
    assert!(ops.contains(&DrawOp::CloseSurface { index: 0 }));
}

#[test]
fn quit_all_ends_with_any_number_of_sessions() {
    for extra in 0..4 {
        let mut app = start();
        for _ in 0..extra {
            type_line(&mut app, ":new\n");
        }
        assert_eq!(app.buffers.len(), extra + 1);
        let before = app.current;
        let ops = type_line(&mut app, ":qa\n");
        assert!(app.buffers.is_empty());
        assert!(app.terminado);
        let mut want = vec![DrawOp::Select { index: before }];
        want.extend(prompt(":qa"));
        want.push(DrawOp::Rule { row: 22, col: 1, len: 78, attr: 0 });
        want.push(DrawOp::Exit { status: 0 });
        assert_eq!(ops, want);
    }
}

#[test]
fn an_unknown_command_changes_nothing_but_the_message_row() {
    let mut app = on_file("a.txt", "hi\n");
    type_line(&mut app, ":new\n");
    let documents: Vec<_> = app.buffers.iter().map(|s| s.documents.clone()).collect();
    let current = app.current;
    type_line(&mut app, ":wq");
    let ops = app.update(KEY_ENTER, dims());
    let after: Vec<_> = app.buffers.iter().map(|s| s.documents.clone()).collect();
    assert_eq!(after, documents);
    assert_eq!(app.current, current);
    assert!(!app.terminado);
    assert!(!app.capturing);
    assert!(app.command.is_empty());
    let mut want = vec![DrawOp::Select { index: 1 }];
    want.extend(prompt(":wq"));
    want.push(DrawOp::Rule { row: 22, col: 1, len: 78, attr: 0 });
    want.push(text(23, 1, "Command not found: :wq"));
    want.extend(banner_frame(1, &[(1, "a.txt"), (7, "Empty file")]));
    assert_eq!(ops, want);
}

#[test]
fn commands_must_match_in_full() {
    for line in [":Q", ":q ", ":qaa", ":NEW", "::q", ":"] {
        let mut app = start();
        type_line(&mut app, line);
        app.update(KEY_ENTER, dims());
        assert_eq!(app.buffers.len(), 1);
        assert!(!app.terminado);
    }
}

#[test]
fn handle_action_carries_out_the_command_as_it_stands() {
    let mut app = start();
    app.capturing = true;
    app.command = ":new".chars().collect();
    let ops = app.handle_action();
    assert_eq!(ops, vec![DrawOp::OpenSurface { rows: 24, cols: 80 }]);
    assert_eq!(app.buffers.len(), 2);
    assert_eq!(app.current, 1);
    assert!(app.command.is_empty());
    assert!(!app.capturing);
}

#[test]
fn display_records_new_dimensions() {
    let mut app = start();
    let ops = app.display(Pos::new(40, 10));
    assert_eq!(app.dimensions, Pos::new(40, 10));
    assert_eq!(app.display, Pos::new(2, 8));
    assert_eq!(ops[0], DrawOp::Select { index: 0 });
    assert_eq!(ops[1], DrawOp::Rule { row: 0, col: 0, len: 40, attr: TAB });
    assert_eq!(ops[2], text(4, 14, "Arrano v0.0.1"));
    assert_eq!(ops[3], text(5, 5, "Arrano is free and open source"));
    let same = app.display(Pos::new(40, 10));
    assert_eq!(same, ops);
}

#[test]
fn from_start_to_quit_all() {
    let (mut app, first) = App::new(None, None, None, dims()).unwrap();
    assert_eq!(app.buffers.len(), 1);
    assert!(first.contains(&text(11, 34, "Arrano v0.0.1")));
    type_line(&mut app, ":new");
    app.update(KEY_ENTER, dims());
    assert_eq!(app.buffers.len(), 2);
    assert_eq!(app.current, 1);
    type_line(&mut app, ":qa");
    let last = app.update(KEY_ENTER, dims());
    assert!(app.terminado);
    assert!(app.buffers.is_empty());
    assert_eq!(last[last.len() - 1], DrawOp::Exit { status: 0 });
}

#[test]
fn the_backspace_key_is_the_one_of_the_keypad() {
    assert_eq!(KEY_BACKSPACE, 263);
    let mut app = start();
    type_line(&mut app, ":ab");
    app.update(263, dims());
    assert_eq!(app.command, vec![':', 'a']);
    app.update(8, dims());
    assert_eq!(app.command, vec![':', 'a']);
    app.update(127, dims());
    assert_eq!(app.command, vec![':', 'a']);
}

#[test]
fn rules_carry_the_attributes_of_their_colours() {
    let (_, first) = App::new(None, None, None, dims()).unwrap();
    assert_eq!(first[2], DrawOp::Rule { row: 0, col: 0, len: 80, attr: (2 << 8) | (1 << 21) });
    let mut app = start();
    let ops = app.update(KEY_COLON, dims());
    assert_eq!(ops[1], DrawOp::Rule { row: 22, col: 1, len: 78, attr: 2 << 8 });
}

#[test]
fn keys_the_command_line_does_not_know_change_nothing() {
    for key in [13, 27, 259, -1, 0, 9, 31, 127, 128, 262, 264, i32::MAX, i32::MIN] {
        let mut app = on_file("a.txt", "hi\n");
        type_line(&mut app, ":ne");
        let ops = app.update(key, dims());
        assert_eq!(ops, vec![DrawOp::Select { index: 0 }]);
        assert_eq!(app.command, vec![':', 'n', 'e']);
        assert!(app.capturing);
        assert!(!app.terminado);
        assert_eq!(app.buffers.len(), 1);
        assert_eq!(app.current, 0);
        type_line(&mut app, "w\n");
        assert_eq!(app.buffers.len(), 2);
    }
}
