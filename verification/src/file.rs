//! Documents: the lines of one text, where they came from, and how they are
//! written back.

use vstd::prelude::*;
use crate::text::{chars_of, push_all, string_of, texts};

verus! {

/// What is known of a backing file besides its text.
#[derive(Debug, Copy, Clone, PartialEq, Eq)]
pub struct FileData {
    /// The permission bits.
    pub mode: u32,
    /// The size in bytes.
    pub size: u64,
    pub is_directory: bool,
}

/// Why a document could not be loaded or saved.
#[derive(Debug, Copy, Clone, PartialEq, Eq)]
pub enum FileError {
    /// The backing file is missing or cannot be opened or inspected.
    ResourceUnreadable,
    /// Writing the backing file failed.
    ResourceWriteFailed,
    /// The document is bound to no file.
    NoBackingResource,
}

/// One text in memory.
#[derive(Debug, Clone, PartialEq, Eq)]
pub struct ArranoFile {
    /// The backing file, if the document is bound to one.
    pub path: Option<String>,
    /// The lines, in order, without their terminators.
    pub buffer: Vec<String>,
    /// Present only for a document that was loaded.
    pub data: Option<FileData>,
}

/// A document as contracts see it.
pub ghost struct Document {
    pub path: Option<Seq<char>>,
    pub lines: Seq<Seq<char>>,
    pub data: Option<FileData>,
}

impl View for ArranoFile {
    type V = Document;

    open spec fn view(&self) -> Document {
        Document {
            path: match self.path {
                Some(p) => Some(p@),
                None => None,
            },
            lines: texts(self.buffer@),
            data: self.data,
        }
    }
}

/// A line as it is stored: a carriage return just before the line feed
/// belongs to the terminator.
pub open spec fn strip_cr(line: Seq<char>) -> Seq<char> {
    if line.len() > 0 && line.last() == '\r' {
        line.drop_last()
    } else {
        line
    }
}

/// The state of a reader after the first `n` characters of `s`: the lines
/// that a line feed has closed, and the characters of the line still open.
pub open spec fn scan(s: Seq<char>, n: int) -> (Seq<Seq<char>>, Seq<char>)
    decreases n,
{
    if n <= 0 {
        (Seq::empty(), Seq::empty())
    } else {
        let before = scan(s, n - 1);
        if s[n - 1] == '\n' {
            (before.0.push(strip_cr(before.1)), Seq::empty())
        } else {
            (before.0, before.1.push(s[n - 1]))
        }
    }
}

/// The lines of a text. Every line feed ends a line; what follows the last
/// line feed is a line of its own unless it is empty, and is kept as it
/// stands: with no line feed after it, it has no terminator to lose.
pub open spec fn split_lines(s: Seq<char>) -> Seq<Seq<char>> {
    let end = scan(s, s.len() as int);
    if end.1.len() > 0 {
        end.0.push(end.1)
    } else {
        end.0
    }
}

/// The text of a file that holds `lines`: each line followed by a line feed.
pub open spec fn join_lines(lines: Seq<Seq<char>>) -> Seq<char>
    decreases lines.len(),
{
    if lines.len() == 0 {
        Seq::empty()
    } else {
        join_lines(lines.drop_last()) + lines.last() + seq!['\n']
    }
}

/// A line that survives being written and read again: it holds no line feed
/// and does not end in a carriage return.
pub open spec fn plain_line(line: Seq<char>) -> bool {
    &&& forall|i: int| 0 <= i < line.len() ==> line[i] != '\n'
    &&& strip_cr(line) == line
}

proof fn lemma_scan_prefix(s: Seq<char>, t: Seq<char>, n: int)
    requires
        0 <= n <= s.len(),
    ensures
        scan(s + t, n) == scan(s, n),
    decreases n,
{
    if n > 0 {
        lemma_scan_prefix(s, t, n - 1);
    }
}

proof fn lemma_scan_open_line(s: Seq<char>, line: Seq<char>, rest: Seq<char>, k: int)
    requires
        scan(s, s.len() as int).1.len() == 0,
        forall|i: int| 0 <= i < line.len() ==> line[i] != '\n',
        0 <= k <= line.len(),
    ensures
        scan(s + line + rest, s.len() + k) == (scan(s, s.len() as int).0, line.subrange(0, k)),
    decreases k,
{
    let whole = s + line + rest;
    if k == 0 {
        assert(whole =~= s + (line + rest));
        lemma_scan_prefix(s, line + rest, s.len() as int);
        assert(scan(s, s.len() as int).1 =~= line.subrange(0, 0));
    } else {
        lemma_scan_open_line(s, line, rest, k - 1);
        assert(whole[s.len() + k - 1] == line[k - 1]);
        assert(line.subrange(0, k - 1).push(line[k - 1]) =~= line.subrange(0, k));
    }
}

/// Reading what was written gives the lines back, in order and unchanged,
/// and leaves no line open.
pub proof fn lemma_scan_join(lines: Seq<Seq<char>>)
    requires
        forall|i: int| 0 <= i < lines.len() ==> plain_line(#[trigger] lines[i]),
    ensures
        scan(join_lines(lines), join_lines(lines).len() as int) == (lines, Seq::<char>::empty()),
    decreases lines.len(),
{
    if lines.len() > 0 {
        let head = lines.drop_last();
        let line = lines.last();
        let s = join_lines(head);
        lemma_scan_join(head);
        assert(plain_line(line));
        lemma_scan_open_line(s, line, seq!['\n'], line.len() as int);
        let whole = s + line + seq!['\n'];
        assert(whole.len() == s.len() + line.len() + 1);
        assert(whole[whole.len() - 1] == '\n');
        assert(line.subrange(0, line.len() as int) =~= line);
        assert(head.push(line) =~= lines);
    }
}

/// A file whose last line has no line feed after it still gives that line:
/// the text written for `lines`, followed by `last`, splits into `lines`
/// and then `last`, unchanged.
pub proof fn lemma_load_unterminated(lines: Seq<Seq<char>>, last: Seq<char>)
    requires
        forall|i: int| 0 <= i < lines.len() ==> plain_line(#[trigger] lines[i]),
        forall|i: int| 0 <= i < last.len() ==> last[i] != '\n',
        last.len() > 0,
    ensures
        split_lines(join_lines(lines) + last) == lines.push(last),
{
    let s = join_lines(lines);
    lemma_scan_join(lines);
    lemma_scan_open_line(s, last, Seq::empty(), last.len() as int);
    assert(s + last + Seq::<char>::empty() =~= s + last);
    assert(last.subrange(0, last.len() as int) =~= last);
}

/// Saving a document and loading it again gives the same lines: splitting
/// the text that `join_lines` writes returns the lines it was made from,
/// provided each is a plain line.
pub proof fn lemma_save_then_load(lines: Seq<Seq<char>>)
    requires
        forall|i: int| 0 <= i < lines.len() ==> plain_line(#[trigger] lines[i]),
    ensures
        split_lines(join_lines(lines)) == lines,
        split_lines(join_lines(lines)).len() == lines.len(),
{
    lemma_scan_join(lines);
}

/// A text in which no carriage return stands where it would be taken for
/// part of a terminator: none just before a line feed.
pub open spec fn plain_text(s: Seq<char>) -> bool {
    forall|i: int| 0 < i < s.len() && #[trigger] s[i] == '\n' ==> s[i - 1] != '\r'
}

proof fn lemma_scan_rebuilds(s: Seq<char>, n: int)
    requires
        plain_text(s),
        0 <= n <= s.len(),
    ensures
        join_lines(scan(s, n).0) + scan(s, n).1 == s.take(n),
    decreases n,
{
    if n == 0 {
        assert(join_lines(scan(s, n).0) + scan(s, n).1 =~= s.take(n));
    } else {
        lemma_scan_rebuilds(s, n - 1);
        let before = scan(s, n - 1);
        assert(s.take(n) =~= s.take(n - 1).push(s[n - 1]));
        if s[n - 1] == '\n' {
            if before.1.len() > 0 {
                assert(before.1.last() == s.take(n - 1)[n - 2]);
            }
            assert(strip_cr(before.1) == before.1);
            let lines = before.0.push(before.1);
            assert(lines.drop_last() =~= before.0);
            assert(join_lines(lines) =~= join_lines(before.0) + before.1 + seq!['\n']);
            assert(join_lines(lines) + Seq::<char>::empty() =~= s.take(n));
        } else {
            assert(join_lines(before.0) + before.1.push(s[n - 1]) =~= s.take(n));
        }
    }
}

/// Loading a text and saving it again gives the text back, with a line
/// feed added where the last line had none.
pub proof fn lemma_load_then_save(s: Seq<char>)
    requires
        plain_text(s),
    ensures
        join_lines(split_lines(s)) == if s.len() == 0 || s.last() == '\n' {
            s
        } else {
            s.push('\n')
        },
{
    let n = s.len() as int;
    lemma_scan_rebuilds(s, n);
    let end = scan(s, n);
    assert(s.take(n) =~= s);
    if end.1.len() > 0 {
        assert(end.1.last() == s[n - 1]);
        let lines = end.0.push(end.1);
        assert(lines.drop_last() =~= end.0);
        assert(join_lines(lines) =~= s.push('\n'));
    } else {
        assert(join_lines(end.0) =~= s);
    }
}

fn close_line(lines: &mut Vec<String>, open: &mut Vec<char>)
    ensures
        texts(final(lines)@) == texts(old(lines)@).push(strip_cr(old(open)@)),
        final(open)@.len() == 0,
{
    let n = open.len();
    if n > 0 && open[n - 1] == '\r' {
        open.pop();
    }
    lines.push(string_of(open));
    assert(texts(lines@) =~= texts(old(lines)@).push(strip_cr(old(open)@)));
    open.clear();
}

/// Splits a text into its lines.
pub fn lines_of(content: &str) -> (lines: Vec<String>)
    ensures
        texts(lines@) == split_lines(content@),
{
    let chars = chars_of(content);
    let mut lines: Vec<String> = Vec::new();
    let mut open: Vec<char> = Vec::new();
    let mut i: usize = 0;
    assert(texts(lines@) =~= Seq::<Seq<char>>::empty());
    while i < chars.len()
        invariant
            i <= chars.len(),
            chars@ == content@,
            scan(chars@, i as int) == (texts(lines@), open@),
        decreases chars.len() - i,
    {
        let c = chars[i];
        if c == '\n' {
            close_line(&mut lines, &mut open);
            assert(open@ =~= Seq::<char>::empty());
        } else {
            open.push(c);
        }
        i += 1;
    }
    if open.len() > 0 {
        let ghost closed = texts(lines@);
        lines.push(string_of(&open));
        assert(texts(lines@) =~= closed.push(open@));
    }
    lines
}

/// Joins lines into the text of a file, a line feed after each.
pub fn text_of(lines: &Vec<String>) -> (content: String)
    ensures
        content@ == join_lines(texts(lines@)),
{
    let mut out: Vec<char> = Vec::new();
    let mut i: usize = 0;
    assert(texts(lines@).subrange(0, 0) =~= Seq::<Seq<char>>::empty());
    while i < lines.len()
        invariant
            i <= lines.len(),
            out@ == join_lines(texts(lines@).subrange(0, i as int)),
        decreases lines.len() - i,
    {
        let line = chars_of(lines[i].as_str());
        push_all(&mut out, &line);
        out.push('\n');
        proof {
            let next = texts(lines@).subrange(0, i + 1);
            assert(next.drop_last() =~= texts(lines@).subrange(0, i as int));
            assert(next.last() == line@);
        }
        i += 1;
    }
    assert(texts(lines@).subrange(0, lines.len() as int) =~= texts(lines@));
    string_of(&out)
}

impl ArranoFile {
    /// The document for the file `path`, given what reading the file and
    /// inspecting it gave; `None` stands for a failure of either.
    pub fn new(path: String, content: Option<String>, data: Option<FileData>) -> (r: Result<
        Self,
        FileError,
    >)
        ensures
            (content is Some && data is Some) <==> r is Ok,
            r is Err ==> r == Err::<Self, FileError>(FileError::ResourceUnreadable),
            r is Ok ==> r->Ok_0@ == (Document {
                path: Some(path@),
                lines: split_lines(content->Some_0@),
                data: data,
            }),
    {
        match (content, data) {
            (Some(text), Some(d)) => {
                let buffer = lines_of(text.as_str());
                Ok(Self { path: Some(path), buffer, data: Some(d) })
            },
            _ => Err(FileError::ResourceUnreadable),
        }
    }

    /// A document without lines, bound to no file.
    pub fn new_empty() -> (doc: Self)
        ensures
            doc@ == (Document { path: None, lines: Seq::empty(), data: None }),
            doc.buffer@.len() == 0,
    {
        let buffer: Vec<String> = Vec::new();
        assert(texts(buffer@) =~= Seq::<Seq<char>>::empty());
        Self { buffer, data: None, path: None }
    }

    /// Adds `line` after the last line.
    pub fn append_line(&mut self, line: String)
        ensures
            final(self)@ == (Document { lines: old(self)@.lines.push(line@), ..old(self)@ }),
    {
        self.buffer.push(line);
        assert(texts(self.buffer@) =~= texts(old(self).buffer@).push(line@));
    }

    /// The text to write to the backing file. A document bound to no file
    /// cannot be saved.
    pub fn save(&self) -> (r: Result<String, FileError>)
        ensures
            self@.path is Some <==> r is Ok,
            r is Err ==> r == Err::<String, FileError>(FileError::NoBackingResource),
            r is Ok ==> r->Ok_0@ == join_lines(self@.lines),
    {
        if self.path.is_none() {
            return Err(FileError::NoBackingResource);
        }
        Ok(text_of(&self.buffer))
    }
}

/// What a save comes to once the write was attempted.
pub fn write_outcome(written: bool) -> (r: Result<(), FileError>)
    ensures
        written <==> r is Ok,
        r is Err ==> r == Err::<(), FileError>(FileError::ResourceWriteFailed),
{
    if written {
        Ok(())
    } else {
        Err(FileError::ResourceWriteFailed)
    }
}

/// One letter of a permission string: `letter` where `mode` has a bit of
/// `mask`, a dash where it has none.
pub open spec fn flag(mode: u32, mask: u32, letter: char) -> char {
    if mode & mask != 0 {
        letter
    } else {
        '-'
    }
}

/// The ten characters of a long listing: the type, then read, write and
/// execute for the owner, the group and all others.
pub open spec fn permission_text(mode: u32, is_directory: bool) -> Seq<char> {
    seq![
        if is_directory { 'd' } else { '-' },
        flag(mode, 0o400, 'r'),
        flag(mode, 0o200, 'w'),
        flag(mode, 0o100, 'x'),
        flag(mode, 0o040, 'r'),
        flag(mode, 0o020, 'w'),
        flag(mode, 0o010, 'x'),
        flag(mode, 0o004, 'r'),
        flag(mode, 0o002, 'w'),
        flag(mode, 0o001, 'x'),
    ]
}

fn flag_of(mode: u32, mask: u32, letter: char) -> (c: char)
    ensures
        c == flag(mode, mask, letter),
{
    if mode & mask != 0 {
        letter
    } else {
        '-'
    }
}

/// Renders permission bits as in a long listing, such as `-rwxr-xr-x`.
pub fn format_permissions(mode: u32, is_directory: bool) -> (s: String)
    ensures
        s@ == permission_text(mode, is_directory),
        s@.len() == 10,
        (s@[0] == 'd') == is_directory,
        forall|i: int| 1 <= i < 10 ==> s@[i] == '-' || s@[i] == 'r' || s@[i] == 'w' || s@[i] == 'x',
{
    let mut out: Vec<char> = Vec::new();
    out.push(if is_directory { 'd' } else { '-' });
    out.push(flag_of(mode, 0o400, 'r'));
    out.push(flag_of(mode, 0o200, 'w'));
    out.push(flag_of(mode, 0o100, 'x'));
    out.push(flag_of(mode, 0o040, 'r'));
    out.push(flag_of(mode, 0o020, 'w'));
    out.push(flag_of(mode, 0o010, 'x'));
    out.push(flag_of(mode, 0o004, 'r'));
    out.push(flag_of(mode, 0o002, 'w'));
    out.push(flag_of(mode, 0o001, 'x'));
    assert(out@ =~= permission_text(mode, is_directory));
    string_of(&out)
}

/// Whether `path` names an existing regular file.
///
/// Trusted: this is `std::path::Path::is_file`. The answer depends on what
/// is on disk when it is asked, so nothing is promised of it.
#[verifier::external_body]
pub fn is_file(path: impl AsRef<str>) -> bool {
    let path = std::path::Path::new(path.as_ref());
    path.is_file()
}

} // verus!
