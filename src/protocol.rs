//! The connection's protocol: the greeting, reply framing and the
//! splitting of multi-song replies.
use vstd::prelude::*;

use crate::number::{number_of, parse_number};
use crate::text::{
    chars_eq, chars_of, ends_with, find_char, find_sep, first_char, has_sep, key_of, lines, occurs_at,
    slice_of, split_lines, starts_with, string_of, substring, trim_end, trim_end_len,
};

verus! {

/// Protocol version that the server announces in its greeting.
#[derive(PartialEq, Eq, Structural, Clone, Copy, Debug)]
pub struct Version {
    pub major: u32,
    pub minor: u32,
    pub patch: u32,
}

/// A component of a version.
pub open spec fn component_of(s: Seq<char>) -> Option<u32> {
    match number_of(s, u32::MAX as nat) {
        Some(n) => Some(n as u32),
        None => None,
    }
}

/// The version written `major.minor.patch` in `s`; the patch is everything
/// after the second point.
pub open spec fn version_of(s: Seq<char>) -> Option<Version> {
    if !s.contains('.') {
        None
    } else {
        let i = first_char(s, '.');
        let rest = s.skip(i + 1);
        if !rest.contains('.') {
            None
        } else {
            let j = first_char(rest, '.');
            match (component_of(s.take(i)), component_of(rest.take(j)), component_of(rest.skip(j + 1))) {
                (Some(major), Some(minor), Some(patch)) => Some(Version { major, minor, patch }),
                _ => None,
            }
        }
    }
}

/// Decodes a component of a version.
fn parse_component(v: &Vec<char>) -> (r: Option<u32>)
    ensures
        r == component_of(v@),
{
    parse_number(v, u32::MAX)
}

impl Version {
    /// Decodes a version written `major.minor.patch`.
    pub fn parse(input: &str) -> (r: Result<Version, ()>)
        ensures
            match version_of(input@) {
                Some(v) => r == Ok::<Version, ()>(v),
                None => r is Err,
            },
    {
        let s = chars_of(input);
        let n = s.len();
        let i = match find_char(&s, '.') {
            Some(i) => i,
            None => return Err(()),
        };
        let rest = slice_of(&s, i + 1, n);
        assert(rest@ =~= s@.skip(i + 1));
        let m = rest.len();
        let j = match find_char(&rest, '.') {
            Some(j) => j,
            None => return Err(()),
        };
        let a = slice_of(&s, 0, i);
        let b = slice_of(&rest, 0, j);
        let c = slice_of(&rest, j + 1, m);
        assert(a@ =~= s@.take(i as int));
        assert(b@ =~= rest@.take(j as int));
        assert(c@ =~= rest@.skip(j + 1));
        let major = match parse_component(&a) {
            Some(x) => x,
            None => return Err(()),
        };
        let minor = match parse_component(&b) {
            Some(x) => x,
            None => return Err(()),
        };
        let patch = match parse_component(&c) {
            Some(x) => x,
            None => return Err(()),
        };
        Ok(Version { major, minor, patch })
    }

    /// The major component of the version.
    pub fn major(&self) -> (r: u32)
        ensures
            r == self.major,
    {
        self.major
    }

    /// The minor component of the version.
    pub fn minor(&self) -> (r: u32)
        ensures
            r == self.minor,
    {
        self.minor
    }

    /// The patch component of the version.
    pub fn patch(&self) -> (r: u32)
        ensures
            r == self.patch,
    {
        self.patch
    }
}

/// A greeting that the handshake cannot accept.
#[derive(Debug)]
pub enum HandshakeError {
    /// The greeting does not begin with `OK MPD `
    BadGreeting { line: String },
    /// The version in the greeting does not decode
    BadVersion { text: String },
}

/// Mathematical value of a [`HandshakeError`].
pub enum HandshakeErrorView {
    BadGreeting { line: Seq<char> },
    BadVersion { text: Seq<char> },
}

impl View for HandshakeError {
    type V = HandshakeErrorView;

    open spec fn view(&self) -> HandshakeErrorView {
        match self {
            HandshakeError::BadGreeting { line } => HandshakeErrorView::BadGreeting { line: line@ },
            HandshakeError::BadVersion { text } => HandshakeErrorView::BadVersion { text: text@ },
        }
    }
}

/// The outcome of the handshake on the greeting `line`.
pub open spec fn greeting_of(line: Seq<char>) -> Result<Version, HandshakeErrorView> {
    if !starts_with(line, "OK MPD "@) {
        Err(HandshakeErrorView::BadGreeting { line })
    } else {
        let text = trim_end(line.skip("OK MPD "@.len() as int));
        match version_of(text) {
            Some(v) => Ok(v),
            None => Err(HandshakeErrorView::BadVersion { text }),
        }
    }
}

/// Decodes the server's greeting, `OK MPD <major>.<minor>.<patch>`.
pub fn parse_greeting(line: &str) -> (r: Result<Version, HandshakeError>)
    ensures
        match r {
            Ok(v) => greeting_of(line@) == Ok::<Version, HandshakeErrorView>(v),
            Err(e) => greeting_of(line@) == Err::<Version, HandshakeErrorView>(e@),
        },
{
    let v = chars_of(line);
    let p = chars_of("OK MPD ");
    assert(v@.skip(0) =~= v@);
    if !occurs_at(&v, &p, 0) {
        return Err(HandshakeError::BadGreeting { line: line.to_owned() });
    }
    let rest = slice_of(&v, p.len(), v.len());
    assert(rest@ =~= v@.skip(p@.len() as int));
    let k = trim_end_len(&rest, rest.len());
    assert(rest@.take(rest@.len() as int) =~= rest@);
    let text = substring(&rest, 0, k);
    assert(text@ =~= rest@.take(k as int));
    match Version::parse(text.as_str()) {
        Ok(ver) => Ok(ver),
        Err(_) => Err(HandshakeError::BadVersion { text }),
    }
}

/// What the lines read so far of a reply amount to.
#[derive(Debug)]
pub enum Frame {
    /// The reply goes on: read another line
    Incomplete,
    /// The server reported a failure; `message` is its line
    ServerError { message: String },
    /// The reply is complete; `text` is its body
    Body { text: String },
}

/// Mathematical value of a [`Frame`].
pub enum FrameView {
    Incomplete,
    ServerError { message: Seq<char> },
    Body { text: Seq<char> },
}

impl View for Frame {
    type V = FrameView;

    open spec fn view(&self) -> FrameView {
        match self {
            Frame::Incomplete => FrameView::Incomplete,
            Frame::ServerError { message } => FrameView::ServerError { message: message@ },
            Frame::Body { text } => FrameView::Body { text: text@ },
        }
    }
}

/// The line that ends a successful reply.
pub open spec fn success_end() -> Seq<char> {
    seq!['O', 'K', '\n']
}

/// Whether `buffer` ends with the whole line `OK`: it is that line, or that
/// line follows a line feed.
pub open spec fn ends_with_ok_line(buffer: Seq<char>) -> bool {
    buffer == success_end() || ends_with(buffer, seq!['\n', 'O', 'K', '\n'])
}

/// What the text `buffer`, read so far of a reply, amounts to: a failure when
/// it begins with `ACK`; else, once its last line is the whole line `OK`, the
/// body before that line without trailing whitespace.
pub open spec fn frame_of(buffer: Seq<char>) -> FrameView {
    if starts_with(buffer, seq!['A', 'C', 'K']) {
        FrameView::ServerError { message: trim_end(buffer) }
    } else if ends_with_ok_line(buffer) {
        FrameView::Body { text: trim_end(buffer.take(buffer.len() - 3)) }
    } else {
        FrameView::Incomplete
    }
}

/// Classifies the text read so far of a reply.
pub fn frame(buffer: &str) -> (r: Frame)
    ensures
        r@ == frame_of(buffer@),
{
    let v = chars_of(buffer);
    let n = v.len();
    if n >= 3 && v[0] == 'A' && v[1] == 'C' && v[2] == 'K' {
        assert(v@.take(3) =~= seq!['A', 'C', 'K']);
        let k = trim_end_len(&v, n);
        assert(v@.take(n as int) =~= v@);
        return Frame::ServerError { message: substring(&v, 0, k) };
    }
    assert(!starts_with(v@, seq!['A', 'C', 'K'])) by {
        if n >= 3 && v@.take(3) == seq!['A', 'C', 'K'] {
            assert(v@.take(3)[0] == v@[0]);
            assert(v@.take(3)[1] == v@[1]);
            assert(v@.take(3)[2] == v@[2]);
        }
    }
    let ends_ok = n >= 3 && v[n - 3] == 'O' && v[n - 2] == 'K' && v[n - 1] == '\n';
    if ends_ok && (n == 3 || v[n - 4] == '\n') {
        assert(v@.skip(n - 3) =~= success_end());
        if n == 3 {
            assert(v@ =~= success_end());
        } else {
            assert(v@.skip(n - 4) =~= seq!['\n', 'O', 'K', '\n']);
        }
        let k = trim_end_len(&v, n - 3);
        return Frame::Body { text: substring(&v, 0, k) };
    }
    assert(!ends_with_ok_line(v@)) by {
        if v@ == success_end() {
            assert(v@[0] == 'O' && v@[1] == 'K' && v@[2] == '\n');
        }
        if n >= 4 && v@.skip(n - 4) == seq!['\n', 'O', 'K', '\n'] {
            assert(v@.skip(n - 4)[0] == v@[n - 4]);
            assert(v@.skip(n - 4)[1] == v@[n - 3]);
            assert(v@.skip(n - 4)[2] == v@[n - 2]);
            assert(v@.skip(n - 4)[3] == v@[n - 1]);
        }
    }
    Frame::Incomplete
}


/// Whether the line `l` has a key that some line of `group` already has.
pub open spec fn key_repeats(group: Seq<Seq<char>>, l: Seq<char>) -> bool {
    has_sep(l) && exists|j: int|
        0 <= j < group.len() && has_sep(#[trigger] group[j]) && key_of(group[j]) == key_of(l)
}

/// State of the song grouping after the lines `ls`: the finished groups, and
/// the group under way.
pub open spec fn scan_groups(ls: Seq<Seq<char>>) -> (Seq<Seq<Seq<char>>>, Seq<Seq<char>>)
    decreases ls.len(),
{
    if ls.len() == 0 {
        (seq![], seq![])
    } else {
        let (done, cur) = scan_groups(ls.drop_last());
        if key_repeats(cur, ls.last()) {
            (done.push(cur), seq![ls.last()])
        } else {
            (done, cur.push(ls.last()))
        }
    }
}

/// The lines `ls` of a listing grouped by song: a new song begins at each
/// line whose key the song under way already has.
pub open spec fn song_groups(ls: Seq<Seq<char>>) -> Seq<Seq<Seq<char>>> {
    let (done, cur) = scan_groups(ls);
    if cur.len() == 0 {
        done
    } else {
        done.push(cur)
    }
}

/// The lines `ls` joined by line feeds.
pub open spec fn join_lines(ls: Seq<Seq<char>>) -> Seq<char>
    decreases ls.len(),
{
    if ls.len() == 0 {
        seq![]
    } else if ls.len() == 1 {
        ls[0]
    } else {
        join_lines(ls.drop_last()) + seq!['\n'] + ls.last()
    }
}

/// The song blocks of a reply body: the text of each group of lines that
/// describes one song; none when the body is blank.
pub open spec fn songs_of(s: Seq<char>) -> Seq<Seq<char>> {
    if trim_end(s).len() == 0 {
        seq![]
    } else {
        song_groups(lines(s)).map_values(|g: Seq<Seq<char>>| join_lines(g))
    }
}

/// The file entries among the lines `ls` of a listing: what follows `file: `
/// on each line that begins with it.
pub open spec fn files_in(ls: Seq<Seq<char>>) -> Seq<Seq<char>>
    decreases ls.len(),
{
    if ls.len() == 0 {
        seq![]
    } else {
        let r = files_in(ls.drop_last());
        if starts_with(ls.last(), "file: "@) {
            r.push(ls.last().skip(6))
        } else {
            r
        }
    }
}

/// The file entries of a listing reply; directories and metadata are left out.
pub fn file_entries(body: &str) -> (r: Vec<String>)
    ensures
        r@.len() == files_in(lines(body@)).len(),
        forall|i: int| 0 <= i < r@.len() ==> #[trigger] r@[i]@ == files_in(lines(body@))[i],
{
    let v = chars_of(body);
    let ls = split_lines(&v);
    let ghost gl = lines(body@);
    let p = chars_of("file: ");
    proof {
        reveal_strlit("file: ");
    }
    let mut out: Vec<String> = Vec::new();
    let mut i: usize = 0;
    while i < ls.len()
        invariant
            i <= ls@.len(),
            ls@.len() == gl.len(),
            p@ == "file: "@,
            p@.len() == 6,
            forall|j: int| 0 <= j < ls@.len() ==> #[trigger] ls@[j]@ == gl[j],
            out@.len() == files_in(gl.take(i as int)).len(),
            forall|k: int| 0 <= k < out@.len() ==> #[trigger] out@[k]@ == files_in(gl.take(i as int))[k],
        decreases ls@.len() - i,
    {
        let l = &ls[i];
        assert(gl.take(i + 1).drop_last() =~= gl.take(i as int));
        assert(l@.skip(0) =~= l@);
        if occurs_at(l, &p, 0) {
            let m = l.len();
            out.push(substring(l, 6, m));
            assert(l@.subrange(6, m as int) =~= l@.skip(6));
        }
        i = i + 1;
    }
    assert(gl.take(ls@.len() as int) =~= gl);
    out
}

/// Whether the key of `l` is the key of some line of `group`.
fn key_in_group(group: &Vec<Vec<char>>, l: &Vec<char>, Ghost(g): Ghost<Seq<Seq<char>>>) -> (r: bool)
    requires
        group@.len() == g.len(),
        forall|j: int| 0 <= j < g.len() ==> #[trigger] group@[j]@ == g[j],
    ensures
        r == key_repeats(g, l@),
{
    let s = match find_sep(l) {
        Some(s) => s,
        None => return false,
    };
    let k = slice_of(l, 0, s);
    assert(k@ =~= key_of(l@));
    let mut j: usize = 0;
    while j < group.len()
        invariant
            j <= group@.len(),
            group@.len() == g.len(),
            forall|i: int| 0 <= i < g.len() ==> #[trigger] group@[i]@ == g[i],
            k@ == key_of(l@),
            has_sep(l@),
            forall|i: int| 0 <= i < j ==> !(has_sep(#[trigger] g[i]) && key_of(g[i]) == key_of(l@)),
        decreases group@.len() - j,
    {
        let m = &group[j];
        match find_sep(m) {
            Some(t) => {
                let mk = slice_of(m, 0, t);
                assert(mk@ =~= key_of(g[j as int]));
                if chars_eq(mk.as_slice(), k.as_slice()) {
                    return true;
                }
            },
            None => {},
        }
        j = j + 1;
    }
    false
}

/// The lines of `group` joined by line feeds.
fn join_group(group: &Vec<Vec<char>>, Ghost(g): Ghost<Seq<Seq<char>>>) -> (r: String)
    requires
        group@.len() == g.len(),
        forall|j: int| 0 <= j < g.len() ==> #[trigger] group@[j]@ == g[j],
    ensures
        r@ == join_lines(g),
{
    let mut v: Vec<char> = Vec::new();
    let mut i: usize = 0;
    while i < group.len()
        invariant
            i <= group@.len(),
            group@.len() == g.len(),
            forall|j: int| 0 <= j < g.len() ==> #[trigger] group@[j]@ == g[j],
            v@ == join_lines(g.take(i as int)),
        decreases group@.len() - i,
    {
        let ghost before = v@;
        assert(g.take(i + 1).drop_last() =~= g.take(i as int));
        if i > 0 {
            v.push('\n');
        }
        append_chars(&mut v, &group[i]);
        assert(v@ =~= join_lines(g.take(i + 1)));
        i = i + 1;
    }
    assert(g.take(i as int) =~= g);
    string_of(v.as_slice())
}

/// Appends the characters of `w` to `v`.
fn append_chars(v: &mut Vec<char>, w: &Vec<char>)
    ensures
        final(v)@ == old(v)@ + w@,
{
    let ghost start = v@;
    let mut i: usize = 0;
    while i < w.len()
        invariant
            i <= w@.len(),
            v@ == start + w@.take(i as int),
        decreases w@.len() - i,
    {
        v.push(w[i]);
        i = i + 1;
        assert(v@ =~= start + w@.take(i as int));
    }
    assert(w@.take(i as int) =~= w@);
}

/// Splits a listing of songs into the blocks that each describe one song:
/// a new block begins at each line whose key the block under way already has.
pub fn split_songs(body: &str) -> (r: Vec<String>)
    ensures
        r@.len() == songs_of(body@).len(),
        forall|i: int| 0 <= i < r@.len() ==> #[trigger] r@[i]@ == songs_of(body@)[i],
{
    let v = chars_of(body);
    let n = v.len();
    let mut out: Vec<String> = Vec::new();
    assert(v@.take(n as int) =~= v@);
    if trim_end_len(&v, n) == 0 {
        return out;
    }
    let ls = split_lines(&v);
    let ghost gl = lines(body@);
    let ghost done: Seq<Seq<Seq<char>>> = seq![];
    let ghost gc: Seq<Seq<char>> = seq![];
    let mut cur: Vec<Vec<char>> = Vec::new();
    let mut i: usize = 0;
    while i < ls.len()
        invariant
            i <= ls@.len(),
            ls@.len() == gl.len(),
            forall|j: int| 0 <= j < ls@.len() ==> #[trigger] ls@[j]@ == gl[j],
            scan_groups(gl.take(i as int)) == (done, gc),
            out@.len() == done.len(),
            forall|j: int| 0 <= j < out@.len() ==> #[trigger] out@[j]@ == join_lines(done[j]),
            cur@.len() == gc.len(),
            forall|j: int| 0 <= j < gc.len() ==> #[trigger] cur@[j]@ == gc[j],
        decreases ls@.len() - i,
    {
        assert(gl.take(i + 1).drop_last() =~= gl.take(i as int));
        let l = slice_of(&ls[i], 0, ls[i].len());
        assert(l@ =~= gl[i as int]);
        if key_in_group(&cur, &l, Ghost(gc)) {
            out.push(join_group(&cur, Ghost(gc)));
            cur = Vec::new();
            cur.push(l);
            proof {
                done = done.push(gc);
                gc = seq![gl[i as int]];
            }
        } else {
            cur.push(l);
            proof {
                gc = gc.push(gl[i as int]);
            }
        }
        i = i + 1;
    }
    assert(gl.take(ls@.len() as int) =~= gl);
    if cur.len() > 0 {
        out.push(join_group(&cur, Ghost(gc)));
        proof {
            done = done.push(gc);
        }
    }
    out
}

} // verus!
