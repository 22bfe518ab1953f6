//! Decoding of `key: value` reply bodies into typed records.
use vstd::prelude::*;

use crate::number::{check_float, is_float_text, number_of, parse_number};
use crate::text::{
    chars_of, find_char, find_sep, first_char, has_sep, is_lit, key_of, lines, push_str, slice_of,
    split_lines, string_of, value_of,
};
use crate::{Extra, ExtraView, Song, SongView, State, Status, StatusView, Time};

verus! {

/// A failure to decode a reply body.
#[derive(Debug)]
pub enum Error {
    /// Expected to find a certain `key` in `lines`
    ExpectedKey { key: String, lines: String },
    /// Missing the key part of a `key: value` line
    MissingKey { line: String },
    /// Missing the value part of a `key: value` line
    MissingValue { line: String },
    /// Could not decode `value` as type `ty`
    ParseType { ty: String, value: String },
    /// A `key: value` line that the decoder does not handle
    UnhandledKeyValuePair { key: String, value: String },
}

/// Mathematical value of an [`Error`].
pub enum ErrorView {
    ExpectedKey { key: Seq<char>, lines: Seq<char> },
    MissingKey { line: Seq<char> },
    MissingValue { line: Seq<char> },
    ParseType { ty: Seq<char>, value: Seq<char> },
    UnhandledKeyValuePair { key: Seq<char>, value: Seq<char> },
}

impl View for Error {
    type V = ErrorView;

    open spec fn view(&self) -> ErrorView {
        match self {
            Error::ExpectedKey { key, lines } => ErrorView::ExpectedKey { key: key@, lines: lines@ },
            Error::MissingKey { line } => ErrorView::MissingKey { line: line@ },
            Error::MissingValue { line } => ErrorView::MissingValue { line: line@ },
            Error::ParseType { ty, value } => ErrorView::ParseType { ty: ty@, value: value@ },
            Error::UnhandledKeyValuePair { key, value } => ErrorView::UnhandledKeyValuePair {
                key: key@,
                value: value@,
            },
        }
    }
}

/// The escape of character `c` inside a quoted line: a backslash before a
/// quote or a backslash, and `\t`, `\r`, `\n`, `\0` for those control characters.
pub open spec fn escape_char(c: char) -> Seq<char> {
    if c == '"' || c == '\\' {
        seq!['\\', c]
    } else if c == '\t' {
        seq!['\\', 't']
    } else if c == '\r' {
        seq!['\\', 'r']
    } else if c == '\n' {
        seq!['\\', 'n']
    } else if c == '\0' {
        seq!['\\', '0']
    } else {
        seq![c]
    }
}

/// `s` with each character escaped.
pub open spec fn escaped(s: Seq<char>) -> Seq<char>
    decreases s.len(),
{
    if s.len() == 0 {
        seq![]
    } else {
        escaped(s.drop_last()) + escape_char(s.last())
    }
}

/// Appends the escaped characters of `s` to `v`.
fn push_escaped(v: &mut Vec<char>, s: &str)
    ensures
        final(v)@ == old(v)@ + escaped(s@),
{
    let c = chars_of(s);
    let ghost start = v@;
    let mut i: usize = 0;
    while i < c.len()
        invariant
            i <= c@.len(),
            v@ == start + escaped(c@.take(i as int)),
        decreases c@.len() - i,
    {
        let x = c[i];
        assert(c@.take(i + 1).drop_last() =~= c@.take(i as int));
        if x == '"' || x == '\\' {
            v.push('\\');
            v.push(x);
        } else if x == '\t' {
            v.push('\\');
            v.push('t');
        } else if x == '\r' {
            v.push('\\');
            v.push('r');
        } else if x == '\n' {
            v.push('\\');
            v.push('n');
        } else if x == '\0' {
            v.push('\\');
            v.push('0');
        } else {
            v.push(x);
        }
        i = i + 1;
        assert(v@ =~= start + escaped(c@.take(i as int)));
    }
    assert(c@.take(i as int) =~= c@);
}

/// The text that describes a decoding failure.
pub open spec fn message_of(e: ErrorView) -> Seq<char> {
    match e {
        ErrorView::ExpectedKey { key, lines } => "Expected to find key "@ + key + " in:\n"@ + lines,
        ErrorView::MissingKey { line } => "Missing {key} when parsing \""@ + escaped(line)
            + "\" as \"{key}: {value}\""@,
        ErrorView::MissingValue { line } => "Missing {value} when parsing \""@ + escaped(line)
            + "\" as \"{key}: {value}\""@,
        ErrorView::ParseType { ty, value } => "Couldn't parse "@ + value + " as "@ + ty,
        ErrorView::UnhandledKeyValuePair { key, value } => "Unhandled key-value pair: ("@ + key
            + ", "@ + value + ")"@,
    }
}

impl Error {
    /// The text that describes the failure.
    pub fn message(&self) -> (r: String)
        ensures
            r@ == message_of(self@),
    {
        let mut v: Vec<char> = Vec::new();
        match self {
            Error::ExpectedKey { key, lines } => {
                push_str(&mut v, "Expected to find key ");
                push_str(&mut v, key.as_str());
                push_str(&mut v, " in:\n");
                push_str(&mut v, lines.as_str());
            },
            Error::MissingKey { line } => {
                push_str(&mut v, "Missing {key} when parsing \"");
                push_escaped(&mut v, line.as_str());
                push_str(&mut v, "\" as \"{key}: {value}\"");
            },
            Error::MissingValue { line } => {
                push_str(&mut v, "Missing {value} when parsing \"");
                push_escaped(&mut v, line.as_str());
                push_str(&mut v, "\" as \"{key}: {value}\"");
            },
            Error::ParseType { ty, value } => {
                push_str(&mut v, "Couldn't parse ");
                push_str(&mut v, value.as_str());
                push_str(&mut v, " as ");
                push_str(&mut v, ty.as_str());
            },
            Error::UnhandledKeyValuePair { key, value } => {
                push_str(&mut v, "Unhandled key-value pair: (");
                push_str(&mut v, key.as_str());
                push_str(&mut v, ", ");
                push_str(&mut v, value.as_str());
                push_str(&mut v, ")");
            },
        }
        assert(v@ =~= message_of(self@));
        string_of(v.as_slice())
    }
}

/// The value of a decoding result.
pub open spec fn result_view<T>(r: Result<T, Error>) -> Result<T, ErrorView> {
    match r {
        Ok(t) => Ok(t),
        Err(e) => Err(e@),
    }
}

/// The value of an optional character vector.
pub open spec fn opt_view(o: Option<Vec<char>>) -> Option<Seq<char>> {
    match o {
        Some(v) => Some(v@),
        None => None,
    }
}

/// The error for a `value` that does not decode as type `ty`.
pub open spec fn type_error(ty: Seq<char>, value: Seq<char>) -> ErrorView {
    ErrorView::ParseType { ty, value }
}

/// A boolean written `0` or `1`.
pub open spec fn bool_of(v: Seq<char>) -> Result<bool, ErrorView> {
    if v == seq!['0'] {
        Ok(false)
    } else if v == seq!['1'] {
        Ok(true)
    } else {
        Err(type_error("bool"@, v))
    }
}

/// An unsigned 32-bit integer.
pub open spec fn u32_of(v: Seq<char>) -> Result<u32, ErrorView> {
    match number_of(v, u32::MAX as nat) {
        Some(n) => Ok(n as u32),
        None => Err(type_error("u32"@, v)),
    }
}

/// A volume level: `-1` when the server cannot control the volume, else an
/// unsigned 8-bit integer.
pub open spec fn volume_of(v: Seq<char>) -> Result<Option<u8>, ErrorView> {
    if v == seq!['-', '1'] {
        Ok(None)
    } else {
        match number_of(v, u8::MAX as nat) {
            Some(n) => Ok(Some(n as u8)),
            None => Err(type_error("u8"@, v)),
        }
    }
}

/// A playback state: `play`, `pause` or `stop`.
pub open spec fn state_of(v: Seq<char>) -> Result<State, ErrorView> {
    if v == "play"@ {
        Ok(State::Play)
    } else if v == "pause"@ {
        Ok(State::Pause)
    } else if v == "stop"@ {
        Ok(State::Stop)
    } else {
        Err(type_error("State"@, v))
    }
}

/// Elapsed and total seconds, written `elapsed:total`.
pub open spec fn time_of(v: Seq<char>) -> Result<Time, ErrorView> {
    if v.contains(':') {
        let i = first_char(v, ':');
        match u32_of(v.take(i)) {
            Err(e) => Err(e),
            Ok(elapsed) => match u32_of(v.skip(i + 1)) {
                Err(e) => Err(e),
                Ok(total) => Ok(Time { elapsed, total }),
            },
        }
    } else {
        Err(type_error("Time"@, v))
    }
}

/// A number of seconds written as a floating-point number, kept as its text.
pub open spec fn elapsed_of(v: Seq<char>) -> Result<Seq<char>, ErrorView> {
    if is_float_text(v) {
        Ok(v)
    } else {
        Err(type_error("f64"@, v))
    }
}

/// What a body is decoded into: bare `key: value` pairs, a song or a
/// status. A strict decoder rejects the keys it does not handle.
pub enum Record {
    Pairs,
    SongRecord { strict: bool },
    StatusRecord { strict: bool },
}

/// Whether the song decoder handles key `k`.
pub open spec fn song_key(k: Seq<char>) -> bool {
    k == "Artist"@ || k == "Title"@
}

/// Whether the status decoder handles key `k`.
pub open spec fn status_key(k: Seq<char>) -> bool {
    k == "consume"@ || k == "elapsed"@ || k == "playlistlength"@ || k == "random"@ || k
        == "repeat"@ || k == "single"@ || k == "song"@ || k == "state"@ || k == "time"@ || k
        == "updating_db"@ || k == "volume"@
}

/// The error for a line whose key the decoder does not handle.
pub open spec fn unhandled(l: Seq<char>) -> ErrorView {
    ErrorView::UnhandledKeyValuePair { key: key_of(l), value: value_of(l) }
}

/// The error, if any, that stops the decoding of `record` at line `l`.
pub open spec fn line_error(record: Record, l: Seq<char>) -> Option<ErrorView> {
    if !has_sep(l) {
        Some(ErrorView::MissingValue { line: l })
    } else {
        match record {
            Record::Pairs => None,
            Record::SongRecord { strict } => if strict && !song_key(key_of(l)) {
                Some(unhandled(l))
            } else {
                None
            },
            Record::StatusRecord { strict } => match status_value_error(key_of(l), value_of(l)) {
                Some(e) => Some(e),
                None => if strict && !status_key(key_of(l)) {
                    Some(unhandled(l))
                } else {
                    None
                },
            },
        }
    }
}

/// The error of a status line whose value must decode as soon as it is read.
pub open spec fn status_value_error(k: Seq<char>, v: Seq<char>) -> Option<ErrorView> {
    if k == "elapsed"@ {
        match elapsed_of(v) {
            Err(e) => Some(e),
            Ok(_) => None,
        }
    } else if k == "song"@ {
        match u32_of(v) {
            Err(e) => Some(e),
            Ok(_) => None,
        }
    } else if k == "time"@ {
        match time_of(v) {
            Err(e) => Some(e),
            Ok(_) => None,
        }
    } else if k == "updating_db"@ {
        match u32_of(v) {
            Err(e) => Some(e),
            Ok(_) => None,
        }
    } else {
        None
    }
}

/// The error of the first line of `ls` that stops the decoding of `record`.
pub open spec fn first_error(record: Record, ls: Seq<Seq<char>>) -> Option<ErrorView>
    decreases ls.len(),
{
    if ls.len() == 0 {
        None
    } else {
        match first_error(record, ls.drop_last()) {
            Some(e) => Some(e),
            None => line_error(record, ls.last()),
        }
    }
}

/// The value of the last line of `ls` with key `key`.
pub open spec fn last_value(ls: Seq<Seq<char>>, key: Seq<char>) -> Option<Seq<char>>
    decreases ls.len(),
{
    if ls.len() == 0 {
        None
    } else if has_sep(ls.last()) && key_of(ls.last()) == key {
        Some(value_of(ls.last()))
    } else {
        last_value(ls.drop_last(), key)
    }
}

/// The value of the required key `key`, or the error that names it.
pub open spec fn required(ls: Seq<Seq<char>>, key: Seq<char>, input: Seq<char>) -> Result<
    Seq<char>,
    ErrorView,
> {
    match last_value(ls, key) {
        Some(v) => Ok(v),
        None => Err(ErrorView::ExpectedKey { key, lines: input }),
    }
}

/// The song that `input` decodes to.
pub open spec fn song_of(input: Seq<char>, strict: bool) -> Result<SongView, ErrorView> {
    let ls = lines(input);
    match first_error(Record::SongRecord { strict }, ls) {
        Some(e) => Err(e),
        None => match required(ls, "Artist"@, input) {
            Err(e) => Err(e),
            Ok(artist) => match required(ls, "Title"@, input) {
                Err(e) => Err(e),
                Ok(title) => Ok(SongView { artist, title }),
            },
        },
    }
}

/// A required boolean.
pub open spec fn req_bool(ls: Seq<Seq<char>>, key: Seq<char>, input: Seq<char>) -> Result<bool, ErrorView> {
    match required(ls, key, input) {
        Err(e) => Err(e),
        Ok(v) => bool_of(v),
    }
}

/// A required unsigned 32-bit integer.
pub open spec fn req_u32(ls: Seq<Seq<char>>, key: Seq<char>, input: Seq<char>) -> Result<u32, ErrorView> {
    match required(ls, key, input) {
        Err(e) => Err(e),
        Ok(v) => u32_of(v),
    }
}

/// The required playback state.
pub open spec fn req_state(ls: Seq<Seq<char>>, input: Seq<char>) -> Result<State, ErrorView> {
    match required(ls, "state"@, input) {
        Err(e) => Err(e),
        Ok(v) => state_of(v),
    }
}

/// The required volume level.
pub open spec fn req_volume(ls: Seq<Seq<char>>, input: Seq<char>) -> Result<Option<u8>, ErrorView> {
    match required(ls, "volume"@, input) {
        Err(e) => Err(e),
        Ok(v) => volume_of(v),
    }
}

/// An optional unsigned 32-bit integer.
pub open spec fn opt_u32(ls: Seq<Seq<char>>, key: Seq<char>) -> Option<u32> {
    match last_value(ls, key) {
        Some(v) => match u32_of(v) {
            Ok(n) => Some(n),
            Err(_) => None,
        },
        None => None,
    }
}

/// The optional elapsed and total time.
pub open spec fn opt_time(ls: Seq<Seq<char>>) -> Option<Time> {
    match last_value(ls, "time"@) {
        Some(v) => match time_of(v) {
            Ok(t) => Some(t),
            Err(_) => None,
        },
        None => None,
    }
}

/// The extra block: present exactly when the body gives the song's position.
pub open spec fn extra_of(ls: Seq<Seq<char>>) -> Option<ExtraView> {
    match opt_u32(ls, "song"@) {
        Some(pos) => Some(ExtraView { elapsed: last_value(ls, "elapsed"@), pos, time: opt_time(ls) }),
        None => None,
    }
}

/// The status that the lines `ls` of `input` give, once no line stopped the
/// decoding: the first required field that is missing or does not decode
/// names the error.
pub open spec fn status_fields(ls: Seq<Seq<char>>, input: Seq<char>) -> Result<StatusView, ErrorView> {
    let consume = req_bool(ls, "consume"@, input);
    let playlist_length = req_u32(ls, "playlistlength"@, input);
    let random = req_bool(ls, "random"@, input);
    let repeat = req_bool(ls, "repeat"@, input);
    let single = req_bool(ls, "single"@, input);
    let state = req_state(ls, input);
    let volume = req_volume(ls, input);
    if consume is Err {
        Err(consume->Err_0)
    } else if playlist_length is Err {
        Err(playlist_length->Err_0)
    } else if random is Err {
        Err(random->Err_0)
    } else if repeat is Err {
        Err(repeat->Err_0)
    } else if single is Err {
        Err(single->Err_0)
    } else if state is Err {
        Err(state->Err_0)
    } else if volume is Err {
        Err(volume->Err_0)
    } else {
        Ok(
            StatusView {
                consume: consume->Ok_0,
                extra: extra_of(ls),
                playlist_length: playlist_length->Ok_0,
                random: random->Ok_0,
                repeat: repeat->Ok_0,
                single: single->Ok_0,
                state: state->Ok_0,
                updating_db: opt_u32(ls, "updating_db"@),
                volume: volume->Ok_0,
            },
        )
    }
}

/// The status that `input` decodes to.
pub open spec fn status_of(input: Seq<char>, strict: bool) -> Result<StatusView, ErrorView> {
    let ls = lines(input);
    match first_error(Record::StatusRecord { strict }, ls) {
        Some(e) => Err(e),
        None => status_fields(ls, input),
    }
}

/// Once a prefix of `ls` holds an error, that is the first error of `ls`.
pub proof fn lemma_first_error_prefix(record: Record, ls: Seq<Seq<char>>, k: int)
    requires
        0 <= k <= ls.len(),
        first_error(record, ls.take(k)) is Some,
    ensures
        first_error(record, ls) == first_error(record, ls.take(k)),
    decreases ls.len(),
{
    if k < ls.len() {
        assert(ls.drop_last().take(k) =~= ls.take(k));
        lemma_first_error_prefix(record, ls.drop_last(), k);
    } else {
        assert(ls.take(k) =~= ls);
    }
}

/// Decodes `0` or `1` as a boolean.
fn parse_bool(v: &Vec<char>) -> (r: Result<bool, Error>)
    ensures
        result_view(r) == bool_of(v@),
{
    if v.len() == 1 && v[0] == '0' {
        assert(v@ =~= seq!['0']);
        Ok(false)
    } else if v.len() == 1 && v[0] == '1' {
        assert(v@ =~= seq!['1']);
        Ok(true)
    } else {
        Err(Error::ParseType { ty: "bool".to_owned(), value: string_of(v.as_slice()) })
    }
}

/// Decodes an unsigned 32-bit integer.
fn parse_u32(v: &Vec<char>) -> (r: Result<u32, Error>)
    ensures
        result_view(r) == u32_of(v@),
{
    match parse_number(v, u32::MAX) {
        Some(n) => Ok(n),
        None => Err(Error::ParseType { ty: "u32".to_owned(), value: string_of(v.as_slice()) }),
    }
}

/// Decodes a volume level.
fn parse_volume(v: &Vec<char>) -> (r: Result<Option<u8>, Error>)
    ensures
        result_view(r) == volume_of(v@),
{
    if v.len() == 2 && v[0] == '-' && v[1] == '1' {
        assert(v@ =~= seq!['-', '1']);
        return Ok(None);
    }
    match parse_number(v, 255) {
        Some(n) => Ok(Some(n as u8)),
        None => Err(Error::ParseType { ty: "u8".to_owned(), value: string_of(v.as_slice()) }),
    }
}

/// Decodes elapsed and total seconds written `elapsed:total`.
fn parse_time(v: &Vec<char>) -> (r: Result<Time, Error>)
    ensures
        result_view(r) == time_of(v@),
{
    match find_char(v, ':') {
        None => Err(Error::ParseType { ty: "Time".to_owned(), value: string_of(v.as_slice()) }),
        Some(i) => {
            let n = v.len();
            assert(i < n);
            let a = slice_of(v, 0, i);
            let b = slice_of(v, i + 1, n);
            assert(a@ =~= v@.take(i as int));
            assert(b@ =~= v@.skip(i + 1));
            let elapsed = match parse_u32(&a) {
                Ok(n) => n,
                Err(e) => return Err(e),
            };
            let total = match parse_u32(&b) {
                Ok(n) => n,
                Err(e) => return Err(e),
            };
            Ok(Time { elapsed, total })
        },
    }
}

/// Checks the text of an elapsed time.
fn parse_elapsed(v: &Vec<char>) -> (r: Result<Vec<char>, Error>)
    ensures
        match r {
            Ok(x) => elapsed_of(v@) == Ok::<Seq<char>, ErrorView>(x@),
            Err(e) => elapsed_of(v@) == Err::<Seq<char>, ErrorView>(e@),
        },
{
    if check_float(v) {
        let x = slice_of(v, 0, v.len());
        assert(x@ =~= v@);
        Ok(x)
    } else {
        Err(Error::ParseType { ty: "f64".to_owned(), value: string_of(v.as_slice()) })
    }
}

/// Splits a `key: value` line at its first separator.
fn split_pair(l: &Vec<char>) -> (r: Option<(Vec<char>, Vec<char>)>)
    ensures
        r is Some <==> has_sep(l@),
        r matches Some(p) ==> p.0@ == key_of(l@) && p.1@ == value_of(l@),
{
    match find_sep(l) {
        None => None,
        Some(s) => {
            let n = l.len();
            let k = slice_of(l, 0, s);
            let v = slice_of(l, s + 2, n);
            assert(k@ =~= key_of(l@));
            assert(v@ =~= value_of(l@));
            Some((k, v))
        },
    }
}

/// The value of the last line of `ls.take(i + 1)` with key `key`.
proof fn lemma_last_value_step(ls: Seq<Seq<char>>, key: Seq<char>, i: int)
    requires
        0 <= i < ls.len(),
    ensures
        last_value(ls.take(i + 1), key) == if has_sep(ls[i]) && key_of(ls[i]) == key {
            Some(value_of(ls[i]))
        } else {
            last_value(ls.take(i), key)
        },
{
    assert(ls.take(i + 1).drop_last() =~= ls.take(i));
}

/// The first error of `ls.take(i + 1)`.
proof fn lemma_first_error_step(record: Record, ls: Seq<Seq<char>>, i: int)
    requires
        0 <= i < ls.len(),
    ensures
        first_error(record, ls.take(i + 1)) == match first_error(record, ls.take(i)) {
            Some(e) => Some(e),
            None => line_error(record, ls[i]),
        },
{
    assert(ls.take(i + 1).drop_last() =~= ls.take(i));
}

/// The string that a character vector holds, if any.
fn string_opt(o: Option<Vec<char>>) -> (r: Option<String>)
    ensures
        match r {
            Some(s) => opt_view(o) == Some(s@),
            None => opt_view(o) is None,
        },
{
    match o {
        Some(v) => Some(string_of(v.as_slice())),
        None => None,
    }
}

/// The value of a required key, or the error that names it.
fn take_required(o: Option<Vec<char>>, key: &str, input: &str) -> (r: Result<Vec<char>, Error>)
    ensures
        match r {
            Ok(v) => opt_view(o) == Some(v@),
            Err(e) => opt_view(o) is None && e@ == (ErrorView::ExpectedKey { key: key@, lines: input@ }),
        },
{
    match o {
        Some(v) => Ok(v),
        None => Err(Error::ExpectedKey { key: key.to_owned(), lines: input.to_owned() }),
    }
}

impl Song {
    /// Decodes song information, as the server sends it for the current song
    /// or for each entry of the playlist; keys other than the artist and the
    /// title are skipped.
    pub fn parse(input: &str) -> (r: Result<Song, Error>)
        ensures
            match r {
                Ok(s) => song_of(input@, false) == Ok::<SongView, ErrorView>(s@),
                Err(e) => song_of(input@, false) == Err::<SongView, ErrorView>(e@),
            },
    {
        Song::parse_with(input, false)
    }

    /// Decodes song information; when `strict`, a key other than the artist
    /// and the title is an error.
    pub fn parse_with(input: &str, strict: bool) -> (r: Result<Song, Error>)
        ensures
            match r {
                Ok(s) => song_of(input@, strict) == Ok::<SongView, ErrorView>(s@),
                Err(e) => song_of(input@, strict) == Err::<SongView, ErrorView>(e@),
            },
    {
        let v = chars_of(input);
        let ls = split_lines(&v);
        let ghost gl = lines(input@);
        let mut artist: Option<Vec<char>> = None;
        let mut title: Option<Vec<char>> = None;
        let mut i: usize = 0;
        while i < ls.len()
            invariant
                i <= ls@.len(),
                ls@.len() == gl.len(),
                gl == lines(input@),
                forall|j: int| 0 <= j < ls@.len() ==> #[trigger] ls@[j]@ == gl[j],
                first_error(Record::SongRecord { strict }, gl.take(i as int)) is None,
                opt_view(artist) == last_value(gl.take(i as int), "Artist"@),
                opt_view(title) == last_value(gl.take(i as int), "Title"@),
            decreases ls@.len() - i,
        {
            let l = &ls[i];
            proof {
                lemma_first_error_step(Record::SongRecord { strict }, gl, i as int);
                lemma_last_value_step(gl, "Artist"@, i as int);
                lemma_last_value_step(gl, "Title"@, i as int);
            }
            match split_pair(l) {
                None => {
                    proof {
                        lemma_first_error_prefix(Record::SongRecord { strict }, gl, i + 1);
                    }
                    return Err(Error::MissingValue { line: string_of(l.as_slice()) });
                },
                Some((k, val)) => {
                    if strict && !(is_lit(&k, "Artist") || is_lit(&k, "Title")) {
                        proof {
                            lemma_first_error_prefix(Record::SongRecord { strict }, gl, i + 1);
                        }
                        return Err(
                            Error::UnhandledKeyValuePair {
                                key: string_of(k.as_slice()),
                                value: string_of(val.as_slice()),
                            },
                        );
                    }
                    if is_lit(&k, "Artist") {
                        artist = Some(copy_chars(&val));
                    }
                    if is_lit(&k, "Title") {
                        title = Some(val);
                    }
                },
            }
            i = i + 1;
        }
        assert(gl.take(ls@.len() as int) =~= gl);
        let artist = take_required(artist, "Artist", input)?;
        let title = take_required(title, "Title", input)?;
        Ok(Song { artist: string_of(artist.as_slice()), title: string_of(title.as_slice()) })
    }
}

/// The `key: value` pairs of the lines of `input`, or the error of the first
/// line that has no separator.
pub open spec fn pairs_of(input: Seq<char>) -> Result<Seq<(Seq<char>, Seq<char>)>, ErrorView> {
    let ls = lines(input);
    match first_error(Record::Pairs, ls) {
        Some(e) => Err(e),
        None => Ok(ls.map_values(|l: Seq<char>| (key_of(l), value_of(l)))),
    }
}

/// Splits each line of `input` into its key and its value at the first `": "`.
pub fn parse_pairs(input: &str) -> (r: Result<Vec<(String, String)>, Error>)
    ensures
        match r {
            Ok(ps) => pairs_of(input@) is Ok && ps@.len() == pairs_of(input@)->Ok_0.len() && forall|i: int|
                0 <= i < ps@.len() ==> (#[trigger] ps@[i]).0@ == pairs_of(input@)->Ok_0[i].0
                    && ps@[i].1@ == pairs_of(input@)->Ok_0[i].1,
            Err(e) => pairs_of(input@) == Err::<Seq<(Seq<char>, Seq<char>)>, ErrorView>(e@),
        },
{
    let v = chars_of(input);
    let ls = split_lines(&v);
    let ghost gl = lines(input@);
    let mut out: Vec<(String, String)> = Vec::new();
    let mut i: usize = 0;
    while i < ls.len()
        invariant
            i <= ls@.len(),
            ls@.len() == gl.len(),
            gl == lines(input@),
            forall|j: int| 0 <= j < ls@.len() ==> #[trigger] ls@[j]@ == gl[j],
            first_error(Record::Pairs, gl.take(i as int)) is None,
            out@.len() == i,
            forall|j: int| 0 <= j < i ==> (#[trigger] out@[j]).0@ == key_of(gl[j]) && out@[j].1@ == value_of(gl[j]),
        decreases ls@.len() - i,
    {
        let l = &ls[i];
        proof {
            lemma_first_error_step(Record::Pairs, gl, i as int);
        }
        match split_pair(l) {
            None => {
                proof {
                    lemma_first_error_prefix(Record::Pairs, gl, i + 1);
                }
                return Err(Error::MissingValue { line: string_of(l.as_slice()) });
            },
            Some((k, val)) => {
                out.push((string_of(k.as_slice()), string_of(val.as_slice())));
            },
        }
        i = i + 1;
    }
    assert(gl.take(ls@.len() as int) =~= gl);
    Ok(out)
}

/// Whether the status decoder handles key `k`.
fn is_status_key(k: &Vec<char>) -> (r: bool)
    ensures
        r == status_key(k@),
{
    is_lit(k, "consume") || is_lit(k, "elapsed") || is_lit(k, "playlistlength") || is_lit(
        k,
        "random",
    ) || is_lit(k, "repeat") || is_lit(k, "single") || is_lit(k, "song") || is_lit(k, "state")
        || is_lit(k, "time") || is_lit(k, "updating_db") || is_lit(k, "volume")
}

/// Copies a character vector.
fn copy_chars(v: &Vec<char>) -> (r: Vec<char>)
    ensures
        r@ == v@,
{
    let r = slice_of(v, 0, v.len());
    assert(r@ =~= v@);
    r
}

impl Status {
    /// Decodes the reply to the status command; keys that the status does
    /// not hold are skipped.
    pub fn parse(input: &str) -> (r: Result<Status, Error>)
        ensures
            match r {
                Ok(s) => status_of(input@, false) == Ok::<StatusView, ErrorView>(s@),
                Err(e) => status_of(input@, false) == Err::<StatusView, ErrorView>(e@),
            },
    {
        Status::parse_with(input, false)
    }

    /// Decodes the reply to the status command; when `strict`, a key that the
    /// status does not hold is an error.
    pub fn parse_with(input: &str, strict: bool) -> (r: Result<Status, Error>)
        ensures
            match r {
                Ok(s) => status_of(input@, strict) == Ok::<StatusView, ErrorView>(s@),
                Err(e) => status_of(input@, strict) == Err::<StatusView, ErrorView>(e@),
            },
    {
        let v = chars_of(input);
        let ls = split_lines(&v);
        let ghost gl = lines(input@);
        let mut consume: Option<Vec<char>> = None;
        let mut playlist_length: Option<Vec<char>> = None;
        let mut random: Option<Vec<char>> = None;
        let mut repeat: Option<Vec<char>> = None;
        let mut single: Option<Vec<char>> = None;
        let mut state: Option<Vec<char>> = None;
        let mut volume: Option<Vec<char>> = None;
        let mut elapsed: Option<Vec<char>> = None;
        let mut song: Option<u32> = None;
        let mut time: Option<Time> = None;
        let mut updating_db: Option<u32> = None;
        let mut i: usize = 0;
        while i < ls.len()
            invariant
                i <= ls@.len(),
                ls@.len() == gl.len(),
                gl == lines(input@),
                forall|j: int| 0 <= j < ls@.len() ==> #[trigger] ls@[j]@ == gl[j],
                first_error(Record::StatusRecord { strict }, gl.take(i as int)) is None,
                opt_view(consume) == last_value(gl.take(i as int), "consume"@),
                opt_view(playlist_length) == last_value(gl.take(i as int), "playlistlength"@),
                opt_view(random) == last_value(gl.take(i as int), "random"@),
                opt_view(repeat) == last_value(gl.take(i as int), "repeat"@),
                opt_view(single) == last_value(gl.take(i as int), "single"@),
                opt_view(state) == last_value(gl.take(i as int), "state"@),
                opt_view(volume) == last_value(gl.take(i as int), "volume"@),
                opt_view(elapsed) == last_value(gl.take(i as int), "elapsed"@),
                song == opt_u32(gl.take(i as int), "song"@),
                time == opt_time(gl.take(i as int)),
                updating_db == opt_u32(gl.take(i as int), "updating_db"@),
            decreases ls@.len() - i,
        {
            let l = &ls[i];
            proof {
                reveal_strlit("elapsed");
                reveal_strlit("song");
                reveal_strlit("time");
                reveal_strlit("updating_db");
                assert("song"@[0] != "time"@[0]);
                assert("song"@ != "time"@);
                assert("elapsed"@.len() != "song"@.len());
                assert("elapsed"@.len() != "time"@.len());
                assert("updating_db"@.len() != "song"@.len());
                assert("updating_db"@.len() != "time"@.len());
                lemma_first_error_step(Record::StatusRecord { strict }, gl, i as int);
                lemma_last_value_step(gl, "consume"@, i as int);
                lemma_last_value_step(gl, "playlistlength"@, i as int);
                lemma_last_value_step(gl, "random"@, i as int);
                lemma_last_value_step(gl, "repeat"@, i as int);
                lemma_last_value_step(gl, "single"@, i as int);
                lemma_last_value_step(gl, "state"@, i as int);
                lemma_last_value_step(gl, "volume"@, i as int);
                lemma_last_value_step(gl, "elapsed"@, i as int);
                lemma_last_value_step(gl, "song"@, i as int);
                lemma_last_value_step(gl, "time"@, i as int);
                lemma_last_value_step(gl, "updating_db"@, i as int);
            }
            let (k, val) = match split_pair(l) {
                None => {
                    proof {
                        lemma_first_error_prefix(Record::StatusRecord { strict }, gl, i + 1);
                    }
                    return Err(Error::MissingValue { line: string_of(l.as_slice()) });
                },
                Some(p) => p,
            };
            // values that must decode as soon as they are read
            if is_lit(&k, "elapsed") {
                match parse_elapsed(&val) {
                    Ok(x) => {
                        elapsed = Some(x);
                    },
                    Err(e) => {
                        proof {
                            lemma_first_error_prefix(Record::StatusRecord { strict }, gl, i + 1);
                        }
                        return Err(e);
                    },
                }
            } else if is_lit(&k, "song") {
                match parse_u32(&val) {
                    Ok(n) => {
                        song = Some(n);
                    },
                    Err(e) => {
                        proof {
                            lemma_first_error_prefix(Record::StatusRecord { strict }, gl, i + 1);
                        }
                        return Err(e);
                    },
                }
            } else if is_lit(&k, "time") {
                match parse_time(&val) {
                    Ok(t) => {
                        time = Some(t);
                    },
                    Err(e) => {
                        proof {
                            lemma_first_error_prefix(Record::StatusRecord { strict }, gl, i + 1);
                        }
                        return Err(e);
                    },
                }
            } else if is_lit(&k, "updating_db") {
                match parse_u32(&val) {
                    Ok(n) => {
                        updating_db = Some(n);
                    },
                    Err(e) => {
                        proof {
                            lemma_first_error_prefix(Record::StatusRecord { strict }, gl, i + 1);
                        }
                        return Err(e);
                    },
                }
            }
            if strict && !is_status_key(&k) {
                proof {
                    lemma_first_error_prefix(Record::StatusRecord { strict }, gl, i + 1);
                }
                return Err(
                    Error::UnhandledKeyValuePair {
                        key: string_of(k.as_slice()),
                        value: string_of(val.as_slice()),
                    },
                );
            }
            // values that decode once every line is read
            if is_lit(&k, "consume") {
                consume = Some(copy_chars(&val));
            }
            if is_lit(&k, "playlistlength") {
                playlist_length = Some(copy_chars(&val));
            }
            if is_lit(&k, "random") {
                random = Some(copy_chars(&val));
            }
            if is_lit(&k, "repeat") {
                repeat = Some(copy_chars(&val));
            }
            if is_lit(&k, "single") {
                single = Some(copy_chars(&val));
            }
            if is_lit(&k, "state") {
                state = Some(copy_chars(&val));
            }
            if is_lit(&k, "volume") {
                volume = Some(copy_chars(&val));
            }
            i = i + 1;
        }
        assert(gl.take(ls@.len() as int) =~= gl);
        let consume = parse_bool(&take_required(consume, "consume", input)?)?;
        let playlist_length = parse_u32(&take_required(playlist_length, "playlistlength", input)?)?;
        let random = parse_bool(&take_required(random, "random", input)?)?;
        let repeat = parse_bool(&take_required(repeat, "repeat", input)?)?;
        let single = parse_bool(&take_required(single, "single", input)?)?;
        let state = take_required(state, "state", input)?;
        let state = State::parse(string_of(state.as_slice()).as_str())?;
        let volume = parse_volume(&take_required(volume, "volume", input)?)?;
        let extra = match song {
            Some(pos) => Some(Extra { elapsed: string_opt(elapsed), pos, time }),
            None => None,
        };
        Ok(
            Status {
                consume,
                extra,
                playlist_length,
                random,
                repeat,
                single,
                state,
                updating_db,
                volume,
            },
        )
    }
}

impl State {
    /// Decodes a playback state: `play`, `pause` or `stop`.
    pub fn parse(input: &str) -> (r: Result<State, Error>)
        ensures
            result_view(r) == state_of(input@),
    {
        let v = chars_of(input);
        if is_lit(&v, "play") {
            Ok(State::Play)
        } else if is_lit(&v, "pause") {
            Ok(State::Pause)
        } else if is_lit(&v, "stop") {
            Ok(State::Stop)
        } else {
            Err(Error::ParseType { ty: "State".to_owned(), value: input.to_owned() })
        }
    }
}

impl Time {
    /// Decodes elapsed and total seconds written `elapsed:total`.
    pub fn parse(input: &str) -> (r: Result<Time, Error>)
        ensures
            result_view(r) == time_of(input@),
    {
        let v = chars_of(input);
        parse_time(&v)
    }
}

} // verus!
