//! Commands and their encoding as protocol lines.
use vstd::prelude::*;

use crate::text::{push_str, string_of};

verus! {

/// A mode of the player that can be switched on and off.
#[derive(PartialEq, Eq, Structural, Clone, Copy, Debug)]
pub enum Mode {
    /// Each song played is removed from the playlist
    Consume,
    /// Songs are played in random order
    Random,
    /// The playlist is repeated
    Repeat,
    /// Playback stops after the current song, or the song is repeated when
    /// the repeat mode is on
    Single,
}

/// The protocol's name of a mode.
pub open spec fn mode_name(m: Mode) -> Seq<char> {
    match m {
        Mode::Consume => "consume"@,
        Mode::Random => "random"@,
        Mode::Repeat => "repeat"@,
        Mode::Single => "single"@,
    }
}

impl Mode {
    /// The protocol's name of the mode.
    pub fn str(&self) -> (r: &'static str)
        ensures
            r@ == mode_name(*self),
    {
        match *self {
            Mode::Consume => "consume",
            Mode::Random => "random",
            Mode::Repeat => "repeat",
            Mode::Single => "single",
        }
    }
}

/// A command for the player.
#[derive(Debug)]
pub enum Command<'a> {
    /// Adds the file `uri` to the playlist (directories are added recursively)
    Add { uri: &'a str },
    /// Clears the current playlist
    Clear,
    /// Displays the song info of the current song
    CurrentSong,
    /// Lists all songs and directories in `uri`; everything when `None`
    ListAll { uri: Option<&'a str> },
    /// Plays the next song in the playlist
    Next,
    /// Pauses (`true`) or resumes playing (`false`)
    Pause { state: bool },
    /// Begins playing the playlist at song `position`; resumes the current
    /// song when `None`
    Play { position: Option<u32> },
    /// Displays a list of all songs in the playlist
    PlaylistInfo,
    /// Plays the previous song in the playlist
    Previous,
    /// Sets `mode` to `state`
    SetMode { mode: Mode, state: bool },
    /// Reports the status of the player and the volume level
    Status,
    /// Stops playing
    Stop,
    /// Updates the music database under `uri`; everything when `None`
    Update { uri: Option<&'a str> },
    /// Sets the volume level
    Volume { level: u32 },
}

/// The character of the decimal digit `d`.
pub open spec fn digit_char(d: nat) -> char {
    seq!['0', '1', '2', '3', '4', '5', '6', '7', '8', '9'][d as int]
}

/// The decimal text of `n`, without leading zeros.
pub open spec fn decimal(n: nat) -> Seq<char>
    decreases n,
{
    if n < 10 {
        seq![digit_char(n)]
    } else {
        decimal(n / 10).push(digit_char(n % 10))
    }
}

/// A double-quoted argument.
pub open spec fn quoted(s: Seq<char>) -> Seq<char> {
    seq!['"'] + s + seq!['"']
}

/// `0` or `1` for a boolean.
pub open spec fn flag(b: bool) -> Seq<char> {
    if b {
        seq!['1']
    } else {
        seq!['0']
    }
}

/// The line that encodes command `c`, without its line feed.
pub open spec fn command_line(c: Command) -> Seq<char> {
    match c {
        Command::Add { uri } => "add "@ + quoted(uri@),
        Command::Clear => "clear"@,
        Command::CurrentSong => "currentsong"@,
        Command::ListAll { uri: None } => "listall"@,
        Command::ListAll { uri: Some(u) } => "listall "@ + quoted(u@),
        Command::Next => "next"@,
        Command::Pause { state } => "pause "@ + flag(state),
        Command::Play { position: None } => "play"@,
        Command::Play { position: Some(p) } => "play "@ + decimal(p as nat),
        Command::PlaylistInfo => "playlistinfo"@,
        Command::Previous => "previous"@,
        Command::SetMode { mode, state } => mode_name(mode) + seq![' '] + flag(state),
        Command::Status => "status"@,
        Command::Stop => "stop"@,
        Command::Update { uri: None } => "update"@,
        Command::Update { uri: Some(u) } => "update "@ + quoted(u@),
        Command::Volume { level } => "setvol "@ + decimal(level as nat),
    }
}

/// Mathematical value of a [`Command`].
pub enum CommandView {
    Add { uri: Seq<char> },
    Clear,
    CurrentSong,
    ListAll { uri: Option<Seq<char>> },
    Next,
    Pause { state: bool },
    Play { position: Option<u32> },
    PlaylistInfo,
    Previous,
    SetMode { mode: Mode, state: bool },
    Status,
    Stop,
    Update { uri: Option<Seq<char>> },
    Volume { level: u32 },
}

/// The value of an optional path.
pub open spec fn opt_str_view(o: Option<&str>) -> Option<Seq<char>> {
    match o {
        Some(u) => Some(u@),
        None => None,
    }
}

impl<'a> View for Command<'a> {
    type V = CommandView;

    open spec fn view(&self) -> CommandView {
        match *self {
            Command::Add { uri } => CommandView::Add { uri: uri@ },
            Command::Clear => CommandView::Clear,
            Command::CurrentSong => CommandView::CurrentSong,
            Command::ListAll { uri } => CommandView::ListAll { uri: opt_str_view(uri) },
            Command::Next => CommandView::Next,
            Command::Pause { state } => CommandView::Pause { state },
            Command::Play { position } => CommandView::Play { position },
            Command::PlaylistInfo => CommandView::PlaylistInfo,
            Command::Previous => CommandView::Previous,
            Command::SetMode { mode, state } => CommandView::SetMode { mode, state },
            Command::Status => CommandView::Status,
            Command::Stop => CommandView::Stop,
            Command::Update { uri } => CommandView::Update { uri: opt_str_view(uri) },
            Command::Volume { level } => CommandView::Volume { level },
        }
    }
}

/// The path inside a double-quoted argument.
pub open spec fn unquote(a: Seq<char>) -> Option<Seq<char>> {
    if a.len() >= 2 && a[0] == '"' && a.last() == '"' {
        Some(a.subrange(1, a.len() - 1))
    } else {
        None
    }
}

/// The boolean that `0` or `1` stands for.
pub open spec fn flag_value(a: Seq<char>) -> Option<bool> {
    if a == seq!['0'] {
        Some(false)
    } else if a == seq!['1'] {
        Some(true)
    } else {
        None
    }
}

/// The number that a decimal argument stands for.
pub open spec fn number_value(a: Seq<char>) -> Option<u32> {
    match crate::number::number_of(a, u32::MAX as nat) {
        Some(n) => Some(n as u32),
        None => None,
    }
}

/// The command that a line without arguments stands for.
pub open spec fn decode_word(l: Seq<char>) -> Option<CommandView> {
    if l == "clear"@ {
        Some(CommandView::Clear)
    } else if l == "currentsong"@ {
        Some(CommandView::CurrentSong)
    } else if l == "listall"@ {
        Some(CommandView::ListAll { uri: None })
    } else if l == "next"@ {
        Some(CommandView::Next)
    } else if l == "play"@ {
        Some(CommandView::Play { position: None })
    } else if l == "playlistinfo"@ {
        Some(CommandView::PlaylistInfo)
    } else if l == "previous"@ {
        Some(CommandView::Previous)
    } else if l == "status"@ {
        Some(CommandView::Status)
    } else if l == "stop"@ {
        Some(CommandView::Stop)
    } else if l == "update"@ {
        Some(CommandView::Update { uri: None })
    } else {
        None
    }
}

/// The command that keyword `w` with argument `a` stands for.
pub open spec fn decode_call(w: Seq<char>, a: Seq<char>) -> Option<CommandView> {
    if w == "add"@ {
        match unquote(a) {
            Some(u) => Some(CommandView::Add { uri: u }),
            None => None,
        }
    } else if w == "listall"@ {
        match unquote(a) {
            Some(u) => Some(CommandView::ListAll { uri: Some(u) }),
            None => None,
        }
    } else if w == "update"@ {
        match unquote(a) {
            Some(u) => Some(CommandView::Update { uri: Some(u) }),
            None => None,
        }
    } else if w == "pause"@ {
        match flag_value(a) {
            Some(b) => Some(CommandView::Pause { state: b }),
            None => None,
        }
    } else if w == "play"@ {
        match number_value(a) {
            Some(n) => Some(CommandView::Play { position: Some(n) }),
            None => None,
        }
    } else if w == "setvol"@ {
        match number_value(a) {
            Some(n) => Some(CommandView::Volume { level: n }),
            None => None,
        }
    } else {
        let mode = if w == "consume"@ {
            Some(Mode::Consume)
        } else if w == "random"@ {
            Some(Mode::Random)
        } else if w == "repeat"@ {
            Some(Mode::Repeat)
        } else if w == "single"@ {
            Some(Mode::Single)
        } else {
            None
        };
        match (mode, flag_value(a)) {
            (Some(m), Some(b)) => Some(CommandView::SetMode { mode: m, state: b }),
            _ => None,
        }
    }
}

/// The command that line `l` stands for, read by the encoding table: a
/// keyword, then after the first space an argument, if any.
pub open spec fn decode_line(l: Seq<char>) -> Option<CommandView> {
    if l.contains(' ') {
        let i = crate::text::first_char(l, ' ');
        decode_call(l.take(i), l.skip(i + 1))
    } else {
        decode_word(l)
    }
}

/// Appends the decimal text of `n` to `v`.
fn push_decimal(v: &mut Vec<char>, n: u32)
    ensures
        final(v)@ == old(v)@ + decimal(n as nat),
    decreases n,
{
    let digits: [char; 10] = ['0', '1', '2', '3', '4', '5', '6', '7', '8', '9'];
    assert(digits@ =~= seq!['0', '1', '2', '3', '4', '5', '6', '7', '8', '9']);
    let ghost start = v@;
    if n >= 10 {
        push_decimal(v, n / 10);
    }
    let d: usize = (n % 10) as usize;
    v.push(digits[d]);
    assert(v@ =~= start + decimal(n as nat));
}

/// Appends a double-quoted argument to `v`.
fn push_quoted(v: &mut Vec<char>, s: &str)
    ensures
        final(v)@ == old(v)@ + quoted(s@),
{
    let ghost start = v@;
    v.push('"');
    push_str(v, s);
    v.push('"');
    assert(v@ =~= start + quoted(s@));
}

/// Appends `0` or `1` to `v`.
fn push_flag(v: &mut Vec<char>, b: bool)
    ensures
        final(v)@ == old(v)@ + flag(b),
{
    let ghost start = v@;
    v.push(if b {
        '1'
    } else {
        '0'
    });
    assert(v@ =~= start + flag(b));
}

impl<'a> Command<'a> {
    /// The line that encodes the command, without its line feed.
    pub fn str(&self) -> (r: String)
        ensures
            r@ == command_line(*self),
    {
        let mut v: Vec<char> = Vec::new();
        match *self {
            Command::Add { uri } => {
                push_str(&mut v, "add ");
                push_quoted(&mut v, uri);
            },
            Command::Clear => push_str(&mut v, "clear"),
            Command::CurrentSong => push_str(&mut v, "currentsong"),
            Command::ListAll { uri: None } => push_str(&mut v, "listall"),
            Command::ListAll { uri: Some(u) } => {
                push_str(&mut v, "listall ");
                push_quoted(&mut v, u);
            },
            Command::Next => push_str(&mut v, "next"),
            Command::Pause { state } => {
                push_str(&mut v, "pause ");
                push_flag(&mut v, state);
            },
            Command::Play { position: None } => push_str(&mut v, "play"),
            Command::Play { position: Some(p) } => {
                push_str(&mut v, "play ");
                push_decimal(&mut v, p);
            },
            Command::PlaylistInfo => push_str(&mut v, "playlistinfo"),
            Command::Previous => push_str(&mut v, "previous"),
            Command::SetMode { mode, state } => {
                push_str(&mut v, mode.str());
                v.push(' ');
                push_flag(&mut v, state);
            },
            Command::Status => push_str(&mut v, "status"),
            Command::Stop => push_str(&mut v, "stop"),
            Command::Update { uri: None } => push_str(&mut v, "update"),
            Command::Update { uri: Some(u) } => {
                push_str(&mut v, "update ");
                push_quoted(&mut v, u);
            },
            Command::Volume { level } => {
                push_str(&mut v, "setvol ");
                push_decimal(&mut v, level);
            },
        }
        assert(v@ =~= seq![] + v@);
        string_of(v.as_slice())
    }
}

} // verus!
