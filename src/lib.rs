//! Client library for the line-oriented protocol of a music player daemon:
//! command encoding, reply framing, handshake and decoding of replies.
use vstd::prelude::*;

pub mod command;
pub mod laws;
pub mod number;
pub mod parse;
pub mod protocol;
pub mod session;
pub mod text;

pub use command::{Command, Mode};
pub use parse::Error;
pub use session::{Event, Phase};
pub use protocol::{file_entries, frame, parse_greeting, split_songs, Frame, HandshakeError, Version};

verus! {

/// Playback state of the player.
#[derive(PartialEq, Eq, Structural, Clone, Copy, Debug)]
pub enum State {
    /// Playing
    Play,
    /// Paused
    Pause,
    /// Stopped
    Stop,
}

/// Song information: the artist and the title; other fields are not kept.
#[derive(Debug)]
pub struct Song {
    pub artist: String,
    pub title: String,
}

/// Mathematical value of a [`Song`].
pub struct SongView {
    pub artist: Seq<char>,
    pub title: Seq<char>,
}

impl View for Song {
    type V = SongView;

    open spec fn view(&self) -> SongView {
        SongView { artist: self.artist@, title: self.title@ }
    }
}

/// Elapsed and total time.
#[derive(PartialEq, Eq, Structural, Clone, Copy, Debug)]
pub struct Time {
    /// Elapsed time in seconds
    pub elapsed: u32,
    /// Total time in seconds
    pub total: u32,
}

/// Extra information about the song that is loaded.
#[derive(Debug)]
pub struct Extra {
    /// Elapsed time with higher precision, as the floating-point text the server sent
    pub elapsed: Option<String>,
    /// Position of the song in the playlist
    pub pos: u32,
    /// Elapsed and total time
    pub time: Option<Time>,
}

/// Mathematical value of an [`Extra`].
pub struct ExtraView {
    pub elapsed: Option<Seq<char>>,
    pub pos: u32,
    pub time: Option<Time>,
}

impl View for Extra {
    type V = ExtraView;

    open spec fn view(&self) -> ExtraView {
        ExtraView {
            elapsed: match self.elapsed {
                Some(e) => Some(e@),
                None => None,
            },
            pos: self.pos,
            time: self.time,
        }
    }
}

/// Status of the player.
#[derive(Debug)]
pub struct Status {
    /// State of the consume mode
    pub consume: bool,
    /// Extra information, present only when a song is loaded
    pub extra: Option<Extra>,
    /// Length of the playlist
    pub playlist_length: u32,
    /// State of the random mode
    pub random: bool,
    /// State of the repeat mode
    pub repeat: bool,
    /// State of the single mode
    pub single: bool,
    /// Playback state
    pub state: State,
    /// The identifier of the database update job that runs, if any
    pub updating_db: Option<u32>,
    /// Volume level; `None` when the server cannot control the volume
    pub volume: Option<u8>,
}

/// Mathematical value of a [`Status`].
pub struct StatusView {
    pub consume: bool,
    pub extra: Option<ExtraView>,
    pub playlist_length: u32,
    pub random: bool,
    pub repeat: bool,
    pub single: bool,
    pub state: State,
    pub updating_db: Option<u32>,
    pub volume: Option<u8>,
}

impl View for Status {
    type V = StatusView;

    open spec fn view(&self) -> StatusView {
        StatusView {
            consume: self.consume,
            extra: match self.extra {
                Some(x) => Some(x@),
                None => None,
            },
            playlist_length: self.playlist_length,
            random: self.random,
            repeat: self.repeat,
            single: self.single,
            state: self.state,
            updating_db: self.updating_db,
            volume: self.volume,
        }
    }
}

} // verus!
