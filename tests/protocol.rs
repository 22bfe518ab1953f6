use mpd::parse::Error;
use mpd::{file_entries, frame, parse_greeting, split_songs, Command, Frame, HandshakeError, Mode, Version};
use mpd::{Event, Phase, Song, State, Status, Time};

fn status_body(extra: &str) -> String {
    format!(
        "volume: 50\nrepeat: 0\nrandom: 1\nsingle: 0\nconsume: 1\nplaylistlength: 5\nstate: play\n{}",
        extra
    )
}

#[test]
fn encodes_every_command() {
    assert_eq!(Command::Add { uri: "a/b.mp3" }.str(), "add \"a/b.mp3\"");
    assert_eq!(Command::Clear.str(), "clear");
    assert_eq!(Command::CurrentSong.str(), "currentsong");
    assert_eq!(Command::ListAll { uri: None }.str(), "listall");
    assert_eq!(Command::ListAll { uri: Some("x y") }.str(), "listall \"x y\"");
    assert_eq!(Command::Next.str(), "next");
    assert_eq!(Command::Pause { state: false }.str(), "pause 0");
    assert_eq!(Command::Pause { state: true }.str(), "pause 1");
    assert_eq!(Command::Play { position: None }.str(), "play");
    assert_eq!(Command::Play { position: Some(0) }.str(), "play 0");
    assert_eq!(Command::Play { position: Some(4294967295) }.str(), "play 4294967295");
    assert_eq!(Command::PlaylistInfo.str(), "playlistinfo");
    assert_eq!(Command::Previous.str(), "previous");
    assert_eq!(Command::SetMode { mode: Mode::Consume, state: true }.str(), "consume 1");
    assert_eq!(Command::SetMode { mode: Mode::Random, state: false }.str(), "random 0");
    assert_eq!(Command::SetMode { mode: Mode::Repeat, state: true }.str(), "repeat 1");
    assert_eq!(Command::SetMode { mode: Mode::Single, state: false }.str(), "single 0");
    assert_eq!(Command::Status.str(), "status");
    assert_eq!(Command::Stop.str(), "stop");
    assert_eq!(Command::Update { uri: None }.str(), "update");
    assert_eq!(Command::Update { uri: Some("dir") }.str(), "update \"dir\"");
    assert_eq!(Command::Volume { level: 73 }.str(), "setvol 73");
    assert_eq!(Command::Volume { level: 100 }.str(), "setvol 100");
}

#[test]
fn mode_names() {
    assert_eq!(Mode::Consume.str(), "consume");
    assert_eq!(Mode::Random.str(), "random");
    assert_eq!(Mode::Repeat.str(), "repeat");
    assert_eq!(Mode::Single.str(), "single");
}

#[test]
fn status_playing_without_time() {
    let body = status_body("song: 3");
    let s = Status::parse(&body).ok().unwrap();
    let x = s.extra.unwrap();
    assert_eq!(x.pos, 3);
    assert!(x.time.is_none());
    assert!(x.elapsed.is_none());
    assert_eq!(s.state, State::Play);
    assert!(s.consume);
    assert!(s.random);
    assert!(!s.repeat);
    assert!(!s.single);
    assert_eq!(s.playlist_length, 5);
    assert_eq!(s.volume, Some(50));
    assert_eq!(s.updating_db, None);
}

#[test]
fn status_with_time_and_elapsed() {
    let body = status_body("song: 2\ntime: 61:200\nelapsed: 61.250\nupdating_db: 9\nbitrate: 320");
    let s = Status::parse(&body).ok().unwrap();
    let x = s.extra.unwrap();
    assert_eq!(x.pos, 2);
    assert_eq!(x.time, Some(Time { elapsed: 61, total: 200 }));
    assert_eq!(x.elapsed.as_deref(), Some("61.250"));
    assert_eq!(s.updating_db, Some(9));
}

#[test]
fn status_without_song_has_no_extra() {
    let s = Status::parse(&status_body("time: 1:2")).ok().unwrap();
    assert!(s.extra.is_none());
}

#[test]
fn volume_minus_one_is_none() {
    let body = "repeat: 0\nrandom: 0\nsingle: 0\nconsume: 0\nplaylistlength: 0\nstate: stop\nvolume: -1";
    let s = Status::parse(body).ok().unwrap();
    assert_eq!(s.volume, None);
    assert_eq!(s.state, State::Stop);
}

#[test]
fn volume_73_is_some() {
    let body = "repeat: 0\nrandom: 0\nsingle: 0\nconsume: 0\nplaylistlength: 0\nstate: pause\nvolume: 73";
    let s = Status::parse(body).ok().unwrap();
    assert_eq!(s.volume, Some(73));
    assert_eq!(s.state, State::Pause);
}

#[test]
fn volume_73x_is_type_error() {
    let body = "repeat: 0\nrandom: 0\nsingle: 0\nconsume: 0\nplaylistlength: 0\nstate: stop\nvolume: 73x";
    match Status::parse(body) {
        Err(Error::ParseType { ty, value }) => {
            assert_eq!(ty, "u8");
            assert_eq!(value, "73x");
        }
        _ => panic!("expected a type error"),
    }
}

#[test]
fn volume_above_255_is_type_error() {
    let body = "repeat: 0\nrandom: 0\nsingle: 0\nconsume: 0\nplaylistlength: 0\nstate: stop\nvolume: 256";
    assert!(matches!(Status::parse(body), Err(Error::ParseType { .. })));
}

#[test]
fn missing_state_is_named() {
    let body = "volume: 50\nrepeat: 0\nrandom: 0\nsingle: 0\nconsume: 0\nplaylistlength: 0";
    match Status::parse(body) {
        Err(Error::ExpectedKey { key, lines }) => {
            assert_eq!(key, "state");
            assert_eq!(lines, body);
        }
        _ => panic!("expected a missing key"),
    }
}

#[test]
fn first_missing_key_is_named() {
    match Status::parse("state: play") {
        Err(Error::ExpectedKey { key, .. }) => assert_eq!(key, "consume"),
        _ => panic!("expected a missing key"),
    }
}

#[test]
fn bad_boolean_is_type_error() {
    let body = status_body("").replace("repeat: 0", "repeat: yes");
    match Status::parse(&body) {
        Err(Error::ParseType { ty, value }) => {
            assert_eq!(ty, "bool");
            assert_eq!(value, "yes");
        }
        _ => panic!("expected a type error"),
    }
}

#[test]
fn bad_song_position_stops_the_scan() {
    let body = format!("song: x\n{}", status_body(""));
    match Status::parse(&body) {
        Err(Error::ParseType { ty, value }) => {
            assert_eq!(ty, "u32");
            assert_eq!(value, "x");
        }
        _ => panic!("expected a type error"),
    }
}

#[test]
fn line_without_separator_is_missing_value() {
    match Status::parse("volume: 50\nnonsense") {
        Err(Error::MissingValue { line }) => assert_eq!(line, "nonsense"),
        _ => panic!("expected a missing value"),
    }
}

#[test]
fn playlist_length_overflow_is_type_error() {
    let body = status_body("").replace("playlistlength: 5", "playlistlength: 4294967296");
    assert!(matches!(Status::parse(&body), Err(Error::ParseType { .. })));
}

#[test]
fn bad_elapsed_is_type_error() {
    let body = status_body("song: 1\nelapsed: 1.2.3");
    assert!(matches!(Status::parse(&body), Err(Error::ParseType { .. })));
}

#[test]
fn song_decodes_artist_and_title() {
    let s = Song::parse("file: a.mp3\nArtist: A\nTitle: T\nTrack: 1").ok().unwrap();
    assert_eq!(s.artist, "A");
    assert_eq!(s.title, "T");
}

#[test]
fn song_without_title_is_missing_key() {
    match Song::parse("Artist: A") {
        Err(Error::ExpectedKey { key, .. }) => assert_eq!(key, "Title"),
        _ => panic!("expected a missing key"),
    }
}

#[test]
fn songs_split_into_records() {
    let reply = "Artist: A\nTitle: T\nfile: x\nArtist: B\nTitle: U\nfile: y\nOK\n";
    let body = match frame(reply) {
        Frame::Body { text } => text,
        _ => panic!("expected a body"),
    };
    let blocks = split_songs(&body);
    assert_eq!(blocks.len(), 2);
    let a = Song::parse(&blocks[0]).ok().unwrap();
    assert_eq!((a.artist.as_str(), a.title.as_str()), ("A", "T"));
    let b = Song::parse(&blocks[1]).ok().unwrap();
    assert_eq!((b.artist.as_str(), b.title.as_str()), ("B", "U"));
    assert_eq!(blocks[0], "Artist: A\nTitle: T\nfile: x");
    assert_eq!(blocks[1], "Artist: B\nTitle: U\nfile: y");
}

#[test]
fn songs_split_with_file_first() {
    let body = "file: x\nArtist: A\nTitle: T\nfile: y\nArtist: B\nTitle: U";
    let blocks = split_songs(body);
    assert_eq!(blocks, vec!["file: x\nArtist: A\nTitle: T".to_string(), "file: y\nArtist: B\nTitle: U".to_string()]);
}

#[test]
fn blank_listing_has_no_songs() {
    assert!(split_songs("").is_empty());
    assert!(split_songs(" \n").is_empty());
}

#[test]
fn ack_is_server_error() {
    match frame("ACK [5@0] {play} error\n") {
        Frame::ServerError { message } => assert_eq!(message, "ACK [5@0] {play} error"),
        _ => panic!("expected a server error"),
    }
}

#[test]
fn framing_waits_for_ok() {
    assert!(matches!(frame("volume: 5\n"), Frame::Incomplete));
    match frame("volume: 5\nOK\n") {
        Frame::Body { text } => assert_eq!(text, "volume: 5"),
        _ => panic!("expected a body"),
    }
    assert!(matches!(frame("file: BOOK\n"), Frame::Incomplete));
    match frame("file: BOOK\nOK\n") {
        Frame::Body { text } => assert_eq!(text, "file: BOOK"),
        _ => panic!("expected a body"),
    }
    match frame("OK\n") {
        Frame::Body { text } => assert_eq!(text, ""),
        _ => panic!("expected a body"),
    }
}

#[test]
fn greeting_gives_version() {
    let v = parse_greeting("OK MPD 0.19.9\n").ok().unwrap();
    assert_eq!(v, Version { major: 0, minor: 19, patch: 9 });
    assert_eq!((v.major(), v.minor(), v.patch()), (0, 19, 9));
}

#[test]
fn bad_greeting_is_handshake_error() {
    assert!(matches!(parse_greeting("HELLO\n"), Err(HandshakeError::BadGreeting { .. })));
    match parse_greeting("OK MPD 0.19\n") {
        Err(HandshakeError::BadVersion { text }) => assert_eq!(text, "0.19"),
        _ => panic!("expected a bad version"),
    }
}

#[test]
fn version_parse() {
    assert_eq!(Version::parse("1.2.3"), Ok(Version { major: 1, minor: 2, patch: 3 }));
    assert!(Version::parse("1.2").is_err());
    assert!(Version::parse("1.2.3.4").is_err());
    assert!(Version::parse("a.2.3").is_err());
}

#[test]
fn time_and_state_parse() {
    assert_eq!(Time::parse("5:10").ok(), Some(Time { elapsed: 5, total: 10 }));
    assert!(matches!(Time::parse("5"), Err(Error::ParseType { .. })));
    assert!(matches!(State::parse("play"), Ok(State::Play)));
    assert!(matches!(State::parse("paused"), Err(Error::ParseType { .. })));
}

#[test]
fn listing_keeps_files() {
    let files = file_entries("directory: d\nfile: d/a.mp3\nLast-Modified: x\nfile: b.ogg");
    assert_eq!(files, vec!["d/a.mp3".to_string(), "b.ogg".to_string()]);
}

#[test]
fn pairs_split_at_first_separator() {
    let pairs = mpd::parse::parse_pairs("a: b: c\nd: ").ok().unwrap();
    assert_eq!(pairs, vec![("a".to_string(), "b: c".to_string()), ("d".to_string(), "".to_string())]);
    assert!(matches!(mpd::parse::parse_pairs("a:b"), Err(Error::MissingValue { .. })));
}

#[test]
fn strict_song_rejects_unknown_key() {
    match Song::parse_with("Artist: A\nTitle: T\nTrack: 1", true) {
        Err(Error::UnhandledKeyValuePair { key, value }) => {
            assert_eq!(key, "Track");
            assert_eq!(value, "1");
        }
        _ => panic!("expected an unhandled pair"),
    }
    assert!(Song::parse_with("Artist: A\nTitle: T", true).is_ok());
}

#[test]
fn strict_status_rejects_unknown_key() {
    let body = status_body("song: 1\nbitrate: 320");
    match Status::parse_with(&body, true) {
        Err(Error::UnhandledKeyValuePair { key, value }) => {
            assert_eq!(key, "bitrate");
            assert_eq!(value, "320");
        }
        _ => panic!("expected an unhandled pair"),
    }
    assert!(Status::parse_with(&status_body("song: 1\ntime: 3:4"), true).is_ok());
    assert!(Status::parse_with(&body, false).is_ok());
}

#[test]
fn error_messages() {
    let e = Status::parse("state: play").err().unwrap();
    assert_eq!(e.message(), "Expected to find key consume in:\nstate: play");
    let e = Time::parse("5").err().unwrap();
    assert_eq!(e.message(), "Couldn't parse 5 as Time");
    let e = Song::parse("x").err().unwrap();
    assert_eq!(e.message(), "Missing {value} when parsing \"x\" as \"{key}: {value}\"");
}

#[test]
fn connection_phases() {
    let p = Phase::Ready.next(Event::Sent);
    assert_eq!(p, Phase::AwaitingReply);
    assert_eq!(p.next(Event::Incomplete), Phase::AwaitingReply);
    assert_eq!(p.next(Event::Completed), Phase::Ready);
    assert_eq!(p.next(Event::ServerFailed), Phase::Faulted);
    assert_eq!(p.next(Event::Sent), Phase::Faulted);
    assert_eq!(Phase::Faulted.next(Event::Sent), Phase::Faulted);
    assert_eq!(Phase::Ready.next(Event::TransportFailed), Phase::Faulted);
    assert!(Phase::Ready.may_send());
    assert!(!Phase::Faulted.may_send());
    assert_eq!(frame("ACK x\n").event(), Event::ServerFailed);
    assert_eq!(frame("OK\n").event(), Event::Completed);
}

#[test]
fn carriage_returns_end_lines() {
    let s = Song::parse("Artist: A\r\nTitle: T\r\n").ok().unwrap();
    assert_eq!(s.artist, "A");
    assert_eq!(s.title, "T");
}

#[test]
fn greeting_with_large_components() {
    let v = parse_greeting("OK MPD 4294967295.10.0\n").ok().unwrap();
    assert_eq!(v, Version { major: 4294967295, minor: 10, patch: 0 });
    assert!(matches!(parse_greeting("OK MPD 4294967296.1.0\n"), Err(HandshakeError::BadVersion { .. })));
}

#[test]
fn elapsed_accepts_float_forms() {
    for e in ["5.", ".5", "+1.5", "1e3", "2.5E-2", "inf", "-Infinity", "NaN", "61.250", "7"] {
        let body = status_body(&format!("song: 1\nelapsed: {}", e));
        let s = Status::parse(&body).ok().unwrap();
        assert_eq!(s.extra.unwrap().elapsed.as_deref(), Some(e));
        assert!(e.parse::<f64>().is_ok());
    }
    for e in [".", "", "1e", "e3", "1.2.3", "in", "1x"] {
        let body = status_body(&format!("song: 1\nelapsed: {}", e));
        match Status::parse(&body) {
            Err(Error::ParseType { ty, value }) => {
                assert_eq!(ty, "f64");
                assert_eq!(value, e);
            }
            _ => panic!("expected a type error"),
        }
        assert!(e.parse::<f64>().is_err());
    }
}

#[test]
fn unicode_whitespace_is_trimmed() {
    let v = parse_greeting("OK MPD 0.19.9\u{c}\u{a0}\n").ok().unwrap();
    assert_eq!(v, Version { major: 0, minor: 19, patch: 9 });
}

#[test]
fn missing_value_message_escapes_the_line() {
    let e = Song::parse("say \"hi\"\\now\tx").err().unwrap();
    assert_eq!(e.message(), format!("Missing {{value}} when parsing {:?} as \"{{key}}: {{value}}\"", "say \"hi\"\\now\tx"));
}
