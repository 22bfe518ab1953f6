//! Properties that relate the encoder, the decoders and the framing.
use vstd::prelude::*;

use crate::command::{
    command_line, decimal, decode_line, digit_char, flag, flag_value, mode_name, number_value, quoted,
    unquote, Command,
};
use crate::number::{digits_value, is_digits, number_of, unsigned_part};
use crate::parse::{
    first_error, last_value, req_bool, req_u32, req_volume, state_of, status_of, u32_of, Record,
};
use crate::State;
use crate::protocol::{component_of, frame_of, greeting_of, version_of, FrameView, Version};
use crate::text::{first_char, first_char_at, is_space, lemma_first_char, lines, starts_with, trim_end};

verus! {

/// The decimal text of a digit stands for that digit.
proof fn lemma_digit_char(d: nat)
    requires
        d < 10,
    ensures
        is_digits(seq![digit_char(d)]),
        (digit_char(d) as u32) - ('0' as u32) == d,
{
    let s = seq!['0', '1', '2', '3', '4', '5', '6', '7', '8', '9'];
    assert(s[0] == '0' && s[1] == '1' && s[2] == '2' && s[3] == '3' && s[4] == '4');
    assert(s[5] == '5' && s[6] == '6' && s[7] == '7' && s[8] == '8' && s[9] == '9');
}

/// The decimal text of `n` is made of digits whose value is `n`.
proof fn lemma_decimal_value(n: nat)
    ensures
        is_digits(decimal(n)),
        digits_value(decimal(n)) == n,
        decimal(n)[0] != '+',
    decreases n,
{
    lemma_digit_char(n % 10);
    if n < 10 {
        assert(seq![digit_char(n)].drop_last() =~= Seq::<char>::empty());
        assert(decimal(n).last() == digit_char(n));
        assert(digits_value(decimal(n)) == digits_value(Seq::<char>::empty()) * 10 + n);
    } else {
        lemma_decimal_value(n / 10);
        let d = decimal(n / 10);
        assert(decimal(n).drop_last() =~= d);
        assert(decimal(n)[0] == d[0]);
        assert(decimal(n).last() == digit_char(n % 10));
        assert(digits_value(decimal(n)) == digits_value(d) * 10 + n % 10);
        assert((n / 10) * 10 + n % 10 == n) by (nonlinear_arith);
        assert forall|i: int| 0 <= i < decimal(n).len() implies crate::number::is_digit(
            #[trigger] decimal(n)[i],
        ) by {
            if i < d.len() {
                assert(decimal(n)[i] == d[i]);
            } else {
                assert(seq![digit_char(n % 10)][0] == digit_char(n % 10));
            }
        }
    }
}

/// Decoding the decimal text that the encoder writes for a number gives the
/// number back.
pub proof fn lemma_number_round_trip(n: u32)
    ensures
        u32_of(decimal(n as nat)) == Ok::<u32, crate::parse::ErrorView>(n),
{
    lemma_decimal_value(n as nat);
    assert(unsigned_part(decimal(n as nat)) == decimal(n as nat));
    assert(number_of(decimal(n as nat), u32::MAX as nat) == Some(n as nat));
}

/// The first point in `decimal(a) + "." + rest` is the one after the digits.
proof fn lemma_point_after_digits(a: nat, rest: Seq<char>)
    ensures
        first_char(decimal(a) + seq!['.'] + rest, '.') == decimal(a).len(),
        (decimal(a) + seq!['.'] + rest).contains('.'),
        (decimal(a) + seq!['.'] + rest).take(decimal(a).len() as int) == decimal(a),
        (decimal(a) + seq!['.'] + rest).skip(decimal(a).len() as int + 1) == rest,
{
    lemma_decimal_value(a);
    let d = decimal(a);
    let s = d + seq!['.'] + rest;
    assert forall|j: int| 0 <= j < d.len() implies s[j] != '.' by {
        assert(s[j] == d[j]);
        assert(crate::number::is_digit(d[j]));
    }
    assert(s[d.len() as int] == '.');
    assert(first_char_at(s, '.', d.len() as int));
    lemma_first_char(s, '.', d.len() as int);
    assert(s.take(d.len() as int) =~= d);
    assert(s.skip(d.len() as int + 1) =~= rest);
}

/// The greeting that announces version `a.b.c` gives that version.
pub proof fn lemma_greeting_round_trip(a: u32, b: u32, c: u32)
    ensures
        greeting_of(
            "OK MPD "@ + decimal(a as nat) + seq!['.'] + decimal(b as nat) + seq!['.'] + decimal(
                c as nat,
            ) + seq!['\n'],
        ) == Ok::<Version, crate::protocol::HandshakeErrorView>(Version { major: a, minor: b, patch: c }),
{
    reveal_strlit("OK MPD ");
    let p = "OK MPD "@;
    let dc = decimal(c as nat);
    let rest = decimal(b as nat) + seq!['.'] + dc;
    let text = decimal(a as nat) + seq!['.'] + rest;
    let line = p + decimal(a as nat) + seq!['.'] + decimal(b as nat) + seq!['.'] + dc + seq!['\n'];
    assert(line.take(7) =~= p);
    assert(line.skip(7) =~= text.push('\n'));
    lemma_decimal_value(a as nat);
    lemma_decimal_value(b as nat);
    lemma_decimal_value(c as nat);
    assert(text.push('\n').drop_last() =~= text);
    assert(text.last() == dc.last());
    assert(crate::number::is_digit(dc[dc.len() - 1]));
    assert(!is_space(text.last()));
    assert(trim_end(text) == text);
    assert(trim_end(text.push('\n')) == text);
    lemma_point_after_digits(a as nat, rest);
    lemma_point_after_digits(b as nat, dc);
    lemma_number_round_trip(a);
    lemma_number_round_trip(b);
    lemma_number_round_trip(c);
    assert(component_of(decimal(a as nat)) == Some(a));
    assert(component_of(decimal(b as nat)) == Some(b));
    assert(component_of(decimal(c as nat)) == Some(c));
    assert(version_of(text) == Some(Version { major: a, minor: b, patch: c }));
}

/// A status body whose every line is a `key: value` pair that the decoder
/// accepts, whose required fields are present and decode, whose last `state`
/// line is `play`, whose last `song` line gives position `n`, and which has no
/// `time` line, decodes to the state `play` with an extra block at position
/// `n` and without elapsed and total time.
pub proof fn lemma_playing_without_time(input: Seq<char>, strict: bool, n: u32)
    requires
        first_error(Record::StatusRecord { strict }, lines(input)) is None,
        req_bool(lines(input), "consume"@, input) is Ok,
        req_u32(lines(input), "playlistlength"@, input) is Ok,
        req_bool(lines(input), "random"@, input) is Ok,
        req_bool(lines(input), "repeat"@, input) is Ok,
        req_bool(lines(input), "single"@, input) is Ok,
        req_volume(lines(input), input) is Ok,
        last_value(lines(input), "state"@) == Some("play"@),
        last_value(lines(input), "song"@) == Some(decimal(n as nat)),
        last_value(lines(input), "time"@) is None,
    ensures
        status_of(input, strict) is Ok,
        status_of(input, strict)->Ok_0.state == State::Play,
        status_of(input, strict)->Ok_0.extra matches Some(x) && x.pos == n && x.time is None,
{
    lemma_number_round_trip(n);
    assert(state_of("play"@) == Ok::<State, crate::parse::ErrorView>(State::Play));
}

/// The keywords of the encoding table are told apart by the decoder.
proof fn lemma_keywords_differ()
    ensures
        "play"@ != "next"@,
        "stop"@ != "next"@,
        "stop"@ != "play"@,
        "update"@ != "status"@,
        "setvol"@ != "update"@,
        "random"@ != "update"@,
        "random"@ != "setvol"@,
        "repeat"@ != "update"@,
        "repeat"@ != "setvol"@,
        "repeat"@ != "random"@,
        "single"@ != "update"@,
        "single"@ != "setvol"@,
        "single"@ != "random"@,
        "single"@ != "repeat"@,
        "consume"@ != "listall"@,
{
    reveal_strlit("play");
    reveal_strlit("next");
    reveal_strlit("stop");
    reveal_strlit("update");
    reveal_strlit("status");
    reveal_strlit("setvol");
    reveal_strlit("random");
    reveal_strlit("repeat");
    reveal_strlit("single");
    reveal_strlit("consume");
    reveal_strlit("listall");
    assert("play"@[0] != "next"@[0]);
    assert("stop"@[0] != "next"@[0]);
    assert("stop"@[0] != "play"@[0]);
    assert("update"@[0] != "status"@[0]);
    assert("setvol"@[0] != "update"@[0]);
    assert("random"@[0] != "update"@[0]);
    assert("random"@[0] != "setvol"@[0]);
    assert("repeat"@[0] != "update"@[0]);
    assert("repeat"@[0] != "setvol"@[0]);
    assert("repeat"@[2] != "random"@[2]);
    assert("single"@[0] != "update"@[0]);
    assert("single"@[1] != "setvol"@[1]);
    assert("single"@[0] != "random"@[0]);
    assert("single"@[0] != "repeat"@[0]);
    assert("consume"@[0] != "listall"@[0]);
}

/// A line made of a keyword without spaces, a space and an argument splits
/// at that space.
proof fn lemma_keyword_split(kw: Seq<char>, arg: Seq<char>)
    requires
        forall|i: int| 0 <= i < kw.len() ==> kw[i] != ' ',
    ensures
        (kw + seq![' '] + arg).contains(' '),
        first_char(kw + seq![' '] + arg, ' ') == kw.len(),
        (kw + seq![' '] + arg).take(kw.len() as int) == kw,
        (kw + seq![' '] + arg).skip(kw.len() as int + 1) == arg,
{
    let l = kw + seq![' '] + arg;
    assert forall|j: int| 0 <= j < kw.len() implies l[j] != ' ' by {
        assert(l[j] == kw[j]);
    }
    assert(first_char_at(l, ' ', kw.len() as int));
    lemma_first_char(l, ' ', kw.len() as int);
    assert(l.take(kw.len() as int) =~= kw);
    assert(l.skip(kw.len() as int + 1) =~= arg);
}

/// A quoted argument gives its path back.
proof fn lemma_unquote(u: Seq<char>)
    ensures
        unquote(quoted(u)) == Some(u),
{
    assert(quoted(u).subrange(1, quoted(u).len() - 1) =~= u);
}

/// A flag gives its boolean back.
proof fn lemma_flag(b: bool)
    ensures
        flag_value(flag(b)) == Some(b),
{
    assert(seq!['1'][0] != seq!['0'][0]);
}

/// The encoding of a number gives the number back.
proof fn lemma_number_value(n: u32)
    ensures
        number_value(decimal(n as nat)) == Some(n),
{
    lemma_number_round_trip(n);
}

/// Reading the line that encodes a command by the encoding table gives the
/// command back.
pub proof fn lemma_command_round_trip(c: Command)
    ensures
        decode_line(command_line(c)) == Some(c@),
{
    lemma_keywords_differ();
    match c {
        Command::Add { uri } => {
            reveal_strlit("add ");
            reveal_strlit("add");
            assert("add "@ + quoted(uri@) =~= "add"@ + seq![' '] + quoted(uri@));
            lemma_keyword_split("add"@, quoted(uri@));
            lemma_unquote(uri@);
        },
        Command::ListAll { uri: Some(u) } => {
            reveal_strlit("listall ");
            reveal_strlit("listall");
            reveal_strlit("add");
            assert("listall "@ + quoted(u@) =~= "listall"@ + seq![' '] + quoted(u@));
            lemma_keyword_split("listall"@, quoted(u@));
            lemma_unquote(u@);
        },
        Command::Update { uri: Some(u) } => {
            reveal_strlit("update ");
            reveal_strlit("update");
            reveal_strlit("add");
            reveal_strlit("listall");
            assert("update "@ + quoted(u@) =~= "update"@ + seq![' '] + quoted(u@));
            lemma_keyword_split("update"@, quoted(u@));
            lemma_unquote(u@);
        },
        Command::Pause { state } => {
            reveal_strlit("pause ");
            reveal_strlit("pause");
            reveal_strlit("add");
            reveal_strlit("listall");
            reveal_strlit("update");
            assert("pause "@ + flag(state) =~= "pause"@ + seq![' '] + flag(state));
            lemma_keyword_split("pause"@, flag(state));
            lemma_flag(state);
        },
        Command::Play { position: Some(p) } => {
            reveal_strlit("play ");
            reveal_strlit("play");
            reveal_strlit("add");
            reveal_strlit("listall");
            reveal_strlit("update");
            reveal_strlit("pause");
            assert("play "@ + decimal(p as nat) =~= "play"@ + seq![' '] + decimal(p as nat));
            lemma_keyword_split("play"@, decimal(p as nat));
            lemma_number_value(p);
        },
        Command::Volume { level } => {
            reveal_strlit("setvol ");
            reveal_strlit("setvol");
            reveal_strlit("add");
            reveal_strlit("listall");
            reveal_strlit("update");
            reveal_strlit("pause");
            reveal_strlit("play");
            assert("setvol "@ + decimal(level as nat) =~= "setvol"@ + seq![' '] + decimal(level as nat));
            lemma_keyword_split("setvol"@, decimal(level as nat));
            lemma_number_value(level);
        },
        Command::SetMode { mode, state } => {
            reveal_strlit("consume");
            reveal_strlit("random");
            reveal_strlit("repeat");
            reveal_strlit("single");
            reveal_strlit("add");
            reveal_strlit("listall");
            reveal_strlit("update");
            reveal_strlit("pause");
            reveal_strlit("play");
            reveal_strlit("setvol");
            lemma_keyword_split(mode_name(mode), flag(state));
            lemma_flag(state);
        },
        _ => {
            reveal_strlit("clear");
            reveal_strlit("currentsong");
            reveal_strlit("listall");
            reveal_strlit("next");
            reveal_strlit("play");
            reveal_strlit("playlistinfo");
            reveal_strlit("previous");
            reveal_strlit("status");
            reveal_strlit("stop");
            reveal_strlit("update");
            let l = command_line(c);
            assert(forall|i: int| 0 <= i < l.len() ==> l[i] != ' ');
            assert(!l.contains(' '));
        },
    }
}

/// Two commands whose lines are equal are the same command.
pub proof fn lemma_command_lines_differ(c1: Command, c2: Command)
    requires
        command_line(c1) == command_line(c2),
    ensures
        c1@ == c2@,
{
    lemma_command_round_trip(c1);
    lemma_command_round_trip(c2);
}

/// A reply that begins with `ACK` is a server error, never a body.
pub proof fn lemma_ack_is_server_error(buffer: Seq<char>)
    requires
        starts_with(buffer, seq!['A', 'C', 'K']),
    ensures
        frame_of(buffer) is ServerError,
        !(frame_of(buffer) is Body),
{
}

} // verus!
