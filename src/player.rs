//! Playback operations as protocol commands, and how their replies are read.
use vstd::prelude::*;
use vstd::utf8::is_ascii_chars;
use crate::protocol::{arg_text, args_of, flag_of, flag_text, Arg, MpvIpcError, Token};
use crate::range::ascii_bytes;
use crate::text::{decimal, lemma_decimal, lemma_parse_decimal, is_digit, parse_u64_spec, signed_decimal};

verus! {

pub open spec fn set_args(name: Seq<char>, value: Arg) -> Seq<Arg> {
    seq![Arg::Text("set_property"@), Arg::Text(name), value]
}

pub open spec fn get_args(name: Seq<char>) -> Seq<Arg> {
    seq![Arg::Text("get_property"@), Arg::Text(name)]
}

pub open spec fn cycle_args(name: Seq<char>) -> Seq<Arg> {
    seq![Arg::Text("cycle"@), Arg::Text(name)]
}

fn text(s: &str) -> (t: Token)
    ensures
        t@ == Arg::Text(s@),
{
    Token::Text(s.to_owned())
}

/// `set_property <name> <value>`
pub fn set_property_command(name: &str, value: Token) -> (r: Vec<Token>)
    ensures
        args_of(r@) == set_args(name@, value@),
{
    let r = vec![text("set_property"), text(name), value];
    assert(args_of(r@) =~= set_args(name@, r@[2]@));
    r
}

/// `get_property <name>`
pub fn get_property_command(name: &str) -> (r: Vec<Token>)
    ensures
        args_of(r@) == get_args(name@),
{
    let r = vec![text("get_property"), text(name)];
    assert(args_of(r@) =~= get_args(name@));
    r
}

/// `cycle <name>`: flips a boolean property.
pub fn cycle_command(name: &str) -> (r: Vec<Token>)
    ensures
        args_of(r@) == cycle_args(name@),
{
    let r = vec![text("cycle"), text(name)];
    assert(args_of(r@) =~= cycle_args(name@));
    r
}

/// A command of plain words.
pub fn word_command(words: &Vec<&str>) -> (r: Vec<Token>)
    ensures
        r@.len() == words@.len(),
        forall|i: int| 0 <= i < r@.len() ==> #[trigger] r@[i]@ == Arg::Text(words@[i]@),
{
    let mut r: Vec<Token> = Vec::new();
    let mut i: usize = 0;
    while i < words.len()
        invariant
            i <= words@.len(),
            r@.len() == i,
            forall|j: int| 0 <= j < i ==> #[trigger] r@[j]@ == Arg::Text(words@[j]@),
        decreases words@.len() - i,
    {
        r.push(text(words[i]));
        i = i + 1;
    }
    r
}

/// `loadfile <url> replace`: plays `url` in place of what plays now.
pub fn load_file_command(url: &str) -> (r: Vec<Token>)
    ensures
        args_of(r@) == seq![Arg::Text("loadfile"@), Arg::Text(url@), Arg::Text("replace"@)],
{
    let r = vec![text("loadfile"), text(url), text("replace")];
    assert(args_of(r@) =~= seq![Arg::Text("loadfile"@), Arg::Text(url@), Arg::Text("replace"@)]);
    r
}

/// `seek <seconds> absolute|relative`, the seconds given as text.
pub fn seek_command(seconds: &str, absolute: bool) -> (r: Vec<Token>)
    ensures
        args_of(r@) == seq![
            Arg::Text("seek"@),
            Arg::Text(seconds@),
            Arg::Text(if absolute { "absolute"@ } else { "relative"@ }),
        ],
{
    let mode = if absolute {
        text("absolute")
    } else {
        text("relative")
    };
    let r = vec![text("seek"), text(seconds), mode];
    assert(args_of(r@) =~= seq![
        Arg::Text("seek"@),
        Arg::Text(seconds@),
        Arg::Text(if absolute { "absolute"@ } else { "relative"@ }),
    ]);
    r
}

pub open spec fn clamp_spec(v: i64, lo: i64, hi: i64) -> i64 {
    if v < lo {
        lo
    } else if v > hi {
        hi
    } else {
        v
    }
}

/// The volume sent for a request of `volume`: held to `0..=100`.
pub fn clamp_volume(volume: i64) -> (r: i64)
    ensures
        r == clamp_spec(volume, 0, 100),
{
    if volume < 0 {
        0
    } else if volume > 100 {
        100
    } else {
        volume
    }
}

/// Sets the volume, held to `0..=100`.
pub fn volume_command(volume: i64) -> (r: Vec<Token>)
    ensures
        args_of(r@) == set_args("volume"@, Arg::Int(clamp_spec(volume, 0, 100))),
{
    set_property_command("volume", Token::Int(clamp_volume(volume)))
}

/// The value of the `sid` property for subtitle track `index`: `no`
/// (subtitles off) for an index of 0 or less, else the index.
pub fn subtitle_value(index: i64) -> (t: Token)
    ensures
        t@ == if index <= 0 {
            Arg::Text("no"@)
        } else {
            Arg::Int(index)
        },
{
    if index <= 0 {
        text("no")
    } else {
        Token::Int(index)
    }
}

/// Selects subtitle track `index`, or turns subtitles off.
pub fn subtitle_command(index: i64) -> (r: Vec<Token>)
    ensures
        args_of(r@) == set_args(
            "sid"@,
            if index <= 0 {
                Arg::Text("no"@)
            } else {
                Arg::Int(index)
            },
        ),
{
    set_property_command("sid", subtitle_value(index))
}

/// `k: v` lines joined by CR LF.
pub open spec fn header_block_text(h: Seq<(Seq<char>, Seq<char>)>) -> Seq<char>
    decreases h.len(),
{
    if h.len() == 0 {
        Seq::empty()
    } else if h.len() == 1 {
        h[0].0 + ": "@ + h[0].1
    } else {
        header_block_text(h.drop_last()) + "\r\n"@ + h.last().0 + ": "@ + h.last().1
    }
}

pub open spec fn pairs_of(h: Seq<(String, String)>) -> Seq<(Seq<char>, Seq<char>)> {
    h.map_values(|p: (String, String)| (p.0@, p.1@))
}

/// The header lines handed to the player before a load, in one block.
pub fn header_block(headers: &Vec<(String, String)>) -> (r: String)
    ensures
        r@ == header_block_text(pairs_of(headers@)),
{
    proof {
        reveal_strlit(": ");
        reveal_strlit("\r\n");
    }
    let ghost h = pairs_of(headers@);
    let mut r = String::new();
    let mut i: usize = 0;
    while i < headers.len()
        invariant
            i <= headers@.len(),
            h == pairs_of(headers@),
            r@ == header_block_text(h.subrange(0, i as int)),
        decreases headers@.len() - i,
    {
        let ghost before = r@;
        if i > 0 {
            r.append("\r\n");
        }
        r.append(headers[i].0.as_str());
        r.append(": ");
        r.append(headers[i].1.as_str());
        proof {
            let next = h.subrange(0, i + 1);
            assert(next.drop_last() =~= h.subrange(0, i as int));
            assert(h[i as int] == (headers@[i as int].0@, headers@[i as int].1@));
            assert(next.last() == h[i as int]);
            if i == 0 {
                assert(h.subrange(0, 0) =~= Seq::<(Seq<char>, Seq<char>)>::empty());
                assert(r@ =~= header_block_text(next));
            } else {
                assert(r@ =~= header_block_text(next));
            }
        }
        i = i + 1;
    }
    assert(h.subrange(0, i as int) =~= h);
    r
}

/// The commands that load `url`: first the header block, where headers
/// are given and there are any; then the start offset (its text), where
/// given; then the load itself. Only the load's reply is reported.
pub fn load_commands(url: &str, start: Option<&str>, headers: Option<&Vec<(String, String)>>) -> (r:
    Vec<Vec<Token>>)
    ensures
        ({
            let with_headers = headers matches Some(h) && h@.len() > 0;
            let pre = if with_headers {
                seq![set_args("http-header-fields"@, Arg::Text(header_block_text(pairs_of(headers->Some_0@))))]
            } else {
                Seq::empty()
            };
            let pre2 = match start {
                Some(s) => pre.push(set_args("start"@, Arg::Text(s@))),
                None => pre,
            };
            &&& r@.len() == pre2.len() + 1
            &&& forall|i: int| 0 <= i < pre2.len() ==> #[trigger] args_of(r@[i]@) == pre2[i]
            &&& args_of(r@.last()@) == seq![Arg::Text("loadfile"@), Arg::Text(url@), Arg::Text("replace"@)]
        }),
{
    let mut r: Vec<Vec<Token>> = Vec::new();
    match headers {
        Some(h) => {
            if h.len() > 0 {
                let block = header_block(h);
                r.push(set_property_command("http-header-fields", Token::Text(block)));
            }
        },
        None => {},
    }
    match start {
        Some(s) => {
            r.push(set_property_command("start", text(s)));
        },
        None => {},
    }
    r.push(load_file_command(url));
    r
}

/// Failures of a playback operation.
pub enum MpvError {
    InitError(String),
    /// No player process has been started.
    NotInitialized,
    IpcError(MpvIpcError),
}

/// The player an operation runs on: `NotInitialized` where none was started.
pub fn with_player<T>(player: Option<T>) -> (r: Result<T, MpvError>)
    ensures
        match player {
            Some(p) => r == Ok::<T, MpvError>(p),
            None => r matches Err(MpvError::NotInitialized),
        },
{
    match player {
        Some(p) => Ok(p),
        None => Err(MpvError::NotInitialized),
    }
}

/// A snapshot of playback, as far as it is not measured in seconds.
pub struct PlaybackSnapshot {
    pub is_playing: bool,
    pub is_paused: bool,
    pub volume: i64,
    pub is_muted: bool,
    pub filename: Option<String>,
    pub media_title: Option<String>,
}

/// Builds a snapshot from the property reads that succeeded. A failed read
/// is replaced by its default: paused, volume 100, not muted, no name.
pub fn snapshot(
    paused: Option<bool>,
    volume: Option<i64>,
    muted: Option<bool>,
    filename: Option<String>,
    media_title: Option<String>,
) -> (s: PlaybackSnapshot)
    ensures
        s.is_paused == match paused {
            Some(p) => p,
            None => true,
        },
        s.is_playing == !s.is_paused,
        s.volume == match volume {
            Some(v) => v,
            None => 100,
        },
        s.is_muted == match muted {
            Some(m) => m,
            None => false,
        },
        s.filename == filename,
        s.media_title == media_title,
{
    let is_paused = match paused {
        Some(p) => p,
        None => true,
    };
    PlaybackSnapshot {
        is_playing: !is_paused,
        is_paused,
        volume: match volume {
            Some(v) => v,
            None => 100,
        },
        is_muted: match muted {
            Some(m) => m,
            None => false,
        },
        filename,
        media_title,
    }
}

/// The integer a JSON text holds: an optional `-`, then decimal digits,
/// within the range of `i64`.
pub open spec fn int_of(t: Seq<char>) -> Option<i64> {
    if !is_ascii_chars(t) || t.len() == 0 {
        None
    } else if t[0] == '-' {
        let b = t.drop_first();
        if b.len() > 0 && b[0] != '+' {
            match parse_u64_spec(b) {
                Some(v) => if v <= 9223372036854775808u64 {
                    Some((-(v as int)) as i64)
                } else {
                    None
                },
                None => None,
            }
        } else {
            None
        }
    } else if t[0] != '+' {
        match parse_u64_spec(t) {
            Some(v) => if v <= 9223372036854775807u64 {
                Some(v as i64)
            } else {
                None
            },
            None => None,
        }
    } else {
        None
    }
}

/// Reads the data of a reply as an integer.
pub fn decode_int(data: &String) -> (r: Option<i64>)
    ensures
        r == int_of(data@),
{
    let s = data.as_str();
    if !s.is_ascii() {
        return None;
    }
    let b = s.as_bytes();
    proof {
        vstd::string::is_ascii_spec_bytes(s);
    }
    assert(ascii_bytes(b@, s@));
    let n = b.len();
    if n == 0 {
        return None;
    }
    assert(s@[0] as u8 == b@[0]);
    if b[0] == 45 {
        if n == 1 {
            return None;
        }
        assert(s@[1] as u8 == b@[1]);
        if b[1] == 43 {
            assert(s@.drop_first()[0] == s@[1]);
            return None;
        }
        assert(s@.subrange(1, n as int) =~= s@.drop_first());
        match crate::range::parse_u64_at(b, 1, n, Ghost(s@)) {
            Some(v) => {
                if v <= 9223372036854775807u64 {
                    Some(-(v as i64))
                } else if v == 9223372036854775808u64 {
                    Some(i64::MIN)
                } else {
                    None
                }
            },
            None => None,
        }
    } else if b[0] == 43 {
        None
    } else {
        assert(s@.subrange(0, n as int) =~= s@);
        match crate::range::parse_u64_at(b, 0, n, Ghost(s@)) {
            Some(v) => {
                if v <= 9223372036854775807u64 {
                    Some(v as i64)
                } else {
                    None
                }
            },
            None => None,
        }
    }
}

/// A model of the player's property store, property names to the JSON
/// texts of their values: what a command does to it.
pub open spec fn store_after(store: Map<Seq<char>, Seq<char>>, cmd: Seq<Arg>) -> Map<
    Seq<char>,
    Seq<char>,
> {
    if cmd.len() == 3 && cmd[0] == Arg::Text("set_property"@) && cmd[1] is Text {
        store.insert(cmd[1]->Text_0, arg_text(cmd[2]))
    } else if cmd.len() == 2 && cmd[0] == Arg::Text("cycle"@) && cmd[1] is Text
        && store.contains_key(cmd[1]->Text_0) && flag_of(store[cmd[1]->Text_0]) is Some {
        store.insert(cmd[1]->Text_0, flag_text(!(flag_of(store[cmd[1]->Text_0])->Some_0)))
    } else {
        store
    }
}

/// The data of the model's reply to a `get_property` command.
pub open spec fn store_reply(store: Map<Seq<char>, Seq<char>>, cmd: Seq<Arg>) -> Option<Seq<char>> {
    if cmd.len() == 2 && cmd[0] == Arg::Text("get_property"@) && cmd[1] is Text
        && store.contains_key(cmd[1]->Text_0) {
        Some(store[cmd[1]->Text_0])
    } else {
        None
    }
}

proof fn lemma_command_words_differ()
    ensures
        "set_property"@ != "cycle"@,
        "get_property"@ != "cycle"@,
        "true"@ != "false"@,
        flag_of(flag_text(true)) == Some(true),
        flag_of(flag_text(false)) == Some(false),
{
    reveal_strlit("set_property");
    reveal_strlit("get_property");
    reveal_strlit("cycle");
    reveal_strlit("true");
    reveal_strlit("false");
    assert("set_property"@.len() != "cycle"@.len());
    assert("get_property"@.len() != "cycle"@.len());
    assert("true"@.len() != "false"@.len());
}

/// The integer text of a number reads back as that number.
pub proof fn lemma_int_text(n: i64)
    ensures
        int_of(signed_decimal(n as int)) == Some(n),
{
    if n < 0 {
        let m = (-(n as int)) as u64;
        lemma_parse_decimal(m);
        lemma_decimal(m as nat);
        let t = signed_decimal(n as int);
        let d = decimal(m as nat);
        assert(t.drop_first() =~= d);
        assert(is_digit(d[0]));
        assert forall|i: int| 0 <= i < t.len() implies '\0' <= #[trigger] t[i] <= '\u{7f}' by {
            if i > 0 {
                assert(t[i] == d[i - 1]);
                assert(is_digit(d[i - 1]));
            }
        }
    } else {
        lemma_parse_decimal(n as u64);
        lemma_decimal(n as nat);
        let d = decimal(n as nat);
        assert(is_digit(d[0]));
        assert forall|i: int| 0 <= i < d.len() implies '\0' <= #[trigger] d[i] <= '\u{7f}' by {
            assert(is_digit(d[i]));
        }
    }
}

/// Setting a property and then reading it gives back the value set, for
/// integer and boolean values, against a player that keeps what it is
/// told.
pub proof fn lemma_set_then_get(store: Map<Seq<char>, Seq<char>>, name: Seq<char>, value: Arg)
    requires
        value is Int || value is Flag,
    ensures
        ({
            let reply = store_reply(store_after(store, set_args(name, value)), get_args(name));
            &&& reply is Some
            &&& value matches Arg::Int(n) ==> int_of(reply->Some_0) == Some(n)
            &&& value matches Arg::Flag(b) ==> flag_of(reply->Some_0) == Some(b)
        }),
{
    lemma_command_words_differ();
    match value {
        Arg::Int(n) => lemma_int_text(n),
        _ => {},
    }
}

/// Toggling pause twice, each time reading the flag back, reports the
/// flipped state and then the original one.
pub proof fn lemma_toggle_twice(store: Map<Seq<char>, Seq<char>>, paused: bool)
    requires
        store.contains_key("pause"@),
        flag_of(store["pause"@]) == Some(paused),
    ensures
        ({
            let once = store_after(store, cycle_args("pause"@));
            let twice = store_after(once, cycle_args("pause"@));
            &&& store_reply(once, get_args("pause"@)) matches Some(t) && flag_of(t) == Some(!paused)
            &&& store_reply(twice, get_args("pause"@)) matches Some(t) && flag_of(t) == Some(paused)
        }),
{
    lemma_command_words_differ();
}

/// A volume asked for is held to `0..=100`, and reading the volume back
/// after setting it gives the held value, against a player that keeps what
/// it is told.
pub proof fn lemma_volume_read_back(store: Map<Seq<char>, Seq<char>>, volume: i64)
    ensures
        ({
            let held = clamp_spec(volume, 0, 100);
            let after = store_after(store, set_args("volume"@, Arg::Int(held)));
            &&& 0 <= held <= 100
            &&& volume > 100 ==> held == 100
            &&& volume < 0 ==> held == 0
            &&& store_reply(after, get_args("volume"@)) matches Some(t) && int_of(t) == Some(held)
        }),
{
    lemma_set_then_get(store, "volume"@, Arg::Int(clamp_spec(volume, 0, 100)));
}

} // verus!
