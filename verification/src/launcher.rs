//! The launcher's configuration: the `nestri.env` file it writes on first run
//! and reads on every start, and the choices of its tray menu.
use vstd::prelude::*;
use vstd::string::*;

use crate::text::{
    lemma_trim_idempotent, chars_of, index_of_from, spec_is_whitespace, spec_split_once, spec_trim_end, spec_trim_start, spec_trim, split_once_chars, str_eq, string_from_chars, trim,
    trim_chars,
};
use crate::{spec_stream_url, stream_url, DEFAULT_RELAY};

verus! {

/// The room used when none is configured.
pub const DEFAULT_ROOM: &'static str = "nestri-windows";

/// The `KEY=value` entry a line of the env file holds, if any: the line is
/// trimmed; empty lines, `#` comments and lines without `=` hold none; key and
/// value are trimmed.
pub open spec fn spec_env_line(line: Seq<char>) -> Option<(Seq<char>, Seq<char>)> {
    let t = spec_trim(line);
    if t.len() == 0 || t[0] == '#' {
        None
    } else {
        match spec_split_once(t, '=') {
            Some((k, v)) => Some((spec_trim(k), spec_trim(v))),
            None => None,
        }
    }
}

/// The entries of the env file's lines, in order.
pub open spec fn spec_env_entries(lines: Seq<Seq<char>>) -> Seq<(Seq<char>, Seq<char>)>
    decreases lines.len(),
{
    if lines.len() == 0 {
        Seq::empty()
    } else {
        let rest = spec_env_entries(lines.drop_last());
        match spec_env_line(lines.last()) {
            Some(e) => rest.push(e),
            None => rest,
        }
    }
}

/// The characters of each string.
pub open spec fn string_views(v: Seq<String>) -> Seq<Seq<char>> {
    v.map_values(|s: String| s@)
}

/// The characters of each entry's key and value.
pub open spec fn entry_views(v: Seq<(String, String)>) -> Seq<(Seq<char>, Seq<char>)> {
    v.map_values(|e: (String, String)| (e.0@, e.1@))
}

/// The entry a line of the env file holds, if any.
pub fn parse_env_line(line: &str) -> (r: Option<(String, String)>)
    ensures
        match spec_env_line(line@) {
            Some((k, v)) => r matches Some((a, b)) && a@ == k && b@ == v,
            None => r is None,
        },
{
    let chars = chars_of(line);
    let t = trim_chars(&chars);
    if t.len() == 0 || t[0] == '#' {
        return None;
    }
    match split_once_chars(&t, '=') {
        Some((k, v)) => {
            let key = trim_chars(&k);
            let value = trim_chars(&v);
            Some((string_from_chars(&key), string_from_chars(&value)))
        },
        None => None,
    }
}

/// The entries of the env file's lines, in order; a later entry for a key
/// overrides an earlier one (see [`env_get`]).
pub fn parse_env_lines(lines: &[String]) -> (r: Vec<(String, String)>)
    ensures
        entry_views(r@) == spec_env_entries(string_views(lines@)),
{
    let mut out: Vec<(String, String)> = Vec::new();
    let mut i: usize = 0;
    while i < lines.len()
        invariant
            i <= lines@.len(),
            entry_views(out@) == spec_env_entries(string_views(lines@.take(i as int))),
        decreases lines.len() - i,
    {
        let ghost prev = string_views(lines@.take(i as int));
        assert(string_views(lines@.take(i + 1)).drop_last() == prev);
        assert(string_views(lines@.take(i + 1)).last() == lines@[i as int]@);
        match parse_env_line(lines[i].as_str()) {
            Some(e) => {
                out.push(e);
            },
            None => {},
        }
        i = i + 1;
        assert(entry_views(out@) =~= spec_env_entries(string_views(lines@.take(i as int))));
    }
    assert(lines@.take(lines@.len() as int) == lines@);
    out
}

/// The value the env file gives `key`: that of its last entry for the key.
pub open spec fn spec_env_get(entries: Seq<(Seq<char>, Seq<char>)>, key: Seq<char>) -> Option<Seq<char>>
    decreases entries.len(),
{
    if entries.len() == 0 {
        None
    } else if entries.last().0 == key {
        Some(entries.last().1)
    } else {
        spec_env_get(entries.drop_last(), key)
    }
}

/// The value the env file gives `key`: that of its last entry for the key.
pub fn env_get<'a>(entries: &'a [(String, String)], key: &str) -> (r: Option<&'a String>)
    ensures
        match spec_env_get(entry_views(entries@), key@) {
            Some(v) => r matches Some(s) && s@ == v,
            None => r is None,
        },
{
    let mut i = entries.len();
    assert(entries@.take(i as int) == entries@);
    while i > 0
        invariant
            i <= entries@.len(),
            spec_env_get(entry_views(entries@), key@) == spec_env_get(
                entry_views(entries@.take(i as int)),
                key@,
            ),
        decreases i,
    {
        let ghost t = entry_views(entries@.take(i as int));
        assert(t.last() == (entries@[i - 1].0@, entries@[i - 1].1@));
        assert(t.drop_last() == entry_views(entries@.take(i - 1)));
        if str_eq(entries[i - 1].0.as_str(), key) {
            return Some(&entries[i - 1].1);
        }
        i = i - 1;
    }
    assert(entry_views(entries@.take(0)) == Seq::<(Seq<char>, Seq<char>)>::empty());
    None
}

/// What the launcher runs with.
#[derive(Debug, Clone)]
pub struct LauncherConfig {
    pub room: String,
    pub relay_url: String,
    pub stream_url: String,
}

/// The configuration the env file's entries give: the room and relay they
/// name (the default room and relay where they name none) and the room's
/// stream URL.
pub open spec fn spec_launcher_config(entries: Seq<(Seq<char>, Seq<char>)>) -> (Seq<char>, Seq<char>, Seq<char>) {
    let room = match spec_env_get(entries, "NESTRI_ROOM"@) {
        Some(r) => r,
        None => DEFAULT_ROOM@,
    };
    let relay = match spec_env_get(entries, "NESTRI_RELAY_URL"@) {
        Some(r) => r,
        None => DEFAULT_RELAY@,
    };
    (room, relay, spec_stream_url(room))
}

/// The configuration the env file's entries give.
pub fn launcher_config(entries: &[(String, String)]) -> (r: LauncherConfig)
    ensures
        (r.room@, r.relay_url@, r.stream_url@) == spec_launcher_config(entry_views(entries@)),
{
    let room = match env_get(entries, "NESTRI_ROOM") {
        Some(r) => r.clone(),
        None => String::from_str(DEFAULT_ROOM),
    };
    let relay_url = match env_get(entries, "NESTRI_RELAY_URL") {
        Some(r) => r.clone(),
        None => String::from_str(DEFAULT_RELAY),
    };
    let url = stream_url(room.as_str());
    LauncherConfig { room, relay_url, stream_url: url }
}

/// The lines of the env file the launcher writes for `room` and `relay`: the
/// two of them, then the server's defaults.
pub open spec fn spec_env_file_lines(room: Seq<char>, relay: Seq<char>) -> Seq<Seq<char>> {
    seq![
        "NESTRI_ROOM="@ + room,
        "NESTRI_RELAY_URL="@ + relay,
        "NESTRI_GPU_VENDOR=nvidia"@,
        "NESTRI_VIDEO_CODEC=h264"@,
        "NESTRI_ENCODER_TYPE=hardware"@,
        "NESTRI_LATENCY=lowest-latency"@,
        "NESTRI_RATE_CONTROL=cbr:8000"@,
        "NESTRI_FRAMERATE=60"@,
        "NESTRI_MONITOR=0"@,
        "NESTRI_AUDIO_BITRATE=128"@,
    ]
}

/// The lines of the env file the launcher writes for `room` and `relay`; the
/// file holds each followed by a newline.
pub fn env_file_lines(room: &str, relay: &str) -> (r: Vec<String>)
    ensures
        string_views(r@) == spec_env_file_lines(room@, relay@),
{
    let r = vec![
        String::from_str("NESTRI_ROOM=").concat(room),
        String::from_str("NESTRI_RELAY_URL=").concat(relay),
        String::from_str("NESTRI_GPU_VENDOR=nvidia"),
        String::from_str("NESTRI_VIDEO_CODEC=h264"),
        String::from_str("NESTRI_ENCODER_TYPE=hardware"),
        String::from_str("NESTRI_LATENCY=lowest-latency"),
        String::from_str("NESTRI_RATE_CONTROL=cbr:8000"),
        String::from_str("NESTRI_FRAMERATE=60"),
        String::from_str("NESTRI_MONITOR=0"),
        String::from_str("NESTRI_AUDIO_BITRATE=128"),
    ];
    assert(string_views(r@) =~= spec_env_file_lines(room@, relay@));
    r
}

proof fn lemma_trim_shrinks(s: Seq<char>)
    ensures
        spec_trim_start(s).len() <= s.len(),
        spec_trim_end(s).len() <= s.len(),
        spec_trim_start(s).len() == s.len() ==> spec_trim_start(s) == s,
    decreases s.len(),
{
    if s.len() > 0 {
        lemma_trim_shrinks(s.drop_first());
        lemma_trim_shrinks(s.drop_last());
    }
}

/// A trimmed non-empty text starts and ends with other than white space.
proof fn lemma_trimmed_ends(s: Seq<char>)
    requires
        spec_trim(s) == s,
        s.len() > 0,
    ensures
        !spec_is_whitespace(s[0]),
        !spec_is_whitespace(s.last()),
{
    lemma_trim_shrinks(s);
    lemma_trim_shrinks(spec_trim_start(s));
    if spec_is_whitespace(s[0]) {
        lemma_trim_shrinks(s.drop_first());
        assert(spec_trim_start(s) == spec_trim_start(s.drop_first()));
        assert(false);
    }
    assert(spec_trim_start(s) == s);
    if spec_is_whitespace(s.last()) {
        lemma_trim_shrinks(s.drop_last());
        assert(false);
    }
}

/// The entry of a line `key=value` whose key has no `=` and neither key nor
/// value has white space at its ends.
proof fn lemma_env_key_line(k: Seq<char>, v: Seq<char>)
    requires
        k.len() > 0,
        spec_trim(k) == k,
        spec_trim(v) == v,
        k[0] != '#',
        index_of_from(k, '=', 0) is None,
    ensures
        spec_env_line(k + "="@ + v) == Some((k, v)),
{
    reveal_strlit("=");
    let line = k + "="@ + v;
    lemma_trimmed_ends(k);
    assert(line[0] == k[0]);
    assert(spec_trim_start(line) == line);
    if v.len() > 0 {
        lemma_trimmed_ends(v);
        assert(line.last() == v.last());
    } else {
        assert(line.last() == '=');
    }
    assert(spec_trim_end(line) == line);
    assert(line.take(k.len() as int) =~= k);
    lemma_index_shift(k, line, 0);
    assert(line.skip((k.len() + 1) as int) == v);
}

/// Searching a text whose front is `k` for `=` finds the first `=` after `k`
/// when `k` has none.
proof fn lemma_index_shift(k: Seq<char>, line: Seq<char>, i: nat)
    requires
        i <= k.len(),
        index_of_from(k, '=', i) is None,
        line.len() > k.len(),
        line.take(k.len() as int) == k,
        line[k.len() as int] == '=',
    ensures
        index_of_from(line, '=', i) == Some(k.len()),
    decreases k.len() - i,
{
    if i < k.len() {
        assert(line[i as int] == k[i as int]);
        lemma_index_shift(k, line, i + 1);
    }
}

/// A key written as a literal: no `=`, no white space at its ends, and no
/// leading `#`.
proof fn lemma_literal_key(k: Seq<char>)
    requires
        k.len() > 0,
        k.len() <= 24,
        forall|i: int| 0 <= i < k.len() ==> 'A' <= #[trigger] k[i] <= 'Z' || k[i] == '_',
    ensures
        spec_trim(k) == k,
        k[0] != '#',
        index_of_from(k, '=', 0) is None,
{
    assert(!spec_is_whitespace(k[0]));
    assert(!spec_is_whitespace(k.last()));
    lemma_no_eq(k, 0);
}

/// A value written as a literal: no white space at its ends.
proof fn lemma_literal_value(v: Seq<char>)
    requires
        v.len() > 0,
        forall|i: int| 0 <= i < v.len() ==> ('a' <= #[trigger] v[i] <= 'z') || ('0' <= v[i] <= '9')
            || v[i] == '-' || v[i] == ':',
    ensures
        spec_trim(v) == v,
{
    assert(!spec_is_whitespace(v[0]));
    assert(!spec_is_whitespace(v.last()));
}

proof fn lemma_no_eq(k: Seq<char>, i: nat)
    requires
        forall|j: int| 0 <= j < k.len() ==> 'A' <= #[trigger] k[j] <= 'Z' || k[j] == '_',
    ensures
        index_of_from(k, '=', i) is None,
    decreases k.len() - i,
{
    if i < k.len() {
        assert('A' <= k[i as int] <= 'Z' || k[i as int] == '_');
        lemma_no_eq(k, i + 1);
    }
}

/// The value a key has among entries whose last one for it is at `at`.
proof fn lemma_env_get_at(entries: Seq<(Seq<char>, Seq<char>)>, key: Seq<char>, at: int)
    requires
        0 <= at < entries.len(),
        entries[at].0 == key,
        forall|j: int| at < j < entries.len() ==> #[trigger] entries[j].0 != key,
    ensures
        spec_env_get(entries, key) == Some(entries[at].1),
    decreases entries.len(),
{
    if at < entries.len() - 1 {
        assert(entries.last().0 != key);
        lemma_env_get_at(entries.drop_last(), key, at);
    }
}

/// The entries of the env file written for `room` and `relay`: those two,
/// then the server's defaults, each key once.
pub open spec fn spec_env_file_entries(room: Seq<char>, relay: Seq<char>) -> Seq<(Seq<char>, Seq<char>)> {
    seq![
        ("NESTRI_ROOM"@, room),
        ("NESTRI_RELAY_URL"@, relay),
        ("NESTRI_GPU_VENDOR"@, "nvidia"@),
        ("NESTRI_VIDEO_CODEC"@, "h264"@),
        ("NESTRI_ENCODER_TYPE"@, "hardware"@),
        ("NESTRI_LATENCY"@, "lowest-latency"@),
        ("NESTRI_RATE_CONTROL"@, "cbr:8000"@),
        ("NESTRI_FRAMERATE"@, "60"@),
        ("NESTRI_MONITOR"@, "0"@),
        ("NESTRI_AUDIO_BITRATE"@, "128"@),
    ]
}

/// Loading the env file the launcher wrote for `room` and `relay` gives back
/// all ten of its entries (room, relay and the server's defaults, each key
/// once), and so that room and relay and the room's stream URL, provided that
/// neither has white space at its ends (reading trims every value).
pub proof fn lemma_env_file_roundtrip(room: Seq<char>, relay: Seq<char>)
    requires
        spec_trim(room) == room,
        spec_trim(relay) == relay,
    ensures
        spec_env_entries(spec_env_file_lines(room, relay)) == spec_env_file_entries(room, relay),
        spec_launcher_config(spec_env_entries(spec_env_file_lines(room, relay))) == (
            room,
            relay,
            spec_stream_url(room),
        ),
{
    let lines = spec_env_file_lines(room, relay);
    assert(spec_env_line(lines[0]) == Some(("NESTRI_ROOM"@, room))) by {
        reveal_strlit("NESTRI_ROOM=");
        reveal_strlit("NESTRI_ROOM");
        reveal_strlit("=");
        assert(lines[0] =~= "NESTRI_ROOM"@ + "="@ + room);
        lemma_literal_key("NESTRI_ROOM"@);
        lemma_env_key_line("NESTRI_ROOM"@, room);
    }
    assert(spec_env_line(lines[1]) == Some(("NESTRI_RELAY_URL"@, relay))) by {
        reveal_strlit("NESTRI_RELAY_URL=");
        reveal_strlit("NESTRI_RELAY_URL");
        reveal_strlit("=");
        assert(lines[1] =~= "NESTRI_RELAY_URL"@ + "="@ + relay);
        lemma_literal_key("NESTRI_RELAY_URL"@);
        lemma_env_key_line("NESTRI_RELAY_URL"@, relay);
    }
    assert(spec_env_line(lines[2]) == Some(("NESTRI_GPU_VENDOR"@, "nvidia"@))) by {
        reveal_strlit("NESTRI_GPU_VENDOR=nvidia");
        reveal_strlit("NESTRI_GPU_VENDOR");
        reveal_strlit("nvidia");
        reveal_strlit("=");
        assert(lines[2] =~= "NESTRI_GPU_VENDOR"@ + "="@ + "nvidia"@);
        lemma_literal_key("NESTRI_GPU_VENDOR"@);
        lemma_literal_value("nvidia"@);
        lemma_env_key_line("NESTRI_GPU_VENDOR"@, "nvidia"@);
    }
    assert(spec_env_line(lines[3]) == Some(("NESTRI_VIDEO_CODEC"@, "h264"@))) by {
        reveal_strlit("NESTRI_VIDEO_CODEC=h264");
        reveal_strlit("NESTRI_VIDEO_CODEC");
        reveal_strlit("h264");
        reveal_strlit("=");
        assert(lines[3] =~= "NESTRI_VIDEO_CODEC"@ + "="@ + "h264"@);
        lemma_literal_key("NESTRI_VIDEO_CODEC"@);
        lemma_literal_value("h264"@);
        lemma_env_key_line("NESTRI_VIDEO_CODEC"@, "h264"@);
    }
    assert(spec_env_line(lines[4]) == Some(("NESTRI_ENCODER_TYPE"@, "hardware"@))) by {
        reveal_strlit("NESTRI_ENCODER_TYPE=hardware");
        reveal_strlit("NESTRI_ENCODER_TYPE");
        reveal_strlit("hardware");
        reveal_strlit("=");
        assert(lines[4] =~= "NESTRI_ENCODER_TYPE"@ + "="@ + "hardware"@);
        lemma_literal_key("NESTRI_ENCODER_TYPE"@);
        lemma_literal_value("hardware"@);
        lemma_env_key_line("NESTRI_ENCODER_TYPE"@, "hardware"@);
    }
    assert(spec_env_line(lines[5]) == Some(("NESTRI_LATENCY"@, "lowest-latency"@))) by {
        reveal_strlit("NESTRI_LATENCY=lowest-latency");
        reveal_strlit("NESTRI_LATENCY");
        reveal_strlit("lowest-latency");
        reveal_strlit("=");
        assert(lines[5] =~= "NESTRI_LATENCY"@ + "="@ + "lowest-latency"@);
        lemma_literal_key("NESTRI_LATENCY"@);
        lemma_literal_value("lowest-latency"@);
        lemma_env_key_line("NESTRI_LATENCY"@, "lowest-latency"@);
    }
    assert(spec_env_line(lines[6]) == Some(("NESTRI_RATE_CONTROL"@, "cbr:8000"@))) by {
        reveal_strlit("NESTRI_RATE_CONTROL=cbr:8000");
        reveal_strlit("NESTRI_RATE_CONTROL");
        reveal_strlit("cbr:8000");
        reveal_strlit("=");
        assert(lines[6] =~= "NESTRI_RATE_CONTROL"@ + "="@ + "cbr:8000"@);
        lemma_literal_key("NESTRI_RATE_CONTROL"@);
        lemma_literal_value("cbr:8000"@);
        lemma_env_key_line("NESTRI_RATE_CONTROL"@, "cbr:8000"@);
    }
    assert(spec_env_line(lines[7]) == Some(("NESTRI_FRAMERATE"@, "60"@))) by {
        reveal_strlit("NESTRI_FRAMERATE=60");
        reveal_strlit("NESTRI_FRAMERATE");
        reveal_strlit("60");
        reveal_strlit("=");
        assert(lines[7] =~= "NESTRI_FRAMERATE"@ + "="@ + "60"@);
        lemma_literal_key("NESTRI_FRAMERATE"@);
        lemma_literal_value("60"@);
        lemma_env_key_line("NESTRI_FRAMERATE"@, "60"@);
    }
    assert(spec_env_line(lines[8]) == Some(("NESTRI_MONITOR"@, "0"@))) by {
        reveal_strlit("NESTRI_MONITOR=0");
        reveal_strlit("NESTRI_MONITOR");
        reveal_strlit("0");
        reveal_strlit("=");
        assert(lines[8] =~= "NESTRI_MONITOR"@ + "="@ + "0"@);
        lemma_literal_key("NESTRI_MONITOR"@);
        lemma_literal_value("0"@);
        lemma_env_key_line("NESTRI_MONITOR"@, "0"@);
    }
    assert(spec_env_line(lines[9]) == Some(("NESTRI_AUDIO_BITRATE"@, "128"@))) by {
        reveal_strlit("NESTRI_AUDIO_BITRATE=128");
        reveal_strlit("NESTRI_AUDIO_BITRATE");
        reveal_strlit("128");
        reveal_strlit("=");
        assert(lines[9] =~= "NESTRI_AUDIO_BITRATE"@ + "="@ + "128"@);
        lemma_literal_key("NESTRI_AUDIO_BITRATE"@);
        lemma_literal_value("128"@);
        lemma_env_key_line("NESTRI_AUDIO_BITRATE"@, "128"@);
    }
    assert("NESTRI_GPU_VENDOR"@ != "NESTRI_ROOM"@ && "NESTRI_GPU_VENDOR"@ != "NESTRI_RELAY_URL"@) by {
        reveal_strlit("NESTRI_GPU_VENDOR");
        reveal_strlit("NESTRI_ROOM");
        reveal_strlit("NESTRI_RELAY_URL");
        assert("NESTRI_GPU_VENDOR"@.len() != 11 || "NESTRI_GPU_VENDOR"@[7] != 'R');
        assert("NESTRI_GPU_VENDOR"@.len() != 16 || "NESTRI_GPU_VENDOR"@[7] != 'R');
    }
    assert("NESTRI_VIDEO_CODEC"@ != "NESTRI_ROOM"@ && "NESTRI_VIDEO_CODEC"@ != "NESTRI_RELAY_URL"@) by {
        reveal_strlit("NESTRI_VIDEO_CODEC");
        reveal_strlit("NESTRI_ROOM");
        reveal_strlit("NESTRI_RELAY_URL");
        assert("NESTRI_VIDEO_CODEC"@.len() != 11 || "NESTRI_VIDEO_CODEC"@[7] != 'R');
        assert("NESTRI_VIDEO_CODEC"@.len() != 16 || "NESTRI_VIDEO_CODEC"@[7] != 'R');
    }
    assert("NESTRI_ENCODER_TYPE"@ != "NESTRI_ROOM"@ && "NESTRI_ENCODER_TYPE"@ != "NESTRI_RELAY_URL"@) by {
        reveal_strlit("NESTRI_ENCODER_TYPE");
        reveal_strlit("NESTRI_ROOM");
        reveal_strlit("NESTRI_RELAY_URL");
        assert("NESTRI_ENCODER_TYPE"@.len() != 11 || "NESTRI_ENCODER_TYPE"@[7] != 'R');
        assert("NESTRI_ENCODER_TYPE"@.len() != 16 || "NESTRI_ENCODER_TYPE"@[7] != 'R');
    }
    assert("NESTRI_LATENCY"@ != "NESTRI_ROOM"@ && "NESTRI_LATENCY"@ != "NESTRI_RELAY_URL"@) by {
        reveal_strlit("NESTRI_LATENCY");
        reveal_strlit("NESTRI_ROOM");
        reveal_strlit("NESTRI_RELAY_URL");
        assert("NESTRI_LATENCY"@.len() != 11 || "NESTRI_LATENCY"@[7] != 'R');
        assert("NESTRI_LATENCY"@.len() != 16 || "NESTRI_LATENCY"@[7] != 'R');
    }
    assert("NESTRI_RATE_CONTROL"@ != "NESTRI_ROOM"@ && "NESTRI_RATE_CONTROL"@ != "NESTRI_RELAY_URL"@) by {
        reveal_strlit("NESTRI_RATE_CONTROL");
        reveal_strlit("NESTRI_ROOM");
        reveal_strlit("NESTRI_RELAY_URL");
        assert("NESTRI_RATE_CONTROL"@.len() != 11 || "NESTRI_RATE_CONTROL"@[7] != 'R');
        assert("NESTRI_RATE_CONTROL"@.len() != 16 || "NESTRI_RATE_CONTROL"@[7] != 'R');
    }
    assert("NESTRI_FRAMERATE"@ != "NESTRI_ROOM"@ && "NESTRI_FRAMERATE"@ != "NESTRI_RELAY_URL"@) by {
        reveal_strlit("NESTRI_FRAMERATE");
        reveal_strlit("NESTRI_ROOM");
        reveal_strlit("NESTRI_RELAY_URL");
        assert("NESTRI_FRAMERATE"@.len() != 11 || "NESTRI_FRAMERATE"@[7] != 'R');
        assert("NESTRI_FRAMERATE"@.len() != 16 || "NESTRI_FRAMERATE"@[7] != 'R');
    }
    assert("NESTRI_MONITOR"@ != "NESTRI_ROOM"@ && "NESTRI_MONITOR"@ != "NESTRI_RELAY_URL"@) by {
        reveal_strlit("NESTRI_MONITOR");
        reveal_strlit("NESTRI_ROOM");
        reveal_strlit("NESTRI_RELAY_URL");
        assert("NESTRI_MONITOR"@.len() != 11 || "NESTRI_MONITOR"@[7] != 'R');
        assert("NESTRI_MONITOR"@.len() != 16 || "NESTRI_MONITOR"@[7] != 'R');
    }
    assert("NESTRI_AUDIO_BITRATE"@ != "NESTRI_ROOM"@ && "NESTRI_AUDIO_BITRATE"@ != "NESTRI_RELAY_URL"@) by {
        reveal_strlit("NESTRI_AUDIO_BITRATE");
        reveal_strlit("NESTRI_ROOM");
        reveal_strlit("NESTRI_RELAY_URL");
        assert("NESTRI_AUDIO_BITRATE"@.len() != 11 || "NESTRI_AUDIO_BITRATE"@[7] != 'R');
        assert("NESTRI_AUDIO_BITRATE"@.len() != 16 || "NESTRI_AUDIO_BITRATE"@[7] != 'R');
    }
    assert("NESTRI_ROOM"@ != "NESTRI_RELAY_URL"@) by {
        reveal_strlit("NESTRI_ROOM");
        reveal_strlit("NESTRI_RELAY_URL");
    }
    let entries = spec_env_entries(lines);
    lemma_entries_all(lines);
    assert(entries =~= spec_env_file_entries(room, relay));
    lemma_env_get_at(entries, "NESTRI_ROOM"@, 0);
    lemma_env_get_at(entries, "NESTRI_RELAY_URL"@, 1);
}

/// Lines that each hold an entry give one entry per line, in order.
proof fn lemma_entries_all(lines: Seq<Seq<char>>)
    requires
        forall|i: int| 0 <= i < lines.len() ==> #[trigger] spec_env_line(lines[i]) is Some,
    ensures
        spec_env_entries(lines).len() == lines.len(),
        forall|i: int| 0 <= i < lines.len() ==> #[trigger] spec_env_entries(lines)[i] == spec_env_line(lines[i])->0,
    decreases lines.len(),
{
    if lines.len() > 0 {
        let init = lines.drop_last();
        assert forall|i: int| 0 <= i < init.len() implies #[trigger] spec_env_line(init[i]) is Some by {
            assert(init[i] == lines[i]);
        }
        lemma_entries_all(init);
        assert(spec_env_line(lines[lines.len() - 1]) is Some);
        assert forall|i: int| 0 <= i < lines.len() implies #[trigger] spec_env_entries(lines)[i] == spec_env_line(lines[i])->0 by {
            if i < lines.len() - 1 {
                assert(init[i] == lines[i]);
            }
        }
    }
}

/// The room a first-run dialog answer names: the trimmed text, or the default
/// room when it is blank.
pub open spec fn spec_room_from_input(text: Seq<char>) -> Seq<char> {
    if spec_trim(text).len() == 0 {
        DEFAULT_ROOM@
    } else {
        spec_trim(text)
    }
}

/// The room a first-run dialog answer names.
pub fn room_from_input(text: &str) -> (r: String)
    ensures
        r@ == spec_room_from_input(text@),
{
    let t = trim(text);
    if t.as_str().unicode_len() == 0 {
        String::from_str(DEFAULT_ROOM)
    } else {
        t
    }
}

/// The room the first-run dialog settles on: the room its answer names, or the
/// default room when it was cancelled.
pub open spec fn spec_first_run_room(answer: Option<Seq<char>>) -> Seq<char> {
    match answer {
        Some(text) => spec_room_from_input(text),
        None => DEFAULT_ROOM@,
    }
}

/// The room the first-run dialog settles on (`None` when it was cancelled).
pub fn first_run_room(answer: Option<&str>) -> (r: String)
    ensures
        r@ == spec_first_run_room(
            match answer {
                Some(t) => Some(t@),
                None => None,
            },
        ),
{
    match answer {
        Some(text) => room_from_input(text),
        None => String::from_str(DEFAULT_ROOM),
    }
}

/// The room the first-run dialog settles on (typed, or the default when the
/// dialog was cancelled), once written to the env file with the default relay,
/// is the room the launcher reads back and runs with, together with the
/// default relay and the room's stream URL.
pub proof fn lemma_first_run_config(answer: Option<Seq<char>>)
    ensures
        spec_launcher_config(
            spec_env_entries(spec_env_file_lines(spec_first_run_room(answer), DEFAULT_RELAY@)),
        ) == (spec_first_run_room(answer), DEFAULT_RELAY@, spec_stream_url(spec_first_run_room(answer))),
{
    let room = spec_first_run_room(answer);
    let text = match answer {
        Some(t) => t,
        None => Seq::<char>::empty(),
    };
    lemma_trim_idempotent(text);
    if answer is None || spec_trim(text).len() == 0 {
        reveal_strlit("nestri-windows");
        assert(spec_trim_start(room) == room);
        assert(spec_trim_end(room) == room);
    }
    assert(spec_trim(room) == room);
    reveal_strlit("/dnsaddr/relay.dathorse.com/p2p/12D3KooWPK4v5wKYNYx9oXWjqLM8Xix6nm13o91j1Feqq98fLBsw");
    assert(spec_trim_start(DEFAULT_RELAY@) == DEFAULT_RELAY@);
    assert(spec_trim_end(DEFAULT_RELAY@) == DEFAULT_RELAY@);
    lemma_env_file_roundtrip(room, DEFAULT_RELAY@);
}

/// A choice of the tray menu.
#[derive(Debug, Clone, Copy, PartialEq, Eq, Structural)]
pub enum TrayCommand {
    OpenBrowser,
    CopyUrl,
    Stop,
    Start,
    Exit,
}

pub const IDM_OPEN_BROWSER: u32 = 100;

pub const IDM_COPY_URL: u32 = 101;

pub const IDM_STOP: u32 = 102;

pub const IDM_START: u32 = 103;

pub const IDM_EXIT: u32 = 104;

/// The menu item id of a choice.
pub open spec fn spec_command_id(c: TrayCommand) -> u32 {
    match c {
        TrayCommand::OpenBrowser => IDM_OPEN_BROWSER,
        TrayCommand::CopyUrl => IDM_COPY_URL,
        TrayCommand::Stop => IDM_STOP,
        TrayCommand::Start => IDM_START,
        TrayCommand::Exit => IDM_EXIT,
    }
}

/// The tray menu's items carry the ids 100 (open in browser), 101 (copy the
/// stream URL), 102 (stop), 103 (start) and 104 (exit); no two items share
/// an id, so each id names at most one item.
pub proof fn lemma_tray_ids(a: TrayCommand, b: TrayCommand)
    ensures
        spec_command_id(TrayCommand::OpenBrowser) == 100,
        spec_command_id(TrayCommand::CopyUrl) == 101,
        spec_command_id(TrayCommand::Stop) == 102,
        spec_command_id(TrayCommand::Start) == 103,
        spec_command_id(TrayCommand::Exit) == 104,
        spec_command_id(a) == spec_command_id(b) ==> a == b,
{
}

/// The choice a menu command id stands for, if any.
pub fn tray_command(id: u32) -> (r: Option<TrayCommand>)
    ensures
        match r {
            Some(c) => spec_command_id(c) == id,
            None => forall|c: TrayCommand| spec_command_id(c) != id,
        },
{
    if id == IDM_OPEN_BROWSER {
        Some(TrayCommand::OpenBrowser)
    } else if id == IDM_COPY_URL {
        Some(TrayCommand::CopyUrl)
    } else if id == IDM_STOP {
        Some(TrayCommand::Stop)
    } else if id == IDM_START {
        Some(TrayCommand::Start)
    } else if id == IDM_EXIT {
        Some(TrayCommand::Exit)
    } else {
        None
    }
}

/// The streaming action the tray menu offers: stop while the server runs,
/// start otherwise.
pub fn toggle_command(running: bool) -> (r: TrayCommand)
    ensures
        r == (if running {
            TrayCommand::Stop
        } else {
            TrayCommand::Start
        }),
{
    if running {
        TrayCommand::Stop
    } else {
        TrayCommand::Start
    }
}

} // verus!
