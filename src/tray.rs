//! The system tray: what its menu and tooltip show, and what its menu
//! items do.
use vstd::prelude::*;

verus! {

/// Most bytes of the now-playing line.
pub const NOW_PLAYING_MAX: usize = 40;

/// What plays now, as the tray shows it.
pub struct TrayPlaybackInfo {
    pub is_playing: bool,
    pub title: Option<String>,
    pub artist: Option<String>,
}

/// The tray's state: what plays, and whether closing the window hides it
/// in the tray.
pub struct TrayState {
    pub playback_info: TrayPlaybackInfo,
    pub minimize_to_tray: bool,
}

impl TrayState {
    /// Nothing playing; closing the window hides it in the tray.
    pub fn new() -> (r: TrayState)
        ensures
            !r.playback_info.is_playing,
            r.playback_info.title is None,
            r.playback_info.artist is None,
            r.minimize_to_tray,
    {
        TrayState {
            playback_info: TrayPlaybackInfo { is_playing: false, title: None, artist: None },
            minimize_to_tray: true,
        }
    }
}

impl Default for TrayState {
    fn default() -> (r: TrayState)
        ensures
            !r.playback_info.is_playing,
            r.playback_info.title is None,
            r.playback_info.artist is None,
            r.minimize_to_tray,
    {
        TrayState::new()
    }
}

/// Playback information as the user interface sends it.
pub struct PlaybackInfoPayload {
    pub is_playing: bool,
    pub title: Option<String>,
    pub artist: Option<String>,
}

impl PlaybackInfoPayload {
    pub fn into_tray_info(self) -> (r: TrayPlaybackInfo)
        ensures
            r.is_playing == self.is_playing,
            r.title == self.title,
            r.artist == self.artist,
    {
        TrayPlaybackInfo { is_playing: self.is_playing, title: self.title, artist: self.artist }
    }
}

/// Bytes of a character in UTF-8.
pub open spec fn char_bytes(c: char) -> nat {
    if (c as u32) < 0x80 {
        1
    } else if (c as u32) < 0x800 {
        2
    } else if (c as u32) < 0x10000 {
        3
    } else {
        4
    }
}

/// Bytes of a text in UTF-8.
pub open spec fn utf8_len(s: Seq<char>) -> nat
    decreases s.len(),
{
    if s.len() == 0 {
        0
    } else {
        utf8_len(s.drop_last()) + char_bytes(s.last())
    }
}

/// How many characters from `i` on, after `used` bytes, still fit in
/// `limit` bytes: the cut falls on the last character boundary at or below
/// the limit.
pub open spec fn fit_from(s: Seq<char>, i: int, used: nat, limit: nat) -> int
    decreases s.len() - i,
{
    if 0 <= i < s.len() && used + char_bytes(s[i]) <= limit {
        fit_from(s, i + 1, used + char_bytes(s[i]), limit)
    } else {
        i
    }
}

/// `<artist> - <title>`, or the title alone; where longer than 40 bytes,
/// cut to at most 37 bytes at a character boundary and `...` added.
pub open spec fn now_playing_spec(title: Seq<char>, artist: Option<Seq<char>>) -> Seq<char> {
    let full = match artist {
        Some(a) => a + " - "@ + title,
        None => title,
    };
    if utf8_len(full) > 40 {
        full.subrange(0, fit_from(full, 0, 0, 37)) + "..."@
    } else {
        full
    }
}

fn char_bytes_exec(c: char) -> (r: usize)
    ensures
        r == char_bytes(c),
{
    let v = c as u32;
    if v < 0x80 {
        1
    } else if v < 0x800 {
        2
    } else if v < 0x10000 {
        3
    } else {
        4
    }
}

/// Whether a text takes more than `limit` bytes in UTF-8.
fn longer_than(s: &str, limit: usize) -> (r: bool)
    requires
        limit < 1000,
    ensures
        r == (utf8_len(s@) > limit),
{
    let n = s.unicode_len();
    let mut i: usize = 0;
    let mut used: usize = 0;
    while i < n
        invariant
            i <= n == s@.len(),
            used == utf8_len(s@.subrange(0, i as int)),
            used <= limit,
            limit < 1000,
        decreases n - i,
    {
        let b = char_bytes_exec(s.get_char(i));
        assert(s@.subrange(0, i + 1).drop_last() =~= s@.subrange(0, i as int));
        if used + b > limit {
            proof { lemma_utf8_len_grows(s@, i + 1); }
            return true;
        }
        used = used + b;
        i = i + 1;
    }
    assert(s@.subrange(0, i as int) =~= s@);
    false
}

/// A longer text takes no fewer bytes.
pub proof fn lemma_utf8_len_grows(s: Seq<char>, k: int)
    requires
        0 <= k <= s.len(),
    ensures
        utf8_len(s.subrange(0, k)) <= utf8_len(s),
    decreases s.len() - k,
{
    if k < s.len() {
        assert(s.subrange(0, k + 1).drop_last() =~= s.subrange(0, k));
        lemma_utf8_len_grows(s, k + 1);
    } else {
        assert(s.subrange(0, k) =~= s);
    }
}

/// How many leading characters of `s` fit in `limit` bytes.
fn fitting_chars(s: &str, limit: usize) -> (r: usize)
    requires
        limit < 1000,
    ensures
        r == fit_from(s@, 0, 0, limit as nat),
        r <= s@.len(),
{
    let n = s.unicode_len();
    let mut i: usize = 0;
    let mut used: usize = 0;
    while i < n && used + char_bytes_exec(s.get_char(i)) <= limit
        invariant
            i <= n == s@.len(),
            used <= limit < 1000,
            fit_from(s@, 0, 0, limit as nat) == fit_from(s@, i as int, used as nat, limit as nat),
        decreases n - i,
    {
        used = used + char_bytes_exec(s.get_char(i));
        i = i + 1;
    }
    i
}

/// The now-playing line of the tray menu; none without a title.
pub fn now_playing_text(info: &TrayPlaybackInfo) -> (r: Option<String>)
    ensures
        match info.title {
            Some(t) => r matches Some(s) && s@ == now_playing_spec(
                t@,
                match info.artist {
                    Some(a) => Some(a@),
                    None => None,
                },
            ),
            None => r is None,
        },
{
    match &info.title {
        None => None,
        Some(t) => {
            let full = match &info.artist {
                Some(a) => {
                    let mut s = a.clone();
                    s.append(" - ");
                    s.append(t.as_str());
                    s
                },
                None => t.clone(),
            };
            if longer_than(full.as_str(), NOW_PLAYING_MAX) {
                let k = fitting_chars(full.as_str(), 37);
                let mut s = full.as_str().substring_char(0, k).to_owned();
                s.append("...");
                Some(s)
            } else {
                Some(full)
            }
        },
    }
}

/// The tray tooltip: the title and whether it plays, or the app's name.
pub open spec fn tooltip_spec(is_playing: bool, title: Option<Seq<char>>) -> Seq<char> {
    match title {
        Some(t) => if is_playing {
            "HubRemote - Playing: "@ + t
        } else {
            "HubRemote - Paused: "@ + t
        },
        None => "HubRemote"@,
    }
}

pub fn tooltip_text(info: &TrayPlaybackInfo) -> (r: String)
    ensures
        r@ == tooltip_spec(
            info.is_playing,
            match info.title {
                Some(t) => Some(t@),
                None => None,
            },
        ),
{
    match &info.title {
        Some(t) => {
            let mut s = if info.is_playing {
                String::from_str("HubRemote - Playing: ")
            } else {
                String::from_str("HubRemote - Paused: ")
            };
            s.append(t.as_str());
            s
        },
        None => String::from_str("HubRemote"),
    }
}

/// The label of the play/pause item: `Pause` while playing, else `Play`.
pub fn play_pause_label(info: Option<&TrayPlaybackInfo>) -> (r: &'static str)
    ensures
        r@ == if info matches Some(i) && i.is_playing {
            "Pause"@
        } else {
            "Play"@
        },
{
    match info {
        Some(i) => {
            if i.is_playing {
                "Pause"
            } else {
                "Play"
            }
        },
        None => "Play",
    }
}

/// What a tray menu item does.
pub enum TrayAction {
    ToggleWindow,
    /// Send this command to the user interface.
    Command(&'static str),
    Quit,
    Nothing,
}

/// The action of the menu item with id `id`.
pub fn menu_action(id: &str) -> (r: TrayAction)
    ensures
        r == if id@ == "show_hide"@ {
            TrayAction::ToggleWindow
        } else if id@ == "play_pause"@ {
            TrayAction::Command("playPause")
        } else if id@ == "next"@ {
            TrayAction::Command("next")
        } else if id@ == "previous"@ {
            TrayAction::Command("previous")
        } else if id@ == "quit"@ {
            TrayAction::Quit
        } else {
            TrayAction::Nothing
        },
{
    let key = id.to_owned();
    if crate::text::same_text(&key, "show_hide") {
        TrayAction::ToggleWindow
    } else if crate::text::same_text(&key, "play_pause") {
        TrayAction::Command("playPause")
    } else if crate::text::same_text(&key, "next") {
        TrayAction::Command("next")
    } else if crate::text::same_text(&key, "previous") {
        TrayAction::Command("previous")
    } else if crate::text::same_text(&key, "quit") {
        TrayAction::Quit
    } else {
        TrayAction::Nothing
    }
}

/// Whether closing the window hides it in the tray: the setting where the
/// tray state exists, else yes.
pub fn should_minimize_to_tray(state: Option<&TrayState>) -> (r: bool)
    ensures
        r == match state {
            Some(s) => s.minimize_to_tray,
            None => true,
        },
{
    match state {
        Some(s) => s.minimize_to_tray,
        None => true,
    }
}

} // verus!
