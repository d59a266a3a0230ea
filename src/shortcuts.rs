//! Global media-key shortcuts: which keys are bound to which actions, and
//! whether a press is forwarded.
use vstd::prelude::*;

verus! {

/// What a shortcut asks the user interface to do.
pub enum ShortcutAction {
    PlayPause,
    NextTrack,
    PreviousTrack,
    Stop,
    VolumeUp,
    VolumeDown,
    Mute,
    Custom(String),
}

/// Sent to the user interface when a shortcut fires.
pub struct ShortcutEvent {
    pub action: ShortcutAction,
    pub shortcut: String,
}

/// The key bound to each action; `None` leaves the action unbound.
pub struct ShortcutConfig {
    pub play_pause: Option<String>,
    pub next_track: Option<String>,
    pub previous_track: Option<String>,
    pub stop: Option<String>,
    pub volume_up: Option<String>,
    pub volume_down: Option<String>,
    pub mute: Option<String>,
}

pub open spec fn text_of(o: Option<String>) -> Option<Seq<char>> {
    match o {
        Some(s) => Some(s@),
        None => None,
    }
}

impl Default for ShortcutConfig {
    /// The media keys for play/pause, next, previous and stop; volume and
    /// mute unbound.
    fn default() -> (r: ShortcutConfig)
        ensures
            text_of(r.play_pause) == Some("MediaPlayPause"@),
            text_of(r.next_track) == Some("MediaNextTrack"@),
            text_of(r.previous_track) == Some("MediaPreviousTrack"@),
            text_of(r.stop) == Some("MediaStop"@),
            r.volume_up is None,
            r.volume_down is None,
            r.mute is None,
    {
        ShortcutConfig {
            play_pause: Some(String::from_str("MediaPlayPause")),
            next_track: Some(String::from_str("MediaNextTrack")),
            previous_track: Some(String::from_str("MediaPreviousTrack")),
            stop: Some(String::from_str("MediaStop")),
            volume_up: None,
            volume_down: None,
            mute: None,
        }
    }
}

pub open spec fn binding(key: Option<String>, a: ShortcutAction) -> Seq<(Seq<char>, ShortcutAction)> {
    match key {
        Some(k) => seq![(k@, a)],
        None => Seq::empty(),
    }
}

/// The bound keys with their actions, in the order play/pause, next,
/// previous, stop, volume up, volume down, mute.
pub open spec fn bindings_spec(c: ShortcutConfig) -> Seq<(Seq<char>, ShortcutAction)> {
    binding(c.play_pause, ShortcutAction::PlayPause) + binding(c.next_track, ShortcutAction::NextTrack)
        + binding(c.previous_track, ShortcutAction::PreviousTrack) + binding(
        c.stop,
        ShortcutAction::Stop,
    ) + binding(c.volume_up, ShortcutAction::VolumeUp) + binding(
        c.volume_down,
        ShortcutAction::VolumeDown,
    ) + binding(c.mute, ShortcutAction::Mute)
}

pub open spec fn pairs_view(v: Seq<(String, ShortcutAction)>) -> Seq<(Seq<char>, ShortcutAction)> {
    v.map_values(|p: (String, ShortcutAction)| (p.0@, p.1))
}

fn push_binding(
    out: &mut Vec<(String, ShortcutAction)>,
    key: &Option<String>,
    action: ShortcutAction,
)
    ensures
        pairs_view(final(out)@) == pairs_view(old(out)@) + binding(*key, action),
{
    match key {
        Some(k) => {
            out.push((k.clone(), action));
        },
        None => {},
    }
    assert(pairs_view(final(out)@) =~= pairs_view(old(out)@) + binding(*key, action));
}

/// The keys to register, each with its action.
pub fn configured_bindings(config: &ShortcutConfig) -> (r: Vec<(String, ShortcutAction)>)
    ensures
        pairs_view(r@) == bindings_spec(*config),
{
    let mut r: Vec<(String, ShortcutAction)> = Vec::new();
    assert(pairs_view(r@) =~= Seq::<(Seq<char>, ShortcutAction)>::empty());
    push_binding(&mut r, &config.play_pause, ShortcutAction::PlayPause);
    push_binding(&mut r, &config.next_track, ShortcutAction::NextTrack);
    push_binding(&mut r, &config.previous_track, ShortcutAction::PreviousTrack);
    push_binding(&mut r, &config.stop, ShortcutAction::Stop);
    push_binding(&mut r, &config.volume_up, ShortcutAction::VolumeUp);
    push_binding(&mut r, &config.volume_down, ShortcutAction::VolumeDown);
    push_binding(&mut r, &config.mute, ShortcutAction::Mute);
    assert(pairs_view(r@) =~= bindings_spec(*config));
    r
}

/// Whether shortcut presses are forwarded. Shortcuts stay registered while
/// the switch is off.
pub struct ShortcutSwitch {
    pub enabled: bool,
}

impl ShortcutSwitch {
    pub fn new() -> (r: ShortcutSwitch)
        ensures
            !r.enabled,
    {
        ShortcutSwitch { enabled: false }
    }
}

pub fn are_shortcuts_enabled(switch: &ShortcutSwitch) -> (r: bool)
    ensures
        r == switch.enabled,
{
    switch.enabled
}

pub fn set_shortcuts_enabled(switch: &mut ShortcutSwitch, enabled: bool)
    ensures
        final(switch).enabled == enabled,
{
    switch.enabled = enabled;
}

/// The event for a key state change of the shortcut `key`: only a press
/// while the switch is on is forwarded.
pub fn shortcut_event(switch: &ShortcutSwitch, pressed: bool, key: &str, action: ShortcutAction) -> (r:
    Option<ShortcutEvent>)
    ensures
        match r {
            Some(e) => pressed && switch.enabled && e.action == action && e.shortcut@ == key@,
            None => !(pressed && switch.enabled),
        },
{
    if pressed && switch.enabled {
        Some(ShortcutEvent { action, shortcut: key.to_owned() })
    } else {
        None
    }
}

} // verus!
