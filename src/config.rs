//! Front-end settings: preference tabs, themes, sort orders, audio quality,
//! login fields, and the keybind table.

use crate::connection::{Credentials, SessionConfig};
use crate::update_checker::UpdateInfo;
use vstd::prelude::*;

verus! {

/// The tabs of the preferences window.
#[derive(Clone, Copy, Debug, Eq, PartialEq, Structural)]
pub enum PreferencesTab {
    General,
    Appearance,
    Equalizer,
    Keybinds,
    Account,
    DiscordPresence,
    Cache,
    Updates,
    About,
}

/// The colour scheme.
#[derive(Clone, Copy, Debug, Eq, PartialEq, Structural)]
pub enum Theme {
    Light,
    Dark,
    Custom,
}

impl Default for Theme {
    fn default() -> (r: Theme)
        ensures
            r == Theme::Custom,
    {
        Theme::Custom
    }
}

/// The direction of a list sort.
#[derive(Clone, Copy, Debug, Eq, PartialEq, Structural)]
pub enum SortOrder {
    Ascending,
    Descending,
}

impl Default for SortOrder {
    fn default() -> (r: SortOrder)
        ensures
            r == SortOrder::Ascending,
    {
        SortOrder::Ascending
    }
}

/// The key of a list sort.
#[derive(Clone, Copy, Debug, Eq, PartialEq, Structural)]
pub enum SortCriteria {
    Title,
    Artist,
    Album,
    Duration,
    DateAdded,
}

impl Default for SortCriteria {
    fn default() -> (r: SortCriteria)
        ensures
            r == SortCriteria::DateAdded,
    {
        SortCriteria::DateAdded
    }
}

/// The streaming bitrate to ask for.
#[derive(Clone, Copy, Debug, Eq, PartialEq, Structural)]
pub enum AudioQuality {
    Low,
    Normal,
    High,
}

impl Default for AudioQuality {
    fn default() -> (r: AudioQuality)
        ensures
            r == AudioQuality::High,
    {
        AudioQuality::High
    }
}

impl AudioQuality {
    /// The bitrate in kbit/s: 96, 160 or 320.
    pub fn as_bitrate(self) -> (r: usize)
        ensures
            r == match self {
                AudioQuality::Low => 96usize,
                AudioQuality::Normal => 160usize,
                AudioQuality::High => 320usize,
            },
    {
        match self {
            AudioQuality::Low => 96,
            AudioQuality::Normal => 160,
            AudioQuality::High => 320,
        }
    }
}

/// A modifier key.
#[derive(Clone, Copy, Debug, Eq, PartialEq, Structural)]
pub enum KeyModifier {
    Ctrl,
    Alt,
    Shift,
    Meta,
}

/// An action that a key combination can trigger.
#[derive(Clone, Copy, Debug, Eq, PartialEq, Structural)]
pub enum KeybindAction {
    PlayPause,
    Play,
    Pause,
    Next,
    Previous,
    SeekForward,
    SeekBackward,
    VolumeUp,
    VolumeDown,
    Stop,
    NavigateHome,
    NavigateSavedTracks,
    NavigateSavedAlbums,
    NavigateShows,
    NavigateSearch,
    NavigateBack,
    NavigateRefresh,
    ToggleSidebar,
    ToggleLyrics,
    OpenPreferences,
    CloseWindow,
    ToggleFinder,
    FocusSearch,
    QueueBehaviorSequential,
    QueueBehaviorRandom,
    QueueBehaviorLoopTrack,
    QueueBehaviorLoopAll,
}

/// The name of an action as the keybind editor shows it.
pub open spec fn action_name(a: KeybindAction) -> Seq<char> {
    match a {
        KeybindAction::PlayPause => "Play/Pause"@,
        KeybindAction::Play => "Play"@,
        KeybindAction::Pause => "Pause"@,
        KeybindAction::Next => "Next Track"@,
        KeybindAction::Previous => "Previous Track"@,
        KeybindAction::SeekForward => "Seek Forward"@,
        KeybindAction::SeekBackward => "Seek Backward"@,
        KeybindAction::VolumeUp => "Volume Up"@,
        KeybindAction::VolumeDown => "Volume Down"@,
        KeybindAction::Stop => "Stop Playback"@,
        KeybindAction::NavigateHome => "Navigate to Home"@,
        KeybindAction::NavigateSavedTracks => "Navigate to Saved Tracks"@,
        KeybindAction::NavigateSavedAlbums => "Navigate to Saved Albums"@,
        KeybindAction::NavigateShows => "Navigate to Shows"@,
        KeybindAction::NavigateSearch => "Navigate to Search"@,
        KeybindAction::NavigateBack => "Navigate Back"@,
        KeybindAction::NavigateRefresh => "Refresh Current Page"@,
        KeybindAction::ToggleSidebar => "Toggle Sidebar"@,
        KeybindAction::ToggleLyrics => "Toggle Lyrics"@,
        KeybindAction::OpenPreferences => "Open Preferences"@,
        KeybindAction::CloseWindow => "Close Window"@,
        KeybindAction::ToggleFinder => "Toggle Find in Page"@,
        KeybindAction::FocusSearch => "Focus Search Box"@,
        KeybindAction::QueueBehaviorSequential => "Queue: Sequential"@,
        KeybindAction::QueueBehaviorRandom => "Queue: Random"@,
        KeybindAction::QueueBehaviorLoopTrack => "Queue: Loop Track"@,
        KeybindAction::QueueBehaviorLoopAll => "Queue: Loop All"@,
    }
}

impl KeybindAction {
    /// The name shown for the action.
    pub fn display_name(&self) -> (r: &'static str)
        ensures
            r@ == action_name(*self),
    {
        match self {
            KeybindAction::PlayPause => "Play/Pause",
            KeybindAction::Play => "Play",
            KeybindAction::Pause => "Pause",
            KeybindAction::Next => "Next Track",
            KeybindAction::Previous => "Previous Track",
            KeybindAction::SeekForward => "Seek Forward",
            KeybindAction::SeekBackward => "Seek Backward",
            KeybindAction::VolumeUp => "Volume Up",
            KeybindAction::VolumeDown => "Volume Down",
            KeybindAction::Stop => "Stop Playback",
            KeybindAction::NavigateHome => "Navigate to Home",
            KeybindAction::NavigateSavedTracks => "Navigate to Saved Tracks",
            KeybindAction::NavigateSavedAlbums => "Navigate to Saved Albums",
            KeybindAction::NavigateShows => "Navigate to Shows",
            KeybindAction::NavigateSearch => "Navigate to Search",
            KeybindAction::NavigateBack => "Navigate Back",
            KeybindAction::NavigateRefresh => "Refresh Current Page",
            KeybindAction::ToggleSidebar => "Toggle Sidebar",
            KeybindAction::ToggleLyrics => "Toggle Lyrics",
            KeybindAction::OpenPreferences => "Open Preferences",
            KeybindAction::CloseWindow => "Close Window",
            KeybindAction::ToggleFinder => "Toggle Find in Page",
            KeybindAction::FocusSearch => "Focus Search Box",
            KeybindAction::QueueBehaviorSequential => "Queue: Sequential",
            KeybindAction::QueueBehaviorRandom => "Queue: Random",
            KeybindAction::QueueBehaviorLoopTrack => "Queue: Loop Track",
            KeybindAction::QueueBehaviorLoopAll => "Queue: Loop All",
        }
    }
}

/// The name shown for a modifier (the meta key is the Windows key).
pub open spec fn modifier_name(m: KeyModifier) -> Seq<char> {
    match m {
        KeyModifier::Ctrl => "Ctrl"@,
        KeyModifier::Alt => "Alt"@,
        KeyModifier::Shift => "Shift"@,
        KeyModifier::Meta => "Win"@,
    }
}

fn modifier_name_exec(m: KeyModifier) -> (r: &'static str)
    ensures
        r@ == modifier_name(m),
{
    match m {
        KeyModifier::Ctrl => "Ctrl",
        KeyModifier::Alt => "Alt",
        KeyModifier::Shift => "Shift",
        KeyModifier::Meta => "Win",
    }
}

/// Each modifier's name followed by `+`, in order.
pub open spec fn modifiers_prefix(mods: Seq<KeyModifier>) -> Seq<char>
    decreases mods.len(),
{
    if mods.len() == 0 {
        Seq::empty()
    } else {
        modifiers_prefix(mods.drop_last()) + modifier_name(mods.last()) + "+"@
    }
}

/// The optional key code, as text.
pub open spec fn code_view(code: Option<String>) -> Option<Seq<char>> {
    match code {
        Some(c) => Some(c@),
        None => None,
    }
}

/// A key with its modifiers.
#[derive(Clone, Debug, Eq)]
pub struct KeyCombination {
    pub key: String,
    pub code: Option<String>,
    pub modifiers: Vec<KeyModifier>,
}

/// Two combinations have the same key, code and modifiers.
pub open spec fn same_combination(a: KeyCombination, b: KeyCombination) -> bool {
    a.key@ == b.key@ && code_view(a.code) == code_view(b.code) && a.modifiers@ == b.modifiers@
}

impl KeyCombination {
    pub fn new(key: String, code: Option<String>, modifiers: Vec<KeyModifier>) -> (r: KeyCombination)
        ensures
            r.key == key,
            r.code == code,
            r.modifiers == modifiers,
    {
        KeyCombination { key, code, modifiers }
    }

    /// The modifiers' names and then the key, joined by `+` (`Ctrl+Shift+f`).
    pub fn display_string(&self) -> (r: String)
        ensures
            r@ == modifiers_prefix(self.modifiers@) + self.key@,
    {
        let mut s = String::new();
        let mut i: usize = 0;
        while i < self.modifiers.len()
            invariant
                i <= self.modifiers@.len(),
                s@ == modifiers_prefix(self.modifiers@.take(i as int)),
            decreases self.modifiers@.len() - i,
        {
            s.append(modifier_name_exec(self.modifiers[i]));
            proof {
                reveal_strlit("+");
            }
            s.append("+");
            assert(self.modifiers@.take(i + 1).drop_last() =~= self.modifiers@.take(i as int));
            i = i + 1;
        }
        assert(self.modifiers@.take(i as int) =~= self.modifiers@);
        s.append(self.key.as_str());
        s
    }
}

fn same_code(a: &Option<String>, b: &Option<String>) -> (r: bool)
    ensures
        r == (code_view(*a) == code_view(*b)),
{
    match a {
        Some(x) => match b {
            Some(y) => *x == *y,
            None => false,
        },
        None => b.is_none(),
    }
}

fn same_modifiers(a: &Vec<KeyModifier>, b: &Vec<KeyModifier>) -> (r: bool)
    ensures
        r == (a@ == b@),
{
    if a.len() != b.len() {
        return false;
    }
    let mut i: usize = 0;
    while i < a.len()
        invariant
            a@.len() == b@.len(),
            i <= a@.len(),
            forall|k: int| 0 <= k < i ==> a@[k] == b@[k],
        decreases a@.len() - i,
    {
        if a[i] != b[i] {
            return false;
        }
        i = i + 1;
    }
    assert(a@ =~= b@);
    true
}

impl PartialEq for KeyCombination {
    fn eq(&self, other: &KeyCombination) -> (r: bool) {
        self.key == other.key && same_code(&self.code, &other.code) && same_modifiers(
            &self.modifiers,
            &other.modifiers,
        )
    }
}

impl vstd::std_specs::cmp::PartialEqSpecImpl for KeyCombination {
    open spec fn obeys_eq_spec() -> bool {
        true
    }

    open spec fn eq_spec(&self, other: &KeyCombination) -> bool {
        same_combination(*self, *other)
    }
}

/// An action with the combination that triggers it.
#[derive(Clone, Debug)]
pub struct Keybind {
    pub action: KeybindAction,
    pub combination: KeyCombination,
}

/// A keybind as plain values: action, key, code and modifiers.
pub open spec fn binding_view(kb: Keybind) -> (KeybindAction, Seq<char>, Option<Seq<char>>, Seq<KeyModifier>) {
    (kb.action, kb.combination.key@, code_view(kb.combination.code), kb.combination.modifiers@)
}

/// The keybinds a new configuration starts with.
pub open spec fn default_table() -> Seq<(KeybindAction, Seq<char>, Option<Seq<char>>, Seq<KeyModifier>)> {
    seq![
        (KeybindAction::PlayPause, "Space"@, Some("Space"@), Seq::empty()),
        (KeybindAction::Next, "ArrowRight"@, Some("ArrowRight"@), seq![KeyModifier::Shift]),
        (KeybindAction::Previous, "ArrowLeft"@, Some("ArrowLeft"@), seq![KeyModifier::Shift]),
        (KeybindAction::SeekForward, "ArrowRight"@, Some("ArrowRight"@), Seq::empty()),
        (KeybindAction::SeekBackward, "ArrowLeft"@, Some("ArrowLeft"@), Seq::empty()),
        (KeybindAction::VolumeUp, "+"@, None, Seq::empty()),
        (KeybindAction::VolumeDown, "-"@, None, Seq::empty()),
        (KeybindAction::NavigateHome, "h"@, Some("KeyH"@), seq![KeyModifier::Ctrl]),
        (KeybindAction::NavigateSavedTracks, "t"@, Some("KeyT"@), seq![KeyModifier::Ctrl]),
        (KeybindAction::NavigateSavedAlbums, "a"@, Some("KeyA"@), seq![KeyModifier::Ctrl]),
        (KeybindAction::NavigateShows, "p"@, Some("KeyP"@), seq![KeyModifier::Ctrl]),
        (KeybindAction::NavigateSearch, "f"@, Some("KeyF"@), seq![KeyModifier::Ctrl]),
        (KeybindAction::NavigateBack, "Backspace"@, Some("Backspace"@), Seq::empty()),
        (KeybindAction::NavigateRefresh, "r"@, Some("KeyR"@), seq![KeyModifier::Meta]),
        (KeybindAction::ToggleLyrics, "l"@, Some("KeyL"@), seq![KeyModifier::Ctrl]),
        (KeybindAction::OpenPreferences, ","@, None, seq![KeyModifier::Meta]),
        (KeybindAction::ToggleFinder, "f"@, Some("KeyF"@), seq![KeyModifier::Meta]),
    ]
}

fn binding(action: KeybindAction, key: &str, code: Option<&str>, modifier: Option<KeyModifier>) -> (r: Keybind)
    ensures
        binding_view(r) == (
            action,
            key@,
            match code {
                Some(c) => Some(c@),
                None => None,
            },
            match modifier {
                Some(m) => seq![m],
                None => Seq::<KeyModifier>::empty(),
            },
        ),
{
    let mut modifiers: Vec<KeyModifier> = Vec::new();
    if let Some(m) = modifier {
        modifiers.push(m);
    }
    assert(modifiers@ =~= match modifier {
        Some(m) => seq![m],
        None => Seq::<KeyModifier>::empty(),
    });
    let code = match code {
        Some(c) => Some(c.to_owned()),
        None => None,
    };
    Keybind { action, combination: KeyCombination { key: key.to_owned(), code, modifiers } }
}

/// The first position in `kbs` whose action is `a`, if any.
pub open spec fn is_first_with_action(kbs: Seq<Keybind>, a: KeybindAction, i: int) -> bool {
    0 <= i < kbs.len() && kbs[i].action == a && forall|k: int| 0 <= k < i ==> kbs[k].action != a
}

/// Whether some keybind in `kbs` has the action `a`.
pub open spec fn has_action(kbs: Seq<Keybind>, a: KeybindAction) -> bool {
    exists|i: int| 0 <= i < kbs.len() && kbs[i].action == a
}

/// The keybind at `i` is the first one, other than for `exclude`, bound to `c`.
pub open spec fn is_first_conflict(kbs: Seq<Keybind>, c: KeyCombination, exclude: KeybindAction, i: int) -> bool {
    0 <= i < kbs.len() && kbs[i].action != exclude && same_combination(kbs[i].combination, c)
        && forall|k: int| 0 <= k < i ==> !(kbs[k].action != exclude && same_combination(kbs[k].combination, c))
}

/// Which action each key combination triggers.
#[derive(Clone, Debug)]
pub struct KeybindsConfig {
    pub keybinds: Vec<Keybind>,
}

impl KeybindsConfig {
    /// The default table.
    pub fn default_keybinds() -> (r: KeybindsConfig)
        ensures
            r.keybinds@.map_values(|kb: Keybind| binding_view(kb)) == default_table(),
    {
        let mut v: Vec<Keybind> = Vec::new();
    v.push(binding(KeybindAction::PlayPause, "Space", Some("Space"), None));
    v.push(binding(KeybindAction::Next, "ArrowRight", Some("ArrowRight"), Some(KeyModifier::Shift)));
    v.push(binding(KeybindAction::Previous, "ArrowLeft", Some("ArrowLeft"), Some(KeyModifier::Shift)));
    v.push(binding(KeybindAction::SeekForward, "ArrowRight", Some("ArrowRight"), None));
    v.push(binding(KeybindAction::SeekBackward, "ArrowLeft", Some("ArrowLeft"), None));
    v.push(binding(KeybindAction::VolumeUp, "+", None, None));
    v.push(binding(KeybindAction::VolumeDown, "-", None, None));
    v.push(binding(KeybindAction::NavigateHome, "h", Some("KeyH"), Some(KeyModifier::Ctrl)));
    v.push(binding(KeybindAction::NavigateSavedTracks, "t", Some("KeyT"), Some(KeyModifier::Ctrl)));
    v.push(binding(KeybindAction::NavigateSavedAlbums, "a", Some("KeyA"), Some(KeyModifier::Ctrl)));
    v.push(binding(KeybindAction::NavigateShows, "p", Some("KeyP"), Some(KeyModifier::Ctrl)));
    v.push(binding(KeybindAction::NavigateSearch, "f", Some("KeyF"), Some(KeyModifier::Ctrl)));
    v.push(binding(KeybindAction::NavigateBack, "Backspace", Some("Backspace"), None));
    v.push(binding(KeybindAction::NavigateRefresh, "r", Some("KeyR"), Some(KeyModifier::Meta)));
    v.push(binding(KeybindAction::ToggleLyrics, "l", Some("KeyL"), Some(KeyModifier::Ctrl)));
    v.push(binding(KeybindAction::OpenPreferences, ",", None, Some(KeyModifier::Meta)));
    v.push(binding(KeybindAction::ToggleFinder, "f", Some("KeyF"), Some(KeyModifier::Meta)));
        proof {
        reveal_strlit("+");
        reveal_strlit(",");
        reveal_strlit("-");
        reveal_strlit("ArrowLeft");
        reveal_strlit("ArrowRight");
        reveal_strlit("Backspace");
        reveal_strlit("KeyA");
        reveal_strlit("KeyF");
        reveal_strlit("KeyH");
        reveal_strlit("KeyL");
        reveal_strlit("KeyP");
        reveal_strlit("KeyR");
        reveal_strlit("KeyT");
        reveal_strlit("Space");
        reveal_strlit("a");
        reveal_strlit("f");
        reveal_strlit("h");
        reveal_strlit("l");
        reveal_strlit("p");
        reveal_strlit("r");
        reveal_strlit("t");
        }
        assert(v@.map_values(|kb: Keybind| binding_view(kb)) =~= default_table());
        KeybindsConfig { keybinds: v }
    }

    /// The first action other than `exclude_action` bound to `combination`.
    pub fn conflicting_action(&self, combination: &KeyCombination, exclude_action: KeybindAction) -> (r: Option<KeybindAction>)
        ensures
            r matches Some(a) ==> exists|i: int| is_first_conflict(self.keybinds@, *combination, exclude_action, i) && self.keybinds@[i].action == a,
            r is None ==> forall|i: int| 0 <= i < self.keybinds@.len() ==> !(self.keybinds@[i].action != exclude_action && same_combination(self.keybinds@[i].combination, *combination)),
    {
        let mut i: usize = 0;
        while i < self.keybinds.len()
            invariant
                i <= self.keybinds@.len(),
                forall|k: int| 0 <= k < i ==> !(self.keybinds@[k].action != exclude_action && same_combination(self.keybinds@[k].combination, *combination)),
            decreases self.keybinds@.len() - i,
        {
            let kb = &self.keybinds[i];
            if kb.action != exclude_action && kb.combination == *combination {
                assert(is_first_conflict(self.keybinds@, *combination, exclude_action, i as int));
                return Some(kb.action);
            }
            i = i + 1;
        }
        None
    }

    /// Binds `combination` to `action`: replaces the combination of the
    /// first keybind for `action`, or appends a new keybind.
    pub fn set_keybind(&mut self, action: KeybindAction, combination: KeyCombination)
        ensures
            has_action(old(self).keybinds@, action) ==> exists|i: int| is_first_with_action(old(self).keybinds@, action, i)
                && final(self).keybinds@ == old(self).keybinds@.update(i, Keybind { action, combination }),
            !has_action(old(self).keybinds@, action) ==> final(self).keybinds@ == old(self).keybinds@.push(Keybind { action, combination }),
    {
        let mut i: usize = 0;
        while i < self.keybinds.len()
            invariant
                i <= self.keybinds@.len(),
                self.keybinds@ == old(self).keybinds@,
                forall|k: int| 0 <= k < i ==> self.keybinds@[k].action != action,
            decreases self.keybinds@.len() - i,
        {
            if self.keybinds[i].action == action {
                assert(is_first_with_action(old(self).keybinds@, action, i as int));
                self.keybinds.set(i, Keybind { action, combination });
                return;
            }
            i = i + 1;
        }
        self.keybinds.push(Keybind { action, combination });
    }

    /// The combination of the first keybind for `action`.
    pub fn get_keybind(&self, action: KeybindAction) -> (r: Option<&KeyCombination>)
        ensures
            r matches Some(c) ==> exists|i: int| is_first_with_action(self.keybinds@, action, i) && *c == self.keybinds@[i].combination,
            r is None ==> !has_action(self.keybinds@, action),
    {
        let mut i: usize = 0;
        while i < self.keybinds.len()
            invariant
                i <= self.keybinds@.len(),
                forall|k: int| 0 <= k < i ==> self.keybinds@[k].action != action,
            decreases self.keybinds@.len() - i,
        {
            if self.keybinds[i].action == action {
                assert(is_first_with_action(self.keybinds@, action, i as int));
                return Some(&self.keybinds[i].combination);
            }
            i = i + 1;
        }
        None
    }

    /// Puts the default table back.
    pub fn reset_to_defaults(&mut self)
        ensures
            final(self).keybinds@.map_values(|kb: Keybind| binding_view(kb)) == default_table(),
    {
        *self = KeybindsConfig::default_keybinds();
    }
}

impl Default for KeybindsConfig {
    fn default() -> (r: KeybindsConfig)
        ensures
            r.keybinds@.map_values(|kb: Keybind| binding_view(kb)) == default_table(),
    {
        KeybindsConfig::default_keybinds()
    }
}

/// A value that is being worked out in the background.
#[derive(Clone, Debug, PartialEq, Eq)]
pub enum Promise<T, E> {
    Empty,
    Deferred,
    Resolved(T),
    Rejected(E),
}

/// The login fields of the account tab, and the outcome of the last login.
#[derive(Clone, Debug)]
pub struct Authentication {
    pub username: String,
    pub password: String,
    pub access_token: String,
    pub result: Promise<(), String>,
    pub lastfm_api_key_input: String,
    pub lastfm_api_secret_input: String,
}

impl Authentication {
    /// All fields empty.
    pub fn new() -> (r: Authentication)
        ensures
            r.username@.len() == 0,
            r.password@.len() == 0,
            r.access_token@.len() == 0,
            r.result == Promise::<(), String>::Empty,
            r.lastfm_api_key_input@.len() == 0,
            r.lastfm_api_secret_input@.len() == 0,
    {
        Authentication {
            username: String::new(),
            password: String::new(),
            access_token: String::new(),
            result: Promise::Empty,
            lastfm_api_key_input: String::new(),
            lastfm_api_secret_input: String::new(),
        }
    }

    /// The session settings for these fields: the access token when one is
    /// given, else the user name and password; `proxy_url` is passed on.
    pub fn session_config(&self, proxy_url: Option<String>) -> (r: SessionConfig)
        ensures
            self.access_token@.len() > 0 ==> r.login_creds == Credentials::AccessToken(self.access_token),
            self.access_token@.len() == 0 ==> r.login_creds == (Credentials::UsernamePassword {
                username: self.username,
                password: self.password,
            }),
            r.proxy_url == proxy_url,
    {
        let login_creds = if self.access_token.as_str().unicode_len() > 0 {
            Credentials::from_access_token(self.access_token.clone())
        } else {
            Credentials::from_username_and_password(self.username.clone(), self.password.clone())
        };
        SessionConfig { login_creds, proxy_url }
    }

    /// Empties the user name and password; the other fields stay.
    pub fn clear(&mut self)
        ensures
            final(self).username@.len() == 0,
            final(self).password@.len() == 0,
            final(self).access_token == old(self).access_token,
            final(self).result == old(self).result,
            final(self).lastfm_api_key_input == old(self).lastfm_api_key_input,
            final(self).lastfm_api_secret_input == old(self).lastfm_api_secret_input,
    {
        self.username = String::new();
        self.password = String::new();
    }
}


/// The state of the preferences window.
#[derive(Clone, Debug)]
pub struct Preferences {
    pub active: PreferencesTab,
    pub cache_size: Promise<u64, ()>,
    pub auth: Authentication,
    pub lastfm_auth_result: Option<String>,
    pub available_update: Option<UpdateInfo>,
    pub checking_update: bool,
    pub installing_update: bool,
    pub update_install_status: Option<String>,
    pub active_keybind_capture: Option<KeybindAction>,
    pub keybind_capture_display: Option<String>,
    pub keybind_capture_error: Option<String>,
    pub keybind_menu_revision: u64,
}

impl Preferences {
    /// Forgets the window's transient state: the measured cache size, the
    /// login outcome, the Last.fm inputs and any keybind capture; bumps the
    /// keybind menu revision (wrapping). The rest stays.
    pub fn reset(&mut self)
        ensures
            final(self).cache_size == Promise::<u64, ()>::Empty,
            final(self).auth.result == Promise::<(), String>::Empty,
            final(self).auth.lastfm_api_key_input@.len() == 0,
            final(self).auth.lastfm_api_secret_input@.len() == 0,
            final(self).auth.username == old(self).auth.username,
            final(self).auth.password == old(self).auth.password,
            final(self).auth.access_token == old(self).auth.access_token,
            final(self).active_keybind_capture is None,
            final(self).keybind_capture_display is None,
            final(self).keybind_capture_error is None,
            final(self).keybind_menu_revision == old(self).keybind_menu_revision.wrapping_add(1),
            final(self).active == old(self).active,
            final(self).lastfm_auth_result == old(self).lastfm_auth_result,
            final(self).checking_update == old(self).checking_update,
            final(self).installing_update == old(self).installing_update,
            final(self).update_install_status == old(self).update_install_status,
    {
        self.cache_size = Promise::Empty;
        self.auth.result = Promise::Empty;
        self.auth.lastfm_api_key_input = String::new();
        self.auth.lastfm_api_secret_input = String::new();
        self.active_keybind_capture = None;
        self.keybind_capture_display = None;
        self.keybind_capture_error = None;
        self.keybind_menu_revision = self.keybind_menu_revision.wrapping_add(1);
    }
}

} // verus!
