//! What the app keeps between launches, and where.
use vstd::prelude::*;

use crate::alarm::{copy_alarms, PendingAlarmModel, PendingAlarmSnapshot};
use crate::counter_strike::DEFAULT_COUNTER_STRIKE_2_GSI_PORT;
use crate::discord_bridge;
use crate::discord_bridge::{BridgeSettingsModel, DiscordBridgeSettings};
use crate::paths::PathParts;
use crate::time::LocalDateTime;
use crate::APP_NAME;

verus! {

pub const STATE_DIR: &'static str = ".alarm_at_game_end";

pub const STATE_FILE: &'static str = "state.json";

pub const CRASH_LOG_FILE: &'static str = "crash.log";

pub const DEFAULT_SOUND_PATH: &'static str = "sounds/universfield-alarm.mp3";

/// The name that `DEFAULT_SOUND_PATH` ends in.
pub const DEFAULT_SOUND_NAME: &'static str = "universfield-alarm.mp3";

/// The alarm time that stands in the field at first.
pub const DEFAULT_ALARM_TIME: &'static str = "19:30";

/// How much a log entry matters.
#[derive(Clone, Copy, Debug, PartialEq, Eq, Structural)]
pub enum PersistedLogLevel {
    Info,
    Error,
}

impl PersistedLogLevel {
    /// What the user is shown.
    pub open spec fn word(self) -> Seq<char> {
        match self {
            PersistedLogLevel::Info => "Info"@,
            PersistedLogLevel::Error => "Error"@,
        }
    }

    /// What the user is shown.
    pub fn as_str(self) -> (word: &'static str)
        ensures
            word@ == self.word(),
    {
        match self {
            PersistedLogLevel::Info => "Info",
            PersistedLogLevel::Error => "Error",
        }
    }
}

/// An entry of the log.
#[derive(Debug, PartialEq)]
pub struct PersistedLogEntry {
    pub occurred_at: LocalDateTime,
    pub level: PersistedLogLevel,
    pub message: String,
}

/// The model of a log entry.
#[verifier::ext_equal]
pub struct LogEntryModel {
    pub occurred_at: LocalDateTime,
    pub level: PersistedLogLevel,
    pub message: Seq<char>,
}

impl DeepView for PersistedLogEntry {
    type V = LogEntryModel;

    open spec fn deep_view(&self) -> LogEntryModel {
        LogEntryModel {
            occurred_at: self.occurred_at,
            level: self.level,
            message: self.message@,
        }
    }
}

impl Clone for PersistedLogEntry {
    fn clone(&self) -> (copy: PersistedLogEntry)
        ensures
            copy == *self,
    {
        PersistedLogEntry {
            occurred_at: self.occurred_at,
            level: self.level,
            message: self.message.clone(),
        }
    }
}

/// Which theme to show.
#[derive(Clone, Copy, Debug, PartialEq, Eq, Structural)]
pub enum PersistedThemePreference {
    System,
    Dark,
    Light,
}

impl Default for PersistedThemePreference {
    fn default() -> (preference: PersistedThemePreference)
        ensures
            preference is System,
    {
        PersistedThemePreference::System
    }
}

/// What to draw with.
#[derive(Clone, Copy, Debug, PartialEq, Eq, Structural)]
pub enum PersistedGraphicsBackendPreference {
    Auto,
    Wgpu,
    OpenGl,
}

impl Default for PersistedGraphicsBackendPreference {
    fn default() -> (preference: PersistedGraphicsBackendPreference)
        ensures
            preference is Auto,
    {
        PersistedGraphicsBackendPreference::Auto
    }
}

/// A way to draw.
#[derive(Clone, Copy, Debug, PartialEq, Eq, Structural)]
pub enum Renderer {
    Wgpu,
    Glow,
}

impl PersistedGraphicsBackendPreference {
    /// What the user is shown.
    pub open spec fn word(self) -> Seq<char> {
        match self {
            PersistedGraphicsBackendPreference::Auto => "Auto"@,
            PersistedGraphicsBackendPreference::Wgpu => "WGPU"@,
            PersistedGraphicsBackendPreference::OpenGl => "OpenGL"@,
        }
    }

    /// What the user is shown.
    pub fn label(self) -> (label: &'static str)
        ensures
            label@ == self.word(),
    {
        match self {
            PersistedGraphicsBackendPreference::Auto => "Auto",
            PersistedGraphicsBackendPreference::Wgpu => "WGPU",
            PersistedGraphicsBackendPreference::OpenGl => "OpenGL",
        }
    }
}

/// What to draw with, if the user asked for something.
pub fn graphics_backend_renderer(preference: PersistedGraphicsBackendPreference) -> (renderer:
    Option<Renderer>)
    ensures
        renderer == match preference {
            PersistedGraphicsBackendPreference::Auto => None::<Renderer>,
            PersistedGraphicsBackendPreference::Wgpu => Some(Renderer::Wgpu),
            PersistedGraphicsBackendPreference::OpenGl => Some(Renderer::Glow),
        },
{
    match preference {
        PersistedGraphicsBackendPreference::Auto => None,
        PersistedGraphicsBackendPreference::Wgpu => Some(Renderer::Wgpu),
        PersistedGraphicsBackendPreference::OpenGl => Some(Renderer::Glow),
    }
}

/// What the app keeps between launches.
#[derive(Debug, PartialEq)]
pub struct PersistedState {
    pub label: String,
    pub alarm_time: String,
    pub delay_for_games: bool,
    pub lockfile_path: String,
    pub sound_path: String,
    pub counter_strike_2_gsi_port: u16,
    pub counter_strike_2_gsi_config_path: String,
    pub logs: Vec<PersistedLogEntry>,
    pub alarms: Vec<PendingAlarmSnapshot>,
    pub last_reported_crash_fingerprint: Option<String>,
    pub theme_preference: PersistedThemePreference,
    pub graphics_backend_preference: PersistedGraphicsBackendPreference,
    pub discord_bridge: DiscordBridgeSettings,
}

/// The model of what the app keeps between launches.
#[verifier::ext_equal]
pub struct StateModel {
    pub label: Seq<char>,
    pub alarm_time: Seq<char>,
    pub delay_for_games: bool,
    pub lockfile_path: Seq<char>,
    pub sound_path: Seq<char>,
    pub counter_strike_2_gsi_port: u16,
    pub counter_strike_2_gsi_config_path: Seq<char>,
    pub logs: Seq<LogEntryModel>,
    pub alarms: Seq<PendingAlarmModel>,
    pub last_reported_crash_fingerprint: Option<Seq<char>>,
    pub theme_preference: PersistedThemePreference,
    pub graphics_backend_preference: PersistedGraphicsBackendPreference,
    pub discord_bridge: BridgeSettingsModel,
}

impl DeepView for PersistedState {
    type V = StateModel;

    open spec fn deep_view(&self) -> StateModel {
        StateModel {
            label: self.label@,
            alarm_time: self.alarm_time@,
            delay_for_games: self.delay_for_games,
            lockfile_path: self.lockfile_path@,
            sound_path: self.sound_path@,
            counter_strike_2_gsi_port: self.counter_strike_2_gsi_port,
            counter_strike_2_gsi_config_path: self.counter_strike_2_gsi_config_path@,
            logs: self.logs.deep_view(),
            alarms: self.alarms.deep_view(),
            last_reported_crash_fingerprint: self.last_reported_crash_fingerprint.deep_view(),
            theme_preference: self.theme_preference,
            graphics_backend_preference: self.graphics_backend_preference,
            discord_bridge: self.discord_bridge.deep_view(),
        }
    }
}

/// A copy of log entries.
pub fn copy_log_entries(logs: &Vec<PersistedLogEntry>) -> (copy: Vec<PersistedLogEntry>)
    ensures
        copy.deep_view() == logs.deep_view(),
{
    let copy = logs.clone();
    assert(copy.deep_view() =~= logs.deep_view());
    copy
}

impl Clone for PersistedState {
    fn clone(&self) -> (copy: PersistedState)
        ensures
            copy.deep_view() == self.deep_view(),
    {
        PersistedState {
            label: self.label.clone(),
            alarm_time: self.alarm_time.clone(),
            delay_for_games: self.delay_for_games,
            lockfile_path: self.lockfile_path.clone(),
            sound_path: self.sound_path.clone(),
            counter_strike_2_gsi_port: self.counter_strike_2_gsi_port,
            counter_strike_2_gsi_config_path: self.counter_strike_2_gsi_config_path.clone(),
            logs: copy_log_entries(&self.logs),
            alarms: copy_alarms(&self.alarms),
            last_reported_crash_fingerprint: self.last_reported_crash_fingerprint.clone(),
            theme_preference: self.theme_preference,
            graphics_backend_preference: self.graphics_backend_preference,
            discord_bridge: self.discord_bridge.clone(),
        }
    }
}

/// The state before anything was kept, with the path at which to suggest the configuration of
/// the game state integration.
pub open spec fn fresh_state(gsi_config_path: Seq<char>) -> StateModel {
    StateModel {
        label: Seq::empty(),
        alarm_time: DEFAULT_ALARM_TIME@,
        delay_for_games: true,
        lockfile_path: Seq::empty(),
        sound_path: DEFAULT_SOUND_PATH@,
        counter_strike_2_gsi_port: DEFAULT_COUNTER_STRIKE_2_GSI_PORT,
        counter_strike_2_gsi_config_path: gsi_config_path,
        logs: Seq::empty(),
        alarms: Seq::empty(),
        last_reported_crash_fingerprint: None,
        theme_preference: PersistedThemePreference::System,
        graphics_backend_preference: PersistedGraphicsBackendPreference::Auto,
        discord_bridge: discord_bridge::fresh_settings(),
    }
}

impl PersistedState {
    /// The state before anything was kept.
    pub fn with_defaults(gsi_config_path: String) -> (state: PersistedState)
        ensures
            state.deep_view() == fresh_state(gsi_config_path@),
    {
        let logs: Vec<PersistedLogEntry> = Vec::new();
        let alarms: Vec<PendingAlarmSnapshot> = Vec::new();
        assert(logs.deep_view() =~= Seq::empty());
        assert(alarms.deep_view() =~= Seq::empty());
        PersistedState {
            label: String::new(),
            alarm_time: DEFAULT_ALARM_TIME.to_owned(),
            delay_for_games: true,
            lockfile_path: String::new(),
            sound_path: DEFAULT_SOUND_PATH.to_owned(),
            counter_strike_2_gsi_port: DEFAULT_COUNTER_STRIKE_2_GSI_PORT,
            counter_strike_2_gsi_config_path: gsi_config_path,
            logs,
            alarms,
            last_reported_crash_fingerprint: None,
            theme_preference: PersistedThemePreference::System,
            graphics_backend_preference: PersistedGraphicsBackendPreference::Auto,
            discord_bridge: DiscordBridgeSettings::default(),
        }
    }
}

/// What was found in the file of an earlier launch. What may be missing there is optional here.
#[derive(Debug)]
pub struct SavedState {
    pub label: String,
    pub alarm_time: String,
    pub delay_for_games: Option<bool>,
    pub lockfile_path: String,
    pub sound_path: Option<String>,
    pub counter_strike_2_gsi_port: Option<u16>,
    pub counter_strike_2_gsi_config_path: Option<String>,
    pub logs: Option<Vec<PersistedLogEntry>>,
    pub alarms: Option<Vec<PendingAlarmSnapshot>>,
    pub last_reported_crash_fingerprint: Option<String>,
    pub theme_preference: Option<PersistedThemePreference>,
    pub graphics_backend_preference: Option<PersistedGraphicsBackendPreference>,
    pub discord_bridge: Option<DiscordBridgeSettings>,
}

/// The state that a file of an earlier launch gives: what is missing is as it is at first.
pub open spec fn completed_state(saved: SavedState, gsi_config_path: Seq<char>) -> StateModel {
    let fresh = fresh_state(gsi_config_path);
    StateModel {
        label: saved.label@,
        alarm_time: saved.alarm_time@,
        delay_for_games: match saved.delay_for_games {
            Some(delay) => delay,
            None => fresh.delay_for_games,
        },
        lockfile_path: saved.lockfile_path@,
        sound_path: match saved.sound_path {
            Some(path) => path@,
            None => fresh.sound_path,
        },
        counter_strike_2_gsi_port: match saved.counter_strike_2_gsi_port {
            Some(port) => port,
            None => fresh.counter_strike_2_gsi_port,
        },
        counter_strike_2_gsi_config_path: match saved.counter_strike_2_gsi_config_path {
            Some(path) => path@,
            None => fresh.counter_strike_2_gsi_config_path,
        },
        logs: match saved.logs {
            Some(logs) => logs.deep_view(),
            None => fresh.logs,
        },
        alarms: match saved.alarms {
            Some(alarms) => alarms.deep_view(),
            None => fresh.alarms,
        },
        last_reported_crash_fingerprint: saved.last_reported_crash_fingerprint.deep_view(),
        theme_preference: match saved.theme_preference {
            Some(preference) => preference,
            None => fresh.theme_preference,
        },
        graphics_backend_preference: match saved.graphics_backend_preference {
            Some(preference) => preference,
            None => fresh.graphics_backend_preference,
        },
        discord_bridge: match saved.discord_bridge {
            Some(settings) => settings.deep_view(),
            None => fresh.discord_bridge,
        },
    }
}

/// The state that a file of an earlier launch gives.
pub fn complete_saved_state(saved: SavedState, gsi_config_path: String) -> (state: PersistedState)
    ensures
        state.deep_view() == completed_state(saved, gsi_config_path@),
{
    let mut state = PersistedState::with_defaults(gsi_config_path);
    state.label = saved.label;
    state.alarm_time = saved.alarm_time;
    state.lockfile_path = saved.lockfile_path;
    state.last_reported_crash_fingerprint = saved.last_reported_crash_fingerprint;
    if let Some(delay) = saved.delay_for_games {
        state.delay_for_games = delay;
    }
    if let Some(path) = saved.sound_path {
        state.sound_path = path;
    }
    if let Some(port) = saved.counter_strike_2_gsi_port {
        state.counter_strike_2_gsi_port = port;
    }
    if let Some(path) = saved.counter_strike_2_gsi_config_path {
        state.counter_strike_2_gsi_config_path = path;
    }
    if let Some(logs) = saved.logs {
        state.logs = logs;
    }
    if let Some(alarms) = saved.alarms {
        state.alarms = alarms;
    }
    if let Some(preference) = saved.theme_preference {
        state.theme_preference = preference;
    }
    if let Some(preference) = saved.graphics_backend_preference {
        state.graphics_backend_preference = preference;
    }
    if let Some(settings) = saved.discord_bridge {
        state.discord_bridge = settings;
    }
    state
}

/// A state that was saved whole is the same when it is completed.
pub proof fn whole_state_is_kept(saved: SavedState, gsi_config_path: Seq<char>, state: StateModel)
    requires
        saved.label@ == state.label,
        saved.alarm_time@ == state.alarm_time,
        saved.delay_for_games == Some(state.delay_for_games),
        saved.lockfile_path@ == state.lockfile_path,
        saved.sound_path.deep_view() == Some(state.sound_path),
        saved.counter_strike_2_gsi_port == Some(state.counter_strike_2_gsi_port),
        saved.counter_strike_2_gsi_config_path.deep_view() == Some(
            state.counter_strike_2_gsi_config_path,
        ),
        saved.logs.deep_view() == Some(state.logs),
        saved.alarms.deep_view() == Some(state.alarms),
        saved.last_reported_crash_fingerprint.deep_view() == state.last_reported_crash_fingerprint,
        saved.theme_preference == Some(state.theme_preference),
        saved.graphics_backend_preference == Some(state.graphics_backend_preference),
        saved.discord_bridge.deep_view() == Some(state.discord_bridge),
    ensures
        completed_state(saved, gsi_config_path) == state,
{
}

/// What went wrong with the file.
#[derive(Clone, Copy, Debug, PartialEq, Eq, Structural)]
pub enum StorageError {
    Io,
    Json,
}

impl StorageError {
    /// What the user is told.
    pub open spec fn words(self) -> Seq<char> {
        match self {
            StorageError::Io => "could not access local app state"@,
            StorageError::Json => "could not parse local app state"@,
        }
    }

    /// What the user is told.
    pub fn message(self) -> (message: String)
        ensures
            message@ == self.words(),
    {
        match self {
            StorageError::Io => "could not access local app state".to_owned(),
            StorageError::Json => "could not parse local app state".to_owned(),
        }
    }
}

/// The directory of the app: its own under that for settings or, where there is none, a hidden
/// one under the directory that the app was started in.
pub open spec fn app_dir(config_dir: Option<Seq<char>>, current_dir: Option<Seq<char>>) -> Seq<
    Seq<char>,
> {
    match (config_dir, current_dir) {
        (Some(dir), _) => seq![dir, APP_NAME@],
        (None, Some(dir)) => seq![dir, STATE_DIR@],
        (None, None) => seq!["."@, STATE_DIR@],
    }
}

/// The directory of the app.
pub fn app_config_dir(config_dir: Option<String>, current_dir: Option<String>) -> (dir: PathParts)
    ensures
        dir.deep_view() == app_dir(config_dir.deep_view(), current_dir.deep_view()),
{
    let dir = match (&config_dir, &current_dir) {
        (Some(dir), _) => PathParts::from_text(dir.as_str()).join(APP_NAME),
        (None, Some(dir)) => PathParts::from_text(dir.as_str()).join(STATE_DIR),
        (None, None) => PathParts::from_text(".").join(STATE_DIR),
    };
    assert(dir.deep_view() =~= app_dir(config_dir.deep_view(), current_dir.deep_view()));
    dir
}

/// The file that holds the state.
pub fn state_path(config_dir: Option<String>, current_dir: Option<String>) -> (path: PathParts)
    ensures
        path.deep_view() == app_dir(config_dir.deep_view(), current_dir.deep_view()).push(
            STATE_FILE@,
        ),
{
    app_config_dir(config_dir, current_dir).join(STATE_FILE)
}

/// The file that holds the crash reports.
pub fn crash_log_path(config_dir: Option<String>, current_dir: Option<String>) -> (path: PathParts)
    ensures
        path.deep_view() == app_dir(config_dir.deep_view(), current_dir.deep_view()).push(
            CRASH_LOG_FILE@,
        ),
{
    app_config_dir(config_dir, current_dir).join(CRASH_LOG_FILE)
}

/// What to do after an attempt to put the new file in the place of the old one.
#[derive(Clone, Copy, Debug, PartialEq, Eq, Structural)]
pub enum ReplaceStep {
    Done,
    RemoveOldAndRetry,
    Fail,
}

/// What to do after the first attempt to put the new file in the place of the old one.
pub fn after_first_rename(renamed: bool, old_exists: bool) -> (step: ReplaceStep)
    ensures
        step == if renamed {
            ReplaceStep::Done
        } else if old_exists {
            ReplaceStep::RemoveOldAndRetry
        } else {
            ReplaceStep::Fail
        },
{
    if renamed {
        ReplaceStep::Done
    } else if old_exists {
        ReplaceStep::RemoveOldAndRetry
    } else {
        ReplaceStep::Fail
    }
}

/// What the file of an earlier launch does not hold is as it is at first: alarms wait for games,
/// the sound is the one that comes with the app, the port is 31990, the theme is that of the
/// system, and there are no alarms, no log and no bridge.
pub proof fn missing_settings_are_as_at_first(saved: SavedState, gsi_config_path: Seq<char>)
    ensures
        ({
            let state = completed_state(saved, gsi_config_path);
            &&& saved.delay_for_games is None ==> state.delay_for_games
            &&& saved.sound_path is None ==> state.sound_path == "sounds/universfield-alarm.mp3"@
            &&& saved.counter_strike_2_gsi_port is None ==> state.counter_strike_2_gsi_port
                == 31990
            &&& saved.counter_strike_2_gsi_config_path is None
                ==> state.counter_strike_2_gsi_config_path == gsi_config_path
            &&& saved.logs is None ==> state.logs.len() == 0
            &&& saved.alarms is None ==> state.alarms.len() == 0
            &&& saved.theme_preference is None ==> state.theme_preference
                == PersistedThemePreference::System
            &&& saved.graphics_backend_preference is None ==> state.graphics_backend_preference
                == PersistedGraphicsBackendPreference::Auto
            &&& saved.discord_bridge is None ==> {
                &&& state.discord_bridge.bridge_url == discord_bridge::DEFAULT_BRIDGE_URL@
                &&& state.discord_bridge.companion_id.len() == 0
                &&& state.discord_bridge.api_token.len() == 0
                &&& state.discord_bridge.pairing_code.len() == 0
                &&& state.discord_bridge.pairing_expires_at is None
                &&& state.discord_bridge.paired_discord_user_id is None
                &&& state.discord_bridge.paired_discord_user_label is None
                &&& state.discord_bridge.allowed_requester_ids.len() == 0
                &&& state.discord_bridge.allowed_requesters.len() == 0
                &&& !state.discord_bridge.poll_enabled
            }
        }),
{
}

/// What the file of an earlier launch holds is taken over, whatever else is missing in it.
pub proof fn saved_settings_are_taken_over(saved: SavedState, gsi_config_path: Seq<char>)
    ensures
        ({
            let state = completed_state(saved, gsi_config_path);
            &&& state.label == saved.label@
            &&& state.alarm_time == saved.alarm_time@
            &&& state.lockfile_path == saved.lockfile_path@
            &&& saved.delay_for_games matches Some(delay) ==> state.delay_for_games == delay
            &&& saved.sound_path matches Some(path) ==> state.sound_path == path@
            &&& saved.counter_strike_2_gsi_port matches Some(port)
                ==> state.counter_strike_2_gsi_port == port
            &&& saved.counter_strike_2_gsi_config_path matches Some(path)
                ==> state.counter_strike_2_gsi_config_path == path@
            &&& saved.logs matches Some(logs) ==> state.logs == logs.deep_view()
            &&& saved.alarms matches Some(alarms) ==> state.alarms == alarms.deep_view()
            &&& saved.last_reported_crash_fingerprint matches Some(f)
                ==> state.last_reported_crash_fingerprint == Some(f@)
            &&& saved.last_reported_crash_fingerprint is None
                ==> state.last_reported_crash_fingerprint is None
            &&& saved.theme_preference matches Some(theme) ==> state.theme_preference == theme
            &&& saved.graphics_backend_preference matches Some(backend)
                ==> state.graphics_backend_preference == backend
            &&& saved.discord_bridge matches Some(bridge) ==> state.discord_bridge
                == bridge.deep_view()
        }),
{
}

/// Before anything was kept, the state is what a file without anything optional gives, with a
/// time to start from and nothing typed in.
pub proof fn fresh_state_has_nothing_typed_in(gsi_config_path: Seq<char>)
    ensures
        fresh_state(gsi_config_path).label.len() == 0,
        fresh_state(gsi_config_path).lockfile_path.len() == 0,
        fresh_state(gsi_config_path).alarm_time == "19:30"@,
        fresh_state(gsi_config_path).delay_for_games,
        fresh_state(gsi_config_path).alarms.len() == 0,
        fresh_state(gsi_config_path).logs.len() == 0,
        fresh_state(gsi_config_path).last_reported_crash_fingerprint is None,
        fresh_state(gsi_config_path).counter_strike_2_gsi_config_path == gsi_config_path,
{
}

/// The app keeps its files under the directory for settings if there is one, else under the one
/// that it was started in, and never under both.
pub proof fn files_are_kept_in_one_place(dir: Seq<char>, other: Option<Seq<char>>)
    ensures
        app_dir(Some(dir), other).len() == 2,
        app_dir(Some(dir), other)[0] == dir,
        app_dir(Some(dir), other) == app_dir(Some(dir), None),
        app_dir(None, Some(dir)).len() == 2,
        app_dir(None, Some(dir))[0] == dir,
        app_dir(None, Some(dir))[1] == ".alarm_at_game_end"@,
        app_dir(None, None)[0] == "."@,
        app_dir(None, None)[1] == ".alarm_at_game_end"@,
{
}

} // verus!
