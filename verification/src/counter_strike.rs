//! Counter-Strike 2: the game state integration (GSI), its configuration, and what it reports.
use vstd::prelude::*;

use crate::game::{GameStatus, GameStatusModel};
use crate::json;
use crate::json::{parse_json_bytes, Json};
use crate::paths::PathParts;
use crate::seqs;
use crate::text;

verus! {

pub const COUNTER_STRIKE_2_GAME_NAME: &'static str = "Counter-Strike 2";

pub const DEFAULT_COUNTER_STRIKE_2_GSI_PORT: u16 = 31990;

pub const COUNTER_STRIKE_2_GSI_CONFIG_FILENAME: &'static str =
    "gamestate_integration_alarm_at_game_end.cfg";

/// The nanoseconds after which a report counts as old.
pub const GSI_STALE_AFTER_NANOS: u128 = 15_000_000_000;

/// How the configuration of the integration is found.
#[derive(Clone, Copy, Debug, PartialEq, Eq, Structural)]
pub enum Cs2GsiConfigStatus {
    BlankPath,
    Missing,
    Installed,
    NeedsUpdate,
    Unreadable,
}

impl DeepView for Cs2GsiConfigStatus {
    type V = Cs2GsiConfigStatus;

    open spec fn deep_view(&self) -> Cs2GsiConfigStatus {
        *self
    }
}

impl Cs2GsiConfigStatus {
    /// What the button says that installs the configuration.
    pub open spec fn button_words(self) -> Seq<char> {
        if self is NeedsUpdate {
            "Update CS2 GSI Config"@
        } else {
            "Install CS2 GSI Config"@
        }
    }

    /// What the user is told.
    pub open spec fn words(self) -> Seq<char> {
        match self {
            Cs2GsiConfigStatus::BlankPath => "Choose a CS2 GSI config path before installing."@,
            Cs2GsiConfigStatus::Missing =>
                "Install once and restart CS2 so alarms only wait during active matches."@,
            Cs2GsiConfigStatus::Installed => "CS2 GSI config is installed."@,
            Cs2GsiConfigStatus::NeedsUpdate =>
                "Update the CS2 GSI config after changing the port or path."@,
            Cs2GsiConfigStatus::Unreadable => "The CS2 GSI config could not be checked."@,
        }
    }

    /// Whether there is something to install.
    pub fn needs_install_action(self) -> (needs: bool)
        ensures
            needs == !(self is Installed),
    {
        !matches!(self, Cs2GsiConfigStatus::Installed)
    }

    /// What the button says that installs the configuration.
    pub fn install_button_label(self) -> (label: &'static str)
        ensures
            label@ == self.button_words(),
    {
        match self {
            Cs2GsiConfigStatus::NeedsUpdate => "Update CS2 GSI Config",
            _ => "Install CS2 GSI Config",
        }
    }

    /// What the user is told.
    pub fn message(self) -> (message: &'static str)
        ensures
            message@ == self.words(),
    {
        match self {
            Cs2GsiConfigStatus::BlankPath => "Choose a CS2 GSI config path before installing.",
            Cs2GsiConfigStatus::Missing => {
                "Install once and restart CS2 so alarms only wait during active matches."
            },
            Cs2GsiConfigStatus::Installed => "CS2 GSI config is installed.",
            Cs2GsiConfigStatus::NeedsUpdate => {
                "Update the CS2 GSI config after changing the port or path."
            },
            Cs2GsiConfigStatus::Unreadable => "The CS2 GSI config could not be checked.",
        }
    }
}

/// What went wrong with the integration.
#[derive(Clone, Copy, Debug, PartialEq, Eq, Structural)]
pub enum Cs2GsiError {
    Io,
}

impl Cs2GsiError {
    /// What the user is told.
    pub fn message(self) -> (message: String)
        ensures
            message@ == "could not access Counter-Strike 2 GSI config"@,
    {
        "could not access Counter-Strike 2 GSI config".to_owned()
    }
}

/// The port to use: the default where none is set.
pub open spec fn effective_port(port: u16) -> u16 {
    if port == 0 {
        DEFAULT_COUNTER_STRIKE_2_GSI_PORT
    } else {
        port
    }
}

/// The port to use: the default where none is set.
pub fn normalize_gsi_port(port: u16) -> (effective: u16)
    ensures
        effective == effective_port(port),
{
    if port == 0 {
        DEFAULT_COUNTER_STRIKE_2_GSI_PORT
    } else {
        port
    }
}

/// The port to listen on instead, if a configuration asks for another one than the current.
pub fn changed_gsi_port(current: u16, configured: u16) -> (changed: Option<u16>)
    ensures
        changed == if effective_port(configured) == current {
            None
        } else {
            Some(effective_port(configured))
        },
{
    let port: u16 = normalize_gsi_port(configured);
    if port == current {
        None
    } else {
        Some(port)
    }
}

/// What there is to know of the system when looking for the configuration directory of the game.
#[derive(Debug)]
pub struct SteamEnvironment {
    pub on_windows: bool,
    pub program_files_x86: Option<String>,
    pub program_files: Option<String>,
    pub home: Option<String>,
}

/// The configuration directory of the game under the directory that holds its installation.
pub open spec fn cfg_dir_under(steam: Seq<Seq<char>>) -> Seq<Seq<char>> {
    steam + seq![
        "steamapps"@,
        "common"@,
        "Counter-Strike Global Offensive"@,
        "game"@,
        "csgo"@,
        "cfg"@,
    ]
}

/// The configuration directory of the game, if it can be guessed.
pub open spec fn default_cfg_dir(environment: SteamEnvironment) -> Option<Seq<Seq<char>>> {
    if environment.on_windows {
        match (environment.program_files_x86, environment.program_files) {
            (Some(root), _) => Some(cfg_dir_under(seq![root@, "Steam"@])),
            (None, Some(root)) => Some(cfg_dir_under(seq![root@, "Steam"@])),
            (None, None) => None,
        }
    } else {
        match environment.home {
            Some(home) => Some(cfg_dir_under(seq![home@, ".steam"@, "steam"@])),
            None => None,
        }
    }
}

fn cfg_dir_in(steam: PathParts) -> (dir: PathParts)
    ensures
        dir.deep_view() == cfg_dir_under(steam.deep_view()),
{
    let dir = steam.join("steamapps").join("common").join("Counter-Strike Global Offensive").join(
        "game",
    ).join("csgo").join("cfg");
    assert(dir.deep_view() =~= cfg_dir_under(steam.deep_view()));
    dir
}

/// The configuration directory of the game, if it can be guessed.
pub fn default_counter_strike_2_cfg_dir(environment: &SteamEnvironment) -> (dir: Option<PathParts>)
    ensures
        dir.deep_view() == default_cfg_dir(*environment),
{
    if environment.on_windows {
        let root: &String = match (&environment.program_files_x86, &environment.program_files) {
            (Some(root), _) => root,
            (None, Some(root)) => root,
            (None, None) => {
                return None;
            },
        };
        let steam = PathParts::from_text(root.as_str()).join("Steam");
        assert(steam.deep_view() =~= seq![root@, "Steam"@]);
        Some(cfg_dir_in(steam))
    } else {
        match &environment.home {
            Some(home) => {
                let steam = PathParts::from_text(home.as_str()).join(".steam").join("steam");
                assert(steam.deep_view() =~= seq![home@, ".steam"@, "steam"@]);
                Some(cfg_dir_in(steam))
            },
            None => None,
        }
    }
}

/// The path of the configuration to suggest.
pub fn default_counter_strike_2_gsi_config_path(environment: &SteamEnvironment) -> (path: PathParts)
    ensures
        path.deep_view() == match default_cfg_dir(*environment) {
            Some(dir) => dir.push(COUNTER_STRIKE_2_GSI_CONFIG_FILENAME@),
            None => seq![COUNTER_STRIKE_2_GSI_CONFIG_FILENAME@],
        },
{
    match default_counter_strike_2_cfg_dir(environment) {
        Some(dir) => dir.join(COUNTER_STRIKE_2_GSI_CONFIG_FILENAME),
        None => PathParts::from_text(COUNTER_STRIKE_2_GSI_CONFIG_FILENAME),
    }
}

/// The configuration up to the entry that names the port.
pub const CONFIG_START: &'static str = "\"Alarm at Game End\"\n{\n    ";

/// The entry that names the port, up to the port.
pub const URI_START: &'static str = "\"uri\" \"http://127.0.0.1:";

/// The entry that names the port, from the port on.
pub const URI_END: &'static str = "/cs2\"";

/// The configuration after the entry that names the port, up to the entry for the map.
pub const CONFIG_MIDDLE: &'static str =
    "\n    \"timeout\" \"5.0\"\n    \"buffer\" \"0.5\"\n    \"throttle\" \"1.0\"\n    \"heartbeat\" \"5.0\"\n    \"data\"\n    {\n        \"provider\" \"1\"\n        ";

/// The entry that asks for reports of the map.
pub const MAP_ENTRY: &'static str = "\"map\" \"1\"";

/// The configuration after the entry for the map.
pub const CONFIG_END: &'static str = "\n    }\n}\n";

/// The entry of a configuration that names the port.
pub open spec fn uri_entry(port: u16) -> Seq<char> {
    URI_START@ + text::decimal(port as nat) + URI_END@
}

/// The configuration that makes the game report to a port.
pub open spec fn config_text(port: u16) -> Seq<char> {
    CONFIG_START@ + uri_entry(port) + CONFIG_MIDDLE@ + MAP_ENTRY@ + CONFIG_END@
}

fn uri_entry_text(port: u16) -> (entry: String)
    ensures
        entry@ == uri_entry(port),
{
    let mut entry = URI_START.to_owned();
    text::push_decimal(&mut entry, port as u128);
    entry.append(URI_END);
    entry
}

/// The configuration that makes the game report to a port.
pub fn gsi_config_contents(port: u16) -> (contents: String)
    ensures
        contents@ == config_text(port),
{
    let mut contents = CONFIG_START.to_owned();
    contents.append(uri_entry_text(port).as_str());
    contents.append(CONFIG_MIDDLE);
    contents.append(MAP_ENTRY);
    contents.append(CONFIG_END);
    contents
}

/// What is written when the configuration is installed.
pub fn config_to_install(port: u16) -> (contents: String)
    ensures
        contents@ == config_text(effective_port(port)),
{
    gsi_config_contents(normalize_gsi_port(port))
}

/// Whether a configuration makes the game report the map to a port.
pub open spec fn config_matches(contents: Seq<char>, port: u16) -> bool {
    text::occurs_in(contents, uri_entry(effective_port(port))) && text::occurs_in(
        contents,
        MAP_ENTRY@,
    )
}

/// Whether a configuration makes the game report the map to a port.
pub fn gsi_config_matches_current_settings(contents: &str, port: u16) -> (matching: bool)
    ensures
        matching == config_matches(contents@, port),
{
    let entry = uri_entry_text(normalize_gsi_port(port));
    text::contains(contents, entry.as_str()) && text::contains(contents, MAP_ENTRY)
}

/// In a configuration, the letters that begin the name of the entry for the port stand in no
/// other place.
proof fn lemma_uri_entry_stands_alone(port: u16, at: int)
    requires
        0 <= at,
        at + 1 < config_text(port).len(),
        config_text(port)[at] == 'u',
        config_text(port)[at + 1] == 'r',
    ensures
        at == CONFIG_START@.len() + 1,
{
    let start = CONFIG_START@;
    let head = URI_START@;
    let number = text::decimal(port as nat);
    let tail = URI_END@;
    let middle = CONFIG_MIDDLE@;
    let map = MAP_ENTRY@;
    let end = CONFIG_END@;
    let whole = config_text(port);
    text::decimal_reads_back(port as nat);
    reveal_strlit("\"Alarm at Game End\"\n{\n    ");
    reveal_strlit("\"uri\" \"http://127.0.0.1:");
    reveal_strlit("/cs2\"");
    reveal_strlit(
        "\n    \"timeout\" \"5.0\"\n    \"buffer\" \"0.5\"\n    \"throttle\" \"1.0\"\n    \"heartbeat\" \"5.0\"\n    \"data\"\n    {\n        \"provider\" \"1\"\n        ",
    );
    reveal_strlit("\"map\" \"1\"");
    reveal_strlit("\n    }\n}\n");
    let p1 = start.len() as int;
    let p2 = p1 + head.len();
    let p3 = p2 + number.len();
    let p4 = p3 + tail.len();
    let p5 = p4 + middle.len();
    let p6 = p5 + map.len();
    if at < p1 {
        assert(whole[at] == start[at]);
    } else if at < p2 {
        assert(whole[at] == head[at - p1]);
    } else if at < p3 {
        assert(whole[at] == number[at - p2]);
        assert(text::is_digit(number[at - p2]));
    } else if at < p4 {
        assert(whole[at] == tail[at - p3]);
    } else if at < p5 {
        assert(whole[at] == middle[at - p4]);
        if at + 1 < p5 {
            assert(whole[at + 1] == middle[at - p4 + 1]);
        }
    } else if at < p6 {
        assert(whole[at] == map[at - p5]);
    } else {
        assert(whole[at] == end[at - p6]);
    }
}

/// Two numbers whose digits are followed by a slash in the same text are the same.
proof fn lemma_same_number(a: nat, b: nat, x: Seq<char>, y: Seq<char>)
    requires
        x.len() > 0,
        x[0] == '/',
        y.len() > 0,
        y[0] == '/',
        forall|i: int|
            0 <= i < text::decimal(b).len() + 1 && i < (text::decimal(a) + x).len() ==> (
            text::decimal(a) + x)[i] == #[trigger] (text::decimal(b) + y)[i],
        text::decimal(b).len() + 1 <= (text::decimal(a) + x).len(),
    ensures
        a == b,
{
    let da = text::decimal(a);
    let db = text::decimal(b);
    text::decimal_reads_back(a);
    text::decimal_reads_back(b);
    if da.len() < db.len() {
        assert((da + x)[da.len() as int] == (db + y)[da.len() as int]);
        assert(text::is_digit(db[da.len() as int]));
    } else if db.len() < da.len() {
        assert((da + x)[db.len() as int] == (db + y)[db.len() as int]);
        assert(text::is_digit(da[db.len() as int]));
    } else {
        assert forall|i: int| 0 <= i < da.len() implies da[i] == db[i] by {
            assert((da + x)[i] == (db + y)[i]);
        }
        assert(da =~= db);
    }
}

/// Where a text stands right behind `start` and begins with `head`, what follows `head` is the
/// same in both.
proof fn lemma_behind_head(
    start: Seq<char>,
    head: Seq<char>,
    rest: Seq<char>,
    tail: Seq<char>,
    i: int,
)
    requires
        text::occurs_at(start + head + rest, head + tail, start.len() as int),
        0 <= i < tail.len(),
    ensures
        i < rest.len(),
        rest[i] == tail[i],
{
    let whole = start + head + rest;
    let needle = head + tail;
    let at = start.len() as int;
    let part = whole.subrange(at, at + needle.len());
    assert(part[head.len() + i] == needle[head.len() + i]);
    assert(whole[start.len() + head.len() + i] == rest[i]);
}

proof fn lemma_config_names_only_its_port(written_for: u16, wanted: u16, at: int)
    requires
        text::occurs_at(config_text(written_for), uri_entry(wanted), at),
    ensures
        wanted == written_for,
{
    let whole = config_text(written_for);
    let needle = uri_entry(wanted);
    let start = CONFIG_START@;
    let head = URI_START@;
    let da = text::decimal(written_for as nat);
    let db = text::decimal(wanted as nat);
    let x = URI_END@ + CONFIG_MIDDLE@ + MAP_ENTRY@ + CONFIG_END@;
    let y = URI_END@;
    let part = whole.subrange(at, at + needle.len());
    assert(y.len() > 0 && y[0] == '/' && head.len() > 2 && head[1] == 'u' && head[2] == 'r') by {
        reveal_strlit("/cs2\"");
        reveal_strlit("\"uri\" \"http://127.0.0.1:");
    }
    assert(part[1] == needle[1] && part[2] == needle[2]);
    assert(needle[1] == head[1] && needle[2] == head[2]);
    assert(whole[at + 1] == 'u' && whole[at + 2] == 'r');
    lemma_uri_entry_stands_alone(written_for, at + 1);
    assert(whole =~= start + head + (da + x));
    assert(needle =~= head + (db + y));
    assert forall|i: int|
        0 <= i < db.len() + 1 && i < (da + x).len() implies (da + x)[i] == #[trigger] (db + y)[i] by {
        lemma_behind_head(start, head, da + x, db + y, i);
    }
    lemma_behind_head(start, head, da + x, db + y, db.len() as int);
    assert(x[0] == '/');
    lemma_same_number(written_for as nat, wanted as nat, x, y);
}

/// The configuration that is written for a port matches that port, and no other.
pub proof fn written_config_matches_only_its_port(written_for: u16, port: u16)
    ensures
        config_matches(config_text(written_for), port) <==> effective_port(port) == written_for,
{
    let whole = config_text(written_for);
    let wanted = effective_port(port);
    if wanted == written_for {
        let at = CONFIG_START@.len() as int;
        let entry = uri_entry(wanted);
        let before_map = CONFIG_START@ + entry + CONFIG_MIDDLE@;
        assert(whole.subrange(at, at + entry.len()) =~= entry);
        assert(text::occurs_at(whole, entry, at));
        assert(whole.subrange(
            before_map.len() as int,
            (before_map.len() + MAP_ENTRY@.len()) as int,
        ) =~= MAP_ENTRY@);
        assert(text::occurs_at(whole, MAP_ENTRY@, before_map.len() as int));
    }
    if text::occurs_in(whole, uri_entry(wanted)) {
        let at = choose|at: int| text::occurs_at(whole, uri_entry(wanted), at);
        lemma_config_names_only_its_port(written_for, wanted, at);
    }
}

/// What came of reading the configuration.
#[derive(Debug)]
pub enum ConfigRead {
    NoPath,
    NotFound,
    Unreadable,
    Contents(String),
}

/// How the configuration is found.
pub open spec fn config_status(read: ConfigRead, port: u16) -> Cs2GsiConfigStatus {
    match read {
        ConfigRead::NoPath => Cs2GsiConfigStatus::BlankPath,
        ConfigRead::NotFound => Cs2GsiConfigStatus::Missing,
        ConfigRead::Unreadable => Cs2GsiConfigStatus::Unreadable,
        ConfigRead::Contents(contents) => if config_matches(contents@, port) {
            Cs2GsiConfigStatus::Installed
        } else {
            Cs2GsiConfigStatus::NeedsUpdate
        },
    }
}

/// How the configuration is found.
pub fn counter_strike_2_gsi_config_status(read: &ConfigRead, port: u16) -> (status:
    Cs2GsiConfigStatus)
    ensures
        status == config_status(*read, port),
{
    match read {
        ConfigRead::NoPath => Cs2GsiConfigStatus::BlankPath,
        ConfigRead::NotFound => Cs2GsiConfigStatus::Missing,
        ConfigRead::Unreadable => Cs2GsiConfigStatus::Unreadable,
        ConfigRead::Contents(contents) => {
            if gsi_config_matches_current_settings(contents.as_str(), port) {
                Cs2GsiConfigStatus::Installed
            } else {
                Cs2GsiConfigStatus::NeedsUpdate
            }
        },
    }
}

/// A configuration that was installed for a port is found installed as long as that port is
/// set, and in need of an update when another one is.
pub proof fn installed_config_is_recognized(contents: String, installed_for: u16, port: u16)
    requires
        contents@ == config_text(effective_port(installed_for)),
    ensures
        config_status(ConfigRead::Contents(contents), port) == if effective_port(port)
            == effective_port(installed_for) {
            Cs2GsiConfigStatus::Installed
        } else {
            Cs2GsiConfigStatus::NeedsUpdate
        },
{
    written_config_matches_only_its_port(effective_port(installed_for), port);
}

/// The last report of the game. Times are nanoseconds on a clock that never goes back.
#[derive(Debug, PartialEq, Eq)]
pub struct Cs2GsiSnapshot {
    pub last_payload_at: Option<u128>,
    pub map_present: bool,
    pub map_name: Option<String>,
    pub map_phase: Option<String>,
}

/// The model of the last report.
#[verifier::ext_equal]
pub struct SnapshotModel {
    pub last_payload_at: Option<u128>,
    pub map_present: bool,
    pub map_name: Option<Seq<char>>,
    pub map_phase: Option<Seq<char>>,
}

impl DeepView for Cs2GsiSnapshot {
    type V = SnapshotModel;

    open spec fn deep_view(&self) -> SnapshotModel {
        SnapshotModel {
            last_payload_at: self.last_payload_at,
            map_present: self.map_present,
            map_name: self.map_name.deep_view(),
            map_phase: self.map_phase.deep_view(),
        }
    }
}

impl Clone for Cs2GsiSnapshot {
    fn clone(&self) -> (copy: Cs2GsiSnapshot)
        ensures
            copy == *self,
    {
        Cs2GsiSnapshot {
            last_payload_at: self.last_payload_at,
            map_present: self.map_present,
            map_name: self.map_name.clone(),
            map_phase: self.map_phase.clone(),
        }
    }
}

impl Default for Cs2GsiSnapshot {
    fn default() -> (snapshot: Cs2GsiSnapshot)
        ensures
            snapshot.deep_view() == (SnapshotModel {
                last_payload_at: None,
                map_present: false,
                map_name: None,
                map_phase: None,
            }),
    {
        Cs2GsiSnapshot {
            last_payload_at: None,
            map_present: false,
            map_name: None,
            map_phase: None,
        }
    }
}

/// What is shown of a map, with what to show when nothing is known of it.
pub open spec fn map_words(snapshot: SnapshotModel, fallback: Seq<char>) -> Seq<char> {
    match (snapshot.map_name, snapshot.map_phase) {
        (Some(name), Some(phase)) => name + " ("@ + phase + ")"@,
        (Some(name), None) => name,
        (None, Some(phase)) => phase,
        (None, None) => fallback,
    }
}

/// What is shown of a map, with what to show when nothing is known of it.
pub fn map_detail(snapshot: &Cs2GsiSnapshot, fallback: &str) -> (detail: String)
    ensures
        detail@ == map_words(snapshot.deep_view(), fallback@),
{
    match (&snapshot.map_name, &snapshot.map_phase) {
        (Some(name), Some(phase)) => {
            let mut detail = name.clone();
            detail.append(" (");
            detail.append(phase.as_str());
            detail.append(")");
            detail
        },
        (Some(name), None) => name.clone(),
        (None, Some(phase)) => phase.clone(),
        (None, None) => fallback.to_owned(),
    }
}

/// Whether a match is over.
pub open spec fn match_is_over(snapshot: SnapshotModel) -> bool {
    match snapshot.map_phase {
        Some(phase) => text::same_ignoring_ascii_case(phase, "gameover"@),
        None => false,
    }
}

/// Whether a report is too old to count at a time.
pub open spec fn is_stale(last_payload_at: u128, now: u128) -> bool {
    now - last_payload_at > GSI_STALE_AFTER_NANOS
}

/// What the last report says of the game at a time.
pub open spec fn snapshot_status(port: u16, snapshot: SnapshotModel, now: u128) -> GameStatusModel {
    let inactive = |detail: Seq<char>|
        GameStatusModel::Inactive { game: COUNTER_STRIKE_2_GAME_NAME@, detail: Some(detail) };
    match snapshot.last_payload_at {
        None => inactive(
            "waiting for GSI updates on 127.0.0.1:"@ + text::decimal(port as nat),
        ),
        Some(at) => if is_stale(at, now) {
            inactive("no recent GSI updates"@)
        } else if !snapshot.map_present {
            inactive("client open, not connected to a server"@)
        } else if match_is_over(snapshot) {
            inactive(map_words(snapshot, "match ended"@))
        } else {
            GameStatusModel::Active {
                game: COUNTER_STRIKE_2_GAME_NAME@,
                detail: Some(map_words(snapshot, "server connected"@)),
            }
        },
    }
}

/// What the last report says of the game at a time.
pub fn status_from_gsi_snapshot(port: u16, snapshot: &Cs2GsiSnapshot, now: u128) -> (status:
    GameStatus)
    ensures
        status.deep_view() == snapshot_status(port, snapshot.deep_view(), now),
{
    let last_payload_at: u128 = match snapshot.last_payload_at {
        Some(at) => at,
        None => {
            let mut detail = "waiting for GSI updates on 127.0.0.1:".to_owned();
            text::push_decimal(&mut detail, port as u128);
            return GameStatus::inactive(COUNTER_STRIKE_2_GAME_NAME, Some(detail));
        },
    };
    if now > last_payload_at && now - last_payload_at > GSI_STALE_AFTER_NANOS {
        return GameStatus::inactive(
            COUNTER_STRIKE_2_GAME_NAME,
            Some("no recent GSI updates".to_owned()),
        );
    }
    if !snapshot.map_present {
        return GameStatus::inactive(
            COUNTER_STRIKE_2_GAME_NAME,
            Some("client open, not connected to a server".to_owned()),
        );
    }
    let over: bool = match &snapshot.map_phase {
        Some(phase) => text::eq_ignoring_ascii_case(phase.as_str(), "gameover"),
        None => false,
    };
    if over {
        return GameStatus::inactive(
            COUNTER_STRIKE_2_GAME_NAME,
            Some(map_detail(snapshot, "match ended")),
        );
    }
    GameStatus::active(
        COUNTER_STRIKE_2_GAME_NAME,
        Some(map_detail(snapshot, "server connected")),
    )
}

/// A report of a match that goes on counts as a game for as long as it is fresh, and no longer:
/// the game is active exactly from the report to the moment when the report is old.
pub proof fn reports_go_stale(port: u16, snapshot: SnapshotModel, at: u128, now: u128)
    requires
        snapshot.last_payload_at == Some(at),
        at <= now,
        snapshot.map_present,
        !match_is_over(snapshot),
    ensures
        snapshot_status(port, snapshot, now) is Active <==> now - at <= GSI_STALE_AFTER_NANOS,
{
}

/// A member of the map that is a text and not empty.
pub open spec fn filled_text(map: Option<json::JsonModel>, name: Seq<char>) -> Option<Seq<char>> {
    match map {
        Some(m) => match m.member(name) {
            Some(value) => match value.text() {
                Some(t) => if t.len() > 0 {
                    Some(t)
                } else {
                    None
                },
                None => None,
            },
            None => None,
        },
        None => None,
    }
}

/// The map in a report, if it has one.
pub open spec fn map_in(report: json::JsonModel) -> Option<json::JsonModel> {
    match report.member("map"@) {
        Some(map) => if map is Object {
            Some(map)
        } else {
            None
        },
        None => None,
    }
}

/// What is kept of a report that came at a time. What is no report changes nothing.
pub open spec fn snapshot_after(
    before: SnapshotModel,
    report: Option<json::JsonModel>,
    now: u128,
) -> SnapshotModel {
    match report {
        Some(r) => SnapshotModel {
            last_payload_at: Some(now),
            map_present: map_in(r) is Some,
            map_name: filled_text(map_in(r), "name"@),
            map_phase: filled_text(map_in(r), "phase"@),
        },
        None => before,
    }
}

/// Only the last report counts: what was known before a report that can be read does not matter
/// any more. What cannot be read changes nothing.
pub proof fn only_the_last_report_counts(
    before: SnapshotModel,
    other: SnapshotModel,
    report: json::JsonModel,
    now: u128,
)
    ensures
        snapshot_after(before, Some(report), now) == snapshot_after(other, Some(report), now),
        snapshot_after(before, Some(report), now).last_payload_at == Some(now),
        snapshot_after(before, None, now) == before,
{
}

/// A report has a map when its member for that is an object. The name and the phase of the map
/// are kept where they are texts that are not empty.
pub proof fn report_with_a_map(
    before: SnapshotModel,
    members: Seq<(Seq<char>, json::JsonModel)>,
    inner: Seq<(Seq<char>, json::JsonModel)>,
    i: int,
    now: u128,
)
    requires
        json::is_member_at(members, "map"@, i),
        members[i].1 == json::JsonModel::Object(inner),
    ensures
        ({
            let after = snapshot_after(before, Some(json::JsonModel::Object(members)), now);
            &&& after.map_present
            &&& after.last_payload_at == Some(now)
            &&& forall|k: int| #[trigger]
                json::is_member_at(inner, "name"@, k) ==> after.map_name == if inner[k].1 is Text
                    && inner[k].1->Text_0.len() > 0 {
                    Some(inner[k].1->Text_0)
                } else {
                    None
                }
            &&& forall|k: int| #[trigger]
                json::is_member_at(inner, "phase"@, k) ==> after.map_phase == if inner[k].1 is Text
                    && inner[k].1->Text_0.len() > 0 {
                    Some(inner[k].1->Text_0)
                } else {
                    None
                }
            &&& (forall|k: int| 0 <= k < inner.len() ==> (#[trigger] inner[k]).0 != "phase"@)
                ==> after.map_phase is None
            &&& (forall|k: int| 0 <= k < inner.len() ==> (#[trigger] inner[k]).0 != "name"@)
                ==> after.map_name is None
        }),
{
    json::first_member_is_found(members, "map"@, i);
    let after = snapshot_after(before, Some(json::JsonModel::Object(members)), now);
    assert forall|k: int| #[trigger] json::is_member_at(inner, "name"@, k) implies after.map_name
        == if inner[k].1 is Text && inner[k].1->Text_0.len() > 0 {
        Some(inner[k].1->Text_0)
    } else {
        None
    } by {
        json::first_member_is_found(inner, "name"@, k);
    }
    assert forall|k: int| #[trigger] json::is_member_at(inner, "phase"@, k) implies after.map_phase
        == if inner[k].1 is Text && inner[k].1->Text_0.len() > 0 {
        Some(inner[k].1->Text_0)
    } else {
        None
    } by {
        json::first_member_is_found(inner, "phase"@, k);
    }
    if forall|k: int| 0 <= k < inner.len() ==> (#[trigger] inner[k]).0 != "phase"@ {
        json::missing_member_is_not_found(inner, "phase"@);
    }
    if forall|k: int| 0 <= k < inner.len() ==> (#[trigger] inner[k]).0 != "name"@ {
        json::missing_member_is_not_found(inner, "name"@);
    }
}

/// Whoever leaves a match is in none: after a report without a map the game counts as not being
/// played, whatever was reported before.
pub proof fn report_without_a_map_ends_the_match(
    port: u16,
    before: SnapshotModel,
    report: json::JsonModel,
    now: u128,
    later: u128,
)
    requires
        report matches json::JsonModel::Object(members) ==> forall|i: int|
            json::is_member_at(members, "map"@, i) ==> !((#[trigger] members[i]).1 is Object),
    ensures
        !snapshot_after(before, Some(report), now).map_present,
        snapshot_after(before, Some(report), now).map_name is None,
        snapshot_after(before, Some(report), now).map_phase is None,
        snapshot_status(port, snapshot_after(before, Some(report), now), later) is Inactive,
{
    match report {
        json::JsonModel::Object(members) => {
            let pred = json::has_name("map"@);
            match seqs::first_where(members, pred) {
                Some(i) => {
                    assert(seqs::is_first(members, pred, i));
                    assert(json::is_member_at(members, "map"@, i));
                    assert(!(members[i].1 is Object));
                },
                None => {},
            }
        },
        _ => {},
    }
}

/// The game is being played exactly while a match is reported: the last report is no older than
/// 15 seconds, it has a map, and the match on it is not over. It is never unavailable.
pub proof fn match_is_on_while_it_is_reported(port: u16, snapshot: SnapshotModel, now: u128)
    ensures
        snapshot_status(port, snapshot, now) is Active <==> {
            &&& snapshot.last_payload_at is Some
            &&& now - snapshot.last_payload_at->0 <= 15_000_000_000
            &&& snapshot.map_present
            &&& !(snapshot.map_phase matches Some(phase) && text::same_ignoring_ascii_case(
                phase,
                "gameover"@,
            ))
        },
        match snapshot_status(port, snapshot, now) {
            GameStatusModel::Active { game, detail } => {
                &&& game == "Counter-Strike 2"@
                &&& detail is Some
                &&& snapshot.map_name matches Some(name) ==> {
                    &&& snapshot.map_phase matches Some(phase) ==> detail == Some(
                        name + " ("@ + phase + ")"@,
                    )
                    &&& snapshot.map_phase is None ==> detail == Some(name)
                }
                &&& snapshot.map_name is None ==> detail == Some(
                    match snapshot.map_phase {
                        Some(phase) => phase,
                        None => "server connected"@,
                    },
                )
            },
            GameStatusModel::Inactive { game, detail } => game == "Counter-Strike 2"@
                && detail is Some,
            GameStatusModel::Unavailable { .. } => false,
        },
{
}

/// Letters count the same in upper and in lower case when two texts are held against each other
/// without regard to case, and nothing else does.
pub proof fn gameover_in_any_case_ends_the_match(
    port: u16,
    snapshot: SnapshotModel,
    phase: Seq<char>,
    now: u128,
)
    requires
        snapshot.map_phase == Some(phase),
        phase == "gameover"@ || phase == "GAMEOVER"@ || phase == "GameOver"@,
    ensures
        snapshot_status(port, snapshot, now) is Inactive,
{
    reveal_strlit("gameover");
    reveal_strlit("GAMEOVER");
    reveal_strlit("GameOver");
    assert(text::same_ignoring_ascii_case(phase, "gameover"@));
}

/// The game reports to the port that is set, and to 31990 where none is.
pub proof fn port_is_the_one_that_is_set(port: u16)
    ensures
        port != 0 ==> effective_port(port) == port,
        effective_port(0) == 31990,
        text::occurs_in(
            config_text(port),
            "\"uri\" \"http://127.0.0.1:"@ + text::decimal(port as nat) + "/cs2\""@,
        ),
        text::occurs_in(config_text(port), "\"map\" \"1\""@),
{
    let whole = config_text(port);
    let at = CONFIG_START@.len() as int;
    let entry = uri_entry(port);
    let before_map = CONFIG_START@ + entry + CONFIG_MIDDLE@;
    assert(whole.subrange(at, at + entry.len()) =~= entry);
    assert(text::occurs_at(whole, entry, at));
    assert(whole.subrange(
        before_map.len() as int,
        (before_map.len() + MAP_ENTRY@.len()) as int,
    ) =~= MAP_ENTRY@);
    assert(text::occurs_at(whole, MAP_ENTRY@, before_map.len() as int));
}

/// A configuration counts as installed when it names the port that is set and asks for the map,
/// and as in need of an update otherwise.
pub proof fn config_counts_as_installed(contents: String, port: u16)
    ensures
        ({
            let used: u16 = if port == 0 {
                31990
            } else {
                port
            };
            let names_port = text::occurs_in(
                contents@,
                "\"uri\" \"http://127.0.0.1:"@ + text::decimal(used as nat) + "/cs2\""@,
            );
            let asks_for_map = text::occurs_in(contents@, "\"map\" \"1\""@);
            config_status(ConfigRead::Contents(contents), port) == if names_port && asks_for_map {
                Cs2GsiConfigStatus::Installed
            } else {
                Cs2GsiConfigStatus::NeedsUpdate
            }
        }),
        config_status(ConfigRead::NoPath, port) == Cs2GsiConfigStatus::BlankPath,
        config_status(ConfigRead::NotFound, port) == Cs2GsiConfigStatus::Missing,
        config_status(ConfigRead::Unreadable, port) == Cs2GsiConfigStatus::Unreadable,
{
}

fn non_empty_text(map: Option<&Json>, name: &str) -> (found: Option<String>)
    ensures
        found.deep_view() == filled_text(
            match map {
                Some(m) => Some(json::json_model(*m)),
                None => None,
            },
            name@,
        ),
{
    match map {
        Some(map) => match map.member(name) {
            Some(value) => match value.as_str() {
                Some(t) => {
                    if t.is_empty() {
                        None
                    } else {
                        Some(t.to_owned())
                    }
                },
                None => None,
            },
            None => None,
        },
        None => None,
    }
}

/// Keeps what a report says, given the value that the report holds.
pub fn apply_report(state: &mut Cs2GsiSnapshot, report: Option<Json>, now: u128)
    ensures
        final(state).deep_view() == snapshot_after(
            old(state).deep_view(),
            json::maybe_json_model(report),
            now,
        ),
{
    let value = match report {
        Some(value) => value,
        None => {
            return ;
        },
    };
    let map: Option<&Json> = match value.member("map") {
        Some(map) => {
            if map.is_object() {
                Some(map)
            } else {
                None
            }
        },
        None => None,
    };
    let map_name = non_empty_text(map, "name");
    let map_phase = non_empty_text(map, "phase");
    *state = Cs2GsiSnapshot {
        last_payload_at: Some(now),
        map_present: map.is_some(),
        map_name,
        map_phase,
    };
}

/// Keeps what the body of a request says.
pub fn update_gsi_state(body: &Vec<u8>, state: &mut Cs2GsiSnapshot, now: u128)
    ensures
        final(state).deep_view() == snapshot_after(
            old(state).deep_view(),
            json::json_in_bytes(body@),
            now,
        ),
{
    apply_report(state, parse_json_bytes(body), now);
}

/// On Windows the configuration is suggested under the directory for 32-bit programs, or else
/// under that for programs; elsewhere it is suggested under the home directory. What the other
/// systems would use does not matter.
pub proof fn config_is_suggested_under_steam(environment: SteamEnvironment, root: String)
    ensures
        ({
            let dir = default_cfg_dir(environment);
            let below = seq![
                "steamapps"@,
                "common"@,
                "Counter-Strike Global Offensive"@,
                "game"@,
                "csgo"@,
                "cfg"@,
            ];
            &&& environment.on_windows && environment.program_files_x86 == Some(root) ==> dir
                == Some(seq![root@, "Steam"@] + below)
            &&& environment.on_windows && environment.program_files_x86 is None
                && environment.program_files == Some(root) ==> dir == Some(
                seq![root@, "Steam"@] + below,
            )
            &&& environment.on_windows && environment.program_files_x86 is None
                && environment.program_files is None ==> dir is None
            &&& !environment.on_windows && environment.home == Some(root) ==> dir == Some(
                seq![root@, ".steam"@, "steam"@] + below,
            )
            &&& !environment.on_windows && environment.home is None ==> dir is None
        }),
{
}

} // verus!
