//! League of Legends: where its lockfile is, and what its client says.
use base64::engine::general_purpose::STANDARD;
use base64::Engine;
use vstd::prelude::*;

use crate::alarm::GameActivity;
use crate::game::{GameStatus, GameStatusModel};
use crate::http;
use crate::http::HttpStatus;
use crate::json;
use crate::json::{parse_json_bytes, Json, JsonModel};
use crate::models;
use crate::paths;
use crate::paths::{same_path, PathParts};
use crate::seqs;
use crate::text;

verus! {

pub const GAME_NAME: &'static str = "League of Legends";

/// The path under which the client says what it is doing.
pub const GAMEFLOW_ENDPOINT: &'static str = "/lol-gameflow/v1/gameflow-phase";

/// The file in which the Riot client lists its installations on Windows.
pub const WINDOWS_RIOT_CLIENT_INSTALLS_FILE: &'static str =
    "C:\\ProgramData\\Riot Games\\RiotClientInstalls.json";

/// What the client writes into its lockfile.
#[derive(PartialEq, Eq)]
pub struct Lockfile {
    pub process_name: String,
    pub pid: u32,
    pub port: u16,
    pub password: String,
    pub protocol: String,
}

/// The model of a lockfile.
#[verifier::ext_equal]
pub struct LockfileModel {
    pub process_name: Seq<char>,
    pub pid: u32,
    pub port: u16,
    pub password: Seq<char>,
    pub protocol: Seq<char>,
}

impl DeepView for Lockfile {
    type V = LockfileModel;

    open spec fn deep_view(&self) -> LockfileModel {
        LockfileModel {
            process_name: self.process_name@,
            pid: self.pid,
            port: self.port,
            password: self.password@,
            protocol: self.protocol@,
        }
    }
}

impl Clone for Lockfile {
    fn clone(&self) -> (copy: Lockfile)
        ensures
            copy == *self,
    {
        Lockfile {
            process_name: self.process_name.clone(),
            pid: self.pid,
            port: self.port,
            password: self.password.clone(),
            protocol: self.protocol.clone(),
        }
    }
}

/// What went wrong with League of Legends.
#[derive(Clone, Copy, Debug, PartialEq, Eq, Structural)]
pub enum LeagueError {
    Io,
    InvalidLockfile,
    InvalidPid,
    InvalidPort,
    Client,
    HttpStatus(HttpStatus),
    InvalidAuthHeader,
}

impl DeepView for LeagueError {
    type V = LeagueError;

    open spec fn deep_view(&self) -> LeagueError {
        *self
    }
}

impl LeagueError {
    /// What the user is told.
    pub open spec fn words(self) -> Seq<char> {
        match self {
            LeagueError::Io => "could not read League lockfile"@,
            LeagueError::InvalidLockfile => "invalid League lockfile format"@,
            LeagueError::InvalidPid => "invalid League lockfile pid"@,
            LeagueError::InvalidPort => "invalid League lockfile port"@,
            LeagueError::Client => "could not create League HTTP client"@,
            LeagueError::HttpStatus(status) => "League API returned HTTP "@ + http::status_text(
                status.number(),
            ),
            LeagueError::InvalidAuthHeader => "could not build League authorization header"@,
        }
    }

    /// What the user is told.
    pub fn message(self) -> (message: String)
        ensures
            message@ == self.words(),
    {
        match self {
            LeagueError::Io => "could not read League lockfile".to_owned(),
            LeagueError::InvalidLockfile => "invalid League lockfile format".to_owned(),
            LeagueError::InvalidPid => "invalid League lockfile pid".to_owned(),
            LeagueError::InvalidPort => "invalid League lockfile port".to_owned(),
            LeagueError::Client => "could not create League HTTP client".to_owned(),
            LeagueError::HttpStatus(status) => {
                let mut message = "League API returned HTTP ".to_owned();
                message.append(status.text().as_str());
                message
            },
            LeagueError::InvalidAuthHeader => {
                "could not build League authorization header".to_owned()
            },
        }
    }
}

/// What a lockfile says: five fields between colons, the second the number of a process and the
/// third a port.
pub open spec fn lockfile_of(contents: Seq<char>) -> Result<LockfileModel, LeagueError> {
    let parts = text::pieces(text::trimmed(contents), ":"@);
    let pid = text::unsigned_value(parts[1], u32::MAX as nat);
    let port = text::unsigned_value(parts[2], u16::MAX as nat);
    if parts.len() != 5 {
        Err(LeagueError::InvalidLockfile)
    } else if pid is None {
        Err(LeagueError::InvalidPid)
    } else if port is None {
        Err(LeagueError::InvalidPort)
    } else {
        Ok(
            LockfileModel {
                process_name: parts[0],
                pid: pid->0 as u32,
                port: port->0 as u16,
                password: parts[3],
                protocol: parts[4],
            },
        )
    }
}

/// Reads a lockfile.
pub fn parse_lockfile(contents: &str) -> (parsed: Result<Lockfile, LeagueError>)
    ensures
        models::result_model(parsed) == lockfile_of(contents@),
{
    let parts = text::split(text::trim(contents), ":");
    let ghost fields = text::pieces(text::trimmed(contents@), ":"@);
    assert(parts.deep_view() == fields);
    if parts.len() != 5 {
        return Err(LeagueError::InvalidLockfile);
    }
    assert(forall|i: int| 0 <= i < 5 ==> fields[i] == (#[trigger] parts@[i])@);
    let pid: u32 = match text::parse_unsigned(parts[1].as_str(), u32::MAX as u64) {
        Some(pid) => pid as u32,
        None => {
            return Err(LeagueError::InvalidPid);
        },
    };
    let port: u16 = match text::parse_unsigned(parts[2].as_str(), u16::MAX as u64) {
        Some(port) => port as u16,
        None => {
            return Err(LeagueError::InvalidPort);
        },
    };
    Ok(
        Lockfile {
            process_name: parts[0].clone(),
            pid,
            port,
            password: parts[3].clone(),
            protocol: parts[4].clone(),
        },
    )
}

/// Whether the client is in a phase that alarms wait for: from the ready check to the end of the
/// game.
pub open spec fn is_active_phase(phase: Seq<char>) -> bool {
    phase == "ReadyCheck"@ || phase == "ChampSelect"@ || phase == "GameStart"@ || phase
        == "InProgress"@ || phase == "Reconnect"@
}

/// What a phase of the client says of the game.
pub fn classify_gameflow_phase(phase: &str) -> (activity: GameActivity)
    ensures
        activity == if is_active_phase(phase@) {
            GameActivity::Active
        } else {
            GameActivity::Inactive
        },
{
    if text::same_text(phase, "ReadyCheck") || text::same_text(phase, "ChampSelect")
        || text::same_text(phase, "GameStart") || text::same_text(phase, "InProgress")
        || text::same_text(phase, "Reconnect") {
        GameActivity::Active
    } else {
        GameActivity::Inactive
    }
}

/// What is known of the game in a phase of the client.
pub open spec fn phase_status(phase: Seq<char>) -> GameStatusModel {
    if is_active_phase(phase) {
        GameStatusModel::Active { game: GAME_NAME@, detail: Some(phase) }
    } else {
        GameStatusModel::Inactive {
            game: GAME_NAME@,
            detail: Some("client open, phase "@ + phase),
        }
    }
}

/// What is known of the game in a phase of the client.
pub fn status_from_gameflow_phase(phase: String) -> (status: GameStatus)
    ensures
        status.deep_view() == phase_status(phase@),
{
    match classify_gameflow_phase(phase.as_str()) {
        GameActivity::Active => GameStatus::active(GAME_NAME, Some(phase)),
        _ => {
            let mut detail = "client open, phase ".to_owned();
            detail.append(phase.as_str());
            GameStatus::inactive(GAME_NAME, Some(detail))
        },
    }
}

/// The base 64 text of the UTF-8 bytes of a text, with padding.
pub uninterp spec fn standard_base64(plain: Seq<char>) -> Seq<char>;

/// Calls `encode` of base64's engine `STANDARD` on a text.
///
/// The contract names the result; it says of it only that it is made from the text alone.
/// A text whose encoding might be larger than any that the machine can hold is left out: a
/// character takes up to four bytes, and three bytes take four characters.
#[verifier::external_body]
fn encode_standard(plain: &str) -> (encoded: String)
    requires
        plain@.len() <= usize::MAX / 16,
    ensures
        encoded@ == standard_base64(plain@),
{
    STANDARD.encode(plain)
}

/// A question to the client: the URL, and the value of the header that proves who asks.
#[derive(Debug, PartialEq, Eq)]
pub struct GameflowRequest {
    pub url: String,
    pub authorization: String,
}

/// The URL that asks the client for its phase.
pub open spec fn gameflow_url(lockfile: LockfileModel) -> Seq<char> {
    lockfile.protocol + "://127.0.0.1:"@ + text::decimal(lockfile.port as nat)
        + GAMEFLOW_ENDPOINT@
}

/// The value of the header that proves who asks.
pub open spec fn authorization_for(password: Seq<char>) -> Seq<char> {
    "Basic "@ + standard_base64("riot:"@ + password)
}

/// The question to the client that asks for its phase.
pub fn gameflow_request(lockfile: &Lockfile) -> (request: GameflowRequest)
    requires
        lockfile.password@.len() + 5 <= usize::MAX / 16,
    ensures
        request.url@ == gameflow_url(lockfile.deep_view()),
        request.authorization@ == authorization_for(lockfile.password@),
{
    let mut url = lockfile.protocol.clone();
    url.append("://127.0.0.1:");
    text::push_decimal(&mut url, lockfile.port as u128);
    url.append(GAMEFLOW_ENDPOINT);
    let mut plain = "riot:".to_owned();
    proof {
        reveal_strlit("riot:");
    }
    plain.append(lockfile.password.as_str());
    let mut authorization = "Basic ".to_owned();
    authorization.append(encode_standard(plain.as_str()).as_str());
    GameflowRequest { url, authorization }
}

/// What came of looking for the lockfile and reading it.
#[derive(Debug)]
pub enum LockfileRead {
    NotFound,
    Unreadable,
    Contents(String),
}

/// What to do next to learn what is known of the game: nothing more, or ask the client.
pub enum LeagueStep {
    Done(GameStatus),
    Ask(Lockfile),
}

/// What is known of the game when something went wrong.
pub open spec fn failed_status(error: LeagueError) -> GameStatusModel {
    GameStatusModel::Unavailable { game: GAME_NAME@, message: error.words() }
}

fn unavailable(error: LeagueError) -> (status: GameStatus)
    ensures
        status.deep_view() == failed_status(error),
{
    GameStatus::unavailable(GAME_NAME, error.message().as_str())
}

/// What to do after the lockfile was looked for.
pub fn after_lockfile(read: LockfileRead) -> (step: LeagueStep)
    ensures
        match read {
            LockfileRead::NotFound => step matches LeagueStep::Done(status) && status.deep_view()
                == (GameStatusModel::Inactive {
                game: GAME_NAME@,
                detail: Some("client not running"@),
            }),
            LockfileRead::Unreadable => step matches LeagueStep::Done(status)
                && status.deep_view() == failed_status(LeagueError::Io),
            LockfileRead::Contents(contents) => match lockfile_of(contents@) {
                Ok(lockfile) => step matches LeagueStep::Ask(l) && l.deep_view() == lockfile,
                Err(error) => step matches LeagueStep::Done(status) && status.deep_view()
                    == failed_status(error),
            },
        },
{
    match read {
        LockfileRead::NotFound => LeagueStep::Done(
            GameStatus::inactive(GAME_NAME, Some("client not running".to_owned())),
        ),
        LockfileRead::Unreadable => LeagueStep::Done(unavailable(LeagueError::Io)),
        LockfileRead::Contents(contents) => match parse_lockfile(contents.as_str()) {
            Ok(lockfile) => LeagueStep::Ask(lockfile),
            Err(error) => LeagueStep::Done(unavailable(error)),
        },
    }
}

/// The phase that the body of a reply gives: the text that the body is as a JSON document.
pub open spec fn phase_given(document: Option<JsonModel>) -> Option<Seq<char>> {
    match document {
        Some(json) => json.text(),
        None => None,
    }
}

/// The phase that a JSON document gives.
pub fn phase_of_document(document: Option<Json>) -> (phase: Option<String>)
    ensures
        phase.deep_view() == phase_given(json::maybe_json_model(document)),
{
    match document {
        Some(Json::Text(phase)) => Some(phase),
        _ => None,
    }
}

/// The phase that the body of a reply gives.
pub fn phase_in_body(body: &Vec<u8>) -> (phase: Option<String>)
    ensures
        phase.deep_view() == phase_given(json::json_in_bytes(body@)),
{
    phase_of_document(parse_json_bytes(body))
}

/// What came of asking the client for its phase.
#[derive(Debug)]
pub enum GameflowReply {
    InvalidHeader,
    NoReply,
    Reply { status: HttpStatus, phase: Option<String> },
}

/// What a reply of the client says of the game.
pub open spec fn reply_status(reply: GameflowReply) -> GameStatusModel {
    match reply {
        GameflowReply::InvalidHeader => failed_status(LeagueError::InvalidAuthHeader),
        GameflowReply::NoReply => failed_status(LeagueError::Client),
        GameflowReply::Reply { status, phase } => if !(200 <= status.number() <= 299) {
            failed_status(LeagueError::HttpStatus(status))
        } else {
            match phase {
                Some(p) => phase_status(p@),
                None => failed_status(LeagueError::Client),
            }
        },
    }
}

/// What a reply of the client says of the game.
pub fn after_reply(reply: GameflowReply) -> (status: GameStatus)
    ensures
        status.deep_view() == reply_status(reply),
{
    match reply {
        GameflowReply::InvalidHeader => unavailable(LeagueError::InvalidAuthHeader),
        GameflowReply::NoReply => unavailable(LeagueError::Client),
        GameflowReply::Reply { status, phase } => {
            if !status.is_success() {
                unavailable(LeagueError::HttpStatus(status))
            } else {
                match phase {
                    Some(phase) => status_from_gameflow_phase(phase),
                    None => unavailable(LeagueError::Client),
                }
            }
        },
    }
}

/// Trouble with the client never counts as a game that is being played.
pub proof fn trouble_is_no_active_game(reply: GameflowReply)
    ensures
        reply_status(reply) is Active ==> (reply matches GameflowReply::Reply { status, phase }
            && 200 <= status.number() <= 299 && (phase matches Some(p) && is_active_phase(p@))),
{
}

/// The system that the app runs on.
#[derive(Clone, Copy, Debug, PartialEq, Eq, Structural)]
pub enum Platform {
    Windows,
    MacOs,
    Other,
}

/// What there is to know of the system when looking for the lockfile: variables of the
/// environment, the contents of the list of installations, and the home directory.
#[derive(Debug)]
pub struct LeagueEnvironment {
    pub platform: Platform,
    pub league_lockfile: Option<String>,
    pub program_files: Option<String>,
    pub program_files_x86: Option<String>,
    pub system_drive: Option<String>,
    pub riot_client_installs: Option<String>,
    pub home: Option<String>,
}

/// The lockfile of an installation under a directory.
pub open spec fn lockfile_under(root: Seq<char>) -> Seq<Seq<char>> {
    seq![root, "Riot Games"@, "League of Legends"@, "lockfile"@]
}

/// The lockfile of an installation under a directory that may not be known.
pub open spec fn lockfile_under_known(root: Option<Seq<char>>) -> Seq<Seq<Seq<char>>> {
    match root {
        Some(r) => seq![lockfile_under(r)],
        None => Seq::empty(),
    }
}

/// The lockfiles of the installations that a list names, in its order.
pub open spec fn installed_lockfiles(list: Option<json::JsonModel>) -> Seq<Seq<Seq<char>>> {
    match list {
        Some(value) => match value.member("associated_client"@) {
            Some(clients) => match clients.names() {
                Some(names) => names.map_values(|name: Seq<char>| seq![name, "lockfile"@]),
                None => Seq::empty(),
            },
            None => Seq::empty(),
        },
        None => Seq::empty(),
    }
}

/// All places where the lockfile may be, in the order in which to look.
pub open spec fn lockfile_places(environment: LeagueEnvironment) -> Seq<Seq<Seq<char>>> {
    let told = match environment.league_lockfile {
        Some(path) => seq![seq![path@]],
        None => Seq::empty(),
    };
    told + match environment.platform {
        Platform::Windows => seq![lockfile_under("C:\\"@)] + lockfile_under_known(
            environment.program_files.deep_view(),
        ) + lockfile_under_known(environment.program_files_x86.deep_view())
            + lockfile_under_known(environment.system_drive.deep_view()) + (
        match environment.riot_client_installs {
            Some(contents) => installed_lockfiles(json::json_in_text(contents@)),
            None => Seq::empty(),
        }),
        Platform::MacOs => seq![
            seq!["/Applications/League of Legends.app/Contents/LoL/lockfile"@],
        ],
        Platform::Other => match environment.home {
            Some(home) => seq![
                seq![
                    home@,
                    "Games"@,
                    "league-of-legends"@,
                    "drive_c"@,
                    "Riot Games"@,
                    "League of Legends"@,
                    "lockfile"@,
                ],
                seq![home@, ".local"@, "share"@, "league-of-legends"@, "lockfile"@],
            ],
            None => Seq::empty(),
        },
    }
}

fn push_lockfile_under(places: &mut Vec<PathParts>, root: &str)
    ensures
        final(places).deep_view() == old(places).deep_view().push(lockfile_under(root@)),
{
    let ghost before = places.deep_view();
    let path = PathParts::from_text(root).join("Riot Games").join("League of Legends").join(
        "lockfile",
    );
    assert(path.deep_view() =~= lockfile_under(root@));
    places.push(path);
    assert(places.deep_view() =~= before.push(lockfile_under(root@)));
}

fn push_lockfile_under_known(places: &mut Vec<PathParts>, root: &Option<String>)
    ensures
        final(places).deep_view() == old(places).deep_view() + lockfile_under_known(
            root.deep_view(),
        ),
{
    let ghost before = places.deep_view();
    match root {
        Some(root) => {
            push_lockfile_under(places, root.as_str());
            assert(places.deep_view() =~= before + seq![lockfile_under(root@)]);
        },
        None => {
            assert(before + Seq::empty() =~= before);
        },
    }
}

/// The lockfiles of the installations that a list of the Riot client names, in its order, given
/// the value that the list holds.
pub fn lockfile_paths_in(list: Option<Json>) -> (places: Vec<PathParts>)
    ensures
        places.deep_view() == installed_lockfiles(json::maybe_json_model(list)),
{
    let mut places: Vec<PathParts> = Vec::new();
    assert(places.deep_view() =~= Seq::empty());
    let value = match list {
        Some(value) => value,
        None => {
            return places;
        },
    };
    let clients = match value.member("associated_client") {
        Some(clients) => clients,
        None => {
            return places;
        },
    };
    let names = match clients.names() {
        Some(names) => names,
        None => {
            return places;
        },
    };
    let ghost lockfile_in = |name: Seq<char>| seq![name, "lockfile"@];
    let ghost all = names.deep_view();
    let mut i: usize = 0;
    while i < names.len()
        invariant
            i <= names@.len(),
            all == names.deep_view(),
            lockfile_in == (|name: Seq<char>| seq![name, "lockfile"@]),
            places.deep_view() == all.take(i as int).map_values(lockfile_in),
        decreases names@.len() - i,
    {
        let ghost before = places.deep_view();
        assert(all[i as int] == names@[i as int]@);
        let path = PathParts::from_text(names[i].as_str()).join("lockfile");
        assert(path.deep_view() =~= lockfile_in(all[i as int]));
        places.push(path);
        assert(places.deep_view() =~= before.push(lockfile_in(all[i as int])));
        assert(all.take(i + 1) =~= all.take(i as int).push(all[i as int]));
        assert(places.deep_view() =~= all.take(i + 1).map_values(lockfile_in));
        i = i + 1;
    }
    assert(all.take(i as int) =~= all);
    places
}

/// The lockfiles of the installations that a list of the Riot client names, in its order.
pub fn riot_client_install_lockfile_paths_from_json(contents: &str) -> (places: Vec<PathParts>)
    ensures
        places.deep_view() == installed_lockfiles(json::json_in_text(contents@)),
{
    lockfile_paths_in(json::parse_json_text(contents))
}

fn append_places(places: &mut Vec<PathParts>, more: Vec<PathParts>)
    ensures
        final(places).deep_view() == old(places).deep_view() + more.deep_view(),
{
    let ghost before = places.deep_view();
    let ghost added = more@;
    let mut rest = more;
    places.append(&mut rest);
    assert(places.deep_view() =~= before + added.map_values(|p: PathParts| p.deep_view()));
    assert(more.deep_view() =~= added.map_values(|p: PathParts| p.deep_view()));
}

/// All places where the lockfile may be, in the order in which to look. A place can be named
/// twice.
pub fn all_lockfile_places(environment: &LeagueEnvironment) -> (places: Vec<PathParts>)
    ensures
        places.deep_view() == lockfile_places(*environment),
{
    let mut places: Vec<PathParts> = Vec::new();
    assert(places.deep_view() =~= Seq::empty());
    match &environment.league_lockfile {
        Some(path) => {
            places.push(PathParts::from_text(path.as_str()));
            assert(places.deep_view() =~= seq![seq![path@]]);
        },
        None => {},
    }
    let ghost told = places.deep_view();
    match environment.platform {
        Platform::Windows => {
            push_lockfile_under(&mut places, "C:\\");
            push_lockfile_under_known(&mut places, &environment.program_files);
            push_lockfile_under_known(&mut places, &environment.program_files_x86);
            push_lockfile_under_known(&mut places, &environment.system_drive);
            match &environment.riot_client_installs {
                Some(contents) => {
                    append_places(
                        &mut places,
                        riot_client_install_lockfile_paths_from_json(contents.as_str()),
                    );
                },
                None => {},
            }
        },
        Platform::MacOs => {
            places.push(
                PathParts::from_text("/Applications/League of Legends.app/Contents/LoL/lockfile"),
            );
        },
        Platform::Other => {
            match &environment.home {
                Some(home) => {
                    let games = PathParts::from_text(home.as_str()).join("Games").join(
                        "league-of-legends",
                    ).join("drive_c").join("Riot Games").join("League of Legends").join(
                        "lockfile",
                    );
                    let share = PathParts::from_text(home.as_str()).join(".local").join(
                        "share",
                    ).join("league-of-legends").join("lockfile");
                    assert(games.deep_view() =~= seq![
                        home@,
                        "Games"@,
                        "league-of-legends"@,
                        "drive_c"@,
                        "Riot Games"@,
                        "League of Legends"@,
                        "lockfile"@,
                    ]);
                    assert(share.deep_view() =~= seq![
                        home@,
                        ".local"@,
                        "share"@,
                        "league-of-legends"@,
                        "lockfile"@,
                    ]);
                    places.push(games);
                    places.push(share);
                },
                None => {},
            }
        },
    }
    assert(places.deep_view() =~= lockfile_places(*environment));
    places
}

/// Puts a place behind others, unless it names nothing or is among them already.
pub fn push_candidate_path(places: &mut Vec<PathParts>, place: PathParts, already_listed: bool)
    ensures
        final(places).deep_view() == if paths::names_nothing(place.deep_view()) || already_listed {
            old(places).deep_view()
        } else {
            old(places).deep_view().push(place.deep_view())
        },
{
    if !place.is_empty() && !already_listed {
        let ghost before = places.deep_view();
        let ghost added = place.deep_view();
        places.push(place);
        assert(places.deep_view() =~= before.push(added));
    }
}

/// The places that are kept, given which are taken to be repeats: those that name something and
/// are no repeat, in order.
pub open spec fn kept_of(places: Seq<Seq<Seq<char>>>, repeats: Seq<bool>) -> Seq<Seq<Seq<char>>>
    decreases places.len(),
{
    if places.len() == 0 {
        Seq::empty()
    } else {
        let before = kept_of(places.drop_last(), repeats.drop_last());
        if repeats.last() || paths::names_nothing(places.last()) {
            before
        } else {
            before.push(places.last())
        }
    }
}

/// The game counts as being played exactly when the client answers with success and is at the
/// ready check, in champion selection, at the start of a game, in one, or reconnecting to one.
pub proof fn phase_decides_whether_a_game_is_on(status: HttpStatus, phase: String)
    ensures
        ({
            let said = reply_status(GameflowReply::Reply { status, phase: Some(phase) });
            let playing = phase@ == "ReadyCheck"@ || phase@ == "ChampSelect"@ || phase@
                == "GameStart"@ || phase@ == "InProgress"@ || phase@ == "Reconnect"@;
            if 200 <= status.number() <= 299 {
                &&& playing <==> said is Active
                &&& playing ==> said == (GameStatusModel::Active {
                    game: "League of Legends"@,
                    detail: Some(phase@),
                })
                &&& !playing ==> said == (GameStatusModel::Inactive {
                    game: "League of Legends"@,
                    detail: Some("client open, phase "@ + phase@),
                })
            } else {
                said is Unavailable
            }
        }),
        is_active_phase(phase@) <==> phase@ == "ReadyCheck"@ || phase@ == "ChampSelect"@ || phase@
            == "GameStart"@ || phase@ == "InProgress"@ || phase@ == "Reconnect"@,
{
}

/// Without a phase there is nothing to say of the game: no reply, no success, or a body that
/// gives none.
pub proof fn no_phase_is_unavailable(status: HttpStatus)
    ensures
        reply_status(GameflowReply::NoReply) is Unavailable,
        reply_status(GameflowReply::InvalidHeader) is Unavailable,
        reply_status(GameflowReply::Reply { status, phase: None }) is Unavailable,
{
}

/// The body of a reply gives the phase when it is a JSON text, and nothing else does.
pub proof fn phase_is_the_text_of_the_body(document: JsonModel, phase: Seq<char>)
    ensures
        phase_given(Some(JsonModel::Text(phase))) == Some(phase),
        !(document is Text) ==> phase_given(Some(document)) is None,
        phase_given(None) is None,
{
}

proof fn lemma_number_reads_back(n: nat, max: nat)
    requires
        n <= max,
    ensures
        text::unsigned_value(text::decimal(n), max) == Some(n),
        forall|i: int| 0 <= i < text::decimal(n).len() ==> !":"@.contains(
            #[trigger] text::decimal(n)[i],
        ),
{
    text::decimal_reads_back(n);
    let digits = text::decimal(n);
    assert(text::is_digit(digits[0]));
    reveal_strlit(":");
    assert forall|i: int| 0 <= i < digits.len() implies !":"@.contains(#[trigger] digits[i]) by {
        assert(text::is_digit(digits[i]));
    }
}

/// A lockfile is read as it is written: the name of the process, its number, the port, the
/// password and the protocol, with colons between them.
pub proof fn lockfile_reads_back(lockfile: LockfileModel)
    requires
        forall|i: int|
            0 <= i < lockfile.process_name.len() ==> #[trigger] lockfile.process_name[i] != ':',
        forall|i: int|
            0 <= i < lockfile.password.len() ==> #[trigger] lockfile.password[i] != ':',
        forall|i: int|
            0 <= i < lockfile.protocol.len() ==> #[trigger] lockfile.protocol[i] != ':',
        lockfile.process_name.len() > 0 ==> !text::is_white(lockfile.process_name[0]),
        lockfile.protocol.len() > 0 ==> !text::is_white(lockfile.protocol.last()),
    ensures
        lockfile_of(
            lockfile.process_name.push(':') + (text::decimal(lockfile.pid as nat).push(':') + (
            text::decimal(lockfile.port as nat).push(':') + (lockfile.password.push(':')
                + lockfile.protocol))),
        ) == Ok::<LockfileModel, LeagueError>(lockfile),
{
    reveal_strlit(":");
    let colon = ":"@;
    assert(colon[0] == ':');
    assert(colon.contains(':'));
    let pid = text::decimal(lockfile.pid as nat);
    let port = text::decimal(lockfile.port as nat);
    let rest3 = lockfile.password.push(':') + lockfile.protocol;
    let rest2 = port.push(':') + rest3;
    let rest1 = pid.push(':') + rest2;
    let whole = lockfile.process_name.push(':') + rest1;
    lemma_number_reads_back(lockfile.pid as nat, u32::MAX as nat);
    lemma_number_reads_back(lockfile.port as nat, u16::MAX as nat);
    assert forall|i: int| 0 <= i < lockfile.process_name.len() implies !colon.contains(
        #[trigger] lockfile.process_name[i],
    ) by {}
    assert forall|i: int| 0 <= i < lockfile.password.len() implies !colon.contains(
        #[trigger] lockfile.password[i],
    ) by {}
    assert forall|i: int| 0 <= i < lockfile.protocol.len() implies !colon.contains(
        #[trigger] lockfile.protocol[i],
    ) by {}
    text::pieces_of_one(lockfile.process_name, colon);
    text::pieces_of_one(pid, colon);
    text::pieces_of_one(port, colon);
    text::pieces_of_two(lockfile.password, ':', lockfile.protocol, colon);
    text::pieces_around(port, ':', rest3, colon);
    text::pieces_around(pid, ':', rest2, colon);
    text::pieces_around(lockfile.process_name, ':', rest1, colon);
    let parts = seq![lockfile.process_name, pid, port, lockfile.password, lockfile.protocol];
    assert(text::pieces(whole, colon) =~= parts);
    if lockfile.process_name.len() > 0 {
        assert(whole[0] == lockfile.process_name[0]);
    } else {
        assert(whole[0] == ':');
    }
    if lockfile.protocol.len() > 0 {
        assert(whole.last() == lockfile.protocol.last());
    } else {
        assert(whole.last() == ':');
    }
    text::trimmed_of_tight(whole);
}

/// The client is asked on this machine, at the port and by the protocol of its lockfile, under
/// the name `riot` and the password of its lockfile.
pub proof fn client_is_asked_as_its_lockfile_says(lockfile: LockfileModel)
    ensures
        gameflow_url(lockfile) == lockfile.protocol + "://127.0.0.1:"@ + text::decimal(
            lockfile.port as nat,
        ) + "/lol-gameflow/v1/gameflow-phase"@,
        authorization_for(lockfile.password) == "Basic "@ + standard_base64(
            "riot:"@ + lockfile.password,
        ),
{
}

/// The place that the environment gives comes first. On Windows the usual installations are
/// looked at, wherever programs are, and those that the list of the Riot client names.
pub proof fn known_installations_are_looked_at(
    environment: LeagueEnvironment,
    root: String,
)
    ensures
        environment.league_lockfile == Some(root) ==> lockfile_places(environment).len() > 0
            && lockfile_places(environment)[0] == seq![root@],
        environment.platform == Platform::Windows ==> lockfile_places(environment).contains(
            seq!["C:\\"@, "Riot Games"@, "League of Legends"@, "lockfile"@],
        ),
        environment.platform == Platform::Windows && (environment.program_files == Some(root)
            || environment.program_files_x86 == Some(root) || environment.system_drive == Some(
            root,
        )) ==> lockfile_places(environment).contains(
            seq![root@, "Riot Games"@, "League of Legends"@, "lockfile"@],
        ),
        environment.platform == Platform::MacOs ==> lockfile_places(environment).contains(
            seq!["/Applications/League of Legends.app/Contents/LoL/lockfile"@],
        ),
        environment.platform == Platform::Other && environment.home == Some(root) ==> {
            &&& lockfile_places(environment).contains(
                seq![root@, ".local"@, "share"@, "league-of-legends"@, "lockfile"@],
            )
            &&& lockfile_places(environment).contains(
                seq![
                    root@,
                    "Games"@,
                    "league-of-legends"@,
                    "drive_c"@,
                    "Riot Games"@,
                    "League of Legends"@,
                    "lockfile"@,
                ],
            )
        },
{
    let places = lockfile_places(environment);
    let told: Seq<Seq<Seq<char>>> = match environment.league_lockfile {
        Some(path) => seq![seq![path@]],
        None => Seq::empty(),
    };
    let n = told.len() as int;
    if environment.platform == Platform::Windows {
        let usual = seq![lockfile_under("C:\\"@)];
        let a = lockfile_under_known(environment.program_files.deep_view());
        let b = lockfile_under_known(environment.program_files_x86.deep_view());
        let c = lockfile_under_known(environment.system_drive.deep_view());
        assert(places[n] == usual[0]);
        if environment.program_files == Some(root) {
            assert(places[n + 1] == a[0]);
        }
        if environment.program_files_x86 == Some(root) {
            assert(places[n + 1 + a.len()] == b[0]);
        }
        if environment.system_drive == Some(root) {
            assert(places[n + 1 + a.len() + b.len()] == c[0]);
        }
    } else if environment.platform == Platform::MacOs {
        assert(places[n] == seq!["/Applications/League of Legends.app/Contents/LoL/lockfile"@]);
    } else if environment.home == Some(root) {
        assert(places[n] == seq![
            root@,
            "Games"@,
            "league-of-legends"@,
            "drive_c"@,
            "Riot Games"@,
            "League of Legends"@,
            "lockfile"@,
        ]);
        assert(places[n + 1] == seq![
            root@,
            ".local"@,
            "share"@,
            "league-of-legends"@,
            "lockfile"@,
        ]);
    }
}

/// A list of the Riot client names the directories of installations; the lockfile of each is
/// looked for there.
pub proof fn listed_installations_are_looked_at(
    clients: Seq<(Seq<char>, JsonModel)>,
    list: Seq<(Seq<char>, JsonModel)>,
    i: int,
    k: int,
)
    requires
        0 <= i < list.len(),
        list[i].0 == "associated_client"@,
        forall|j: int| 0 <= j < i ==> (#[trigger] list[j]).0 != "associated_client"@,
        list[i].1 == JsonModel::Object(clients),
        0 <= k < clients.len(),
    ensures
        installed_lockfiles(Some(JsonModel::Object(list))).len() == clients.len(),
        installed_lockfiles(Some(JsonModel::Object(list)))[k] == seq![clients[k].0, "lockfile"@],
{
    seqs::first_is_found(list, json::has_name("associated_client"@), i);
}

/// The lockfile is the one at the place that the user gave, if there is a file, and else the one
/// at the first candidate at which there is a file; without any file there is none.
pub proof fn first_file_is_the_lockfile(
    user_path: Option<Seq<char>>,
    user_path_exists: bool,
    candidates: Seq<Seq<Seq<char>>>,
    exists_at: Seq<bool>,
    i: int,
)
    requires
        exists_at.len() == candidates.len(),
        0 <= i <= candidates.len(),
        forall|j: int| 0 <= j < i ==> !#[trigger] exists_at[j],
        i < candidates.len() ==> exists_at[i],
    ensures
        user_path is Some && user_path_exists ==> found_lockfile(
            user_path,
            user_path_exists,
            candidates,
            exists_at,
        ) == Some(seq![user_path->0]),
        !(user_path is Some && user_path_exists) ==> found_lockfile(
            user_path,
            user_path_exists,
            candidates,
            exists_at,
        ) == if i < candidates.len() {
            Some(candidates[i])
        } else {
            None
        },
{
    seqs::first_is_found(exists_at, |e: bool| e, i);
}

/// Whether a place is kept.
pub open spec fn is_kept(places: Seq<Seq<Seq<char>>>, repeats: Seq<bool>, i: int) -> bool {
    !repeats[i] && !paths::names_nothing(places[i])
}

/// Whether these places may be taken to be repeats: each of them may be the same as one that is
/// kept before it, and a place that is kept may differ from each that is kept before it. What is
/// the same is for the system to say.
pub open spec fn may_be_repeats(places: Seq<Seq<Seq<char>>>, repeats: Seq<bool>) -> bool {
    &&& repeats.len() == places.len()
    &&& forall|i: int|
        0 <= i < places.len() && #[trigger] repeats[i] ==> repeats_kept(places, repeats, i)
    &&& forall|i: int, j: int|
        0 <= j < i < places.len() && #[trigger] is_kept(places, repeats, j) && #[trigger] is_kept(
            places,
            repeats,
            i,
        ) ==> paths::may_differ(places[j], places[i])
}

/// Whether a place may be the same as one that is kept before it.
pub open spec fn repeats_kept(places: Seq<Seq<Seq<char>>>, repeats: Seq<bool>, i: int) -> bool {
    exists|j: int|
        0 <= j < i && #[trigger] is_kept(places, repeats, j) && paths::may_be_same(
            places[j],
            places[i],
        )
}

/// Whether a system may take `kept` to be the different ones of some places.
pub open spec fn may_be_kept(places: Seq<Seq<Seq<char>>>, kept: Seq<Seq<Seq<char>>>) -> bool {
    exists|repeats: Seq<bool>|
        {
            &&& #[trigger] may_be_repeats(places, repeats)
            &&& kept == kept_of(places, repeats)
        }
}

/// One more answer changes nothing of which places before it are kept or repeat one.
proof fn lemma_repeats_pushed(places: Seq<Seq<Seq<char>>>, before: Seq<bool>, listed: bool)
    requires
        before.len() < places.len(),
        may_be_repeats(places.take(before.len() as int), before),
        listed ==> repeats_kept(places, before, before.len() as int),
        !listed ==> forall|j: int|
            0 <= j < before.len() && #[trigger] is_kept(places, before, j) ==> paths::may_differ(
                places[j],
                places[before.len() as int],
            ),
    ensures
        may_be_repeats(places.take(before.len() as int + 1), before.push(listed)),
{
    let n = before.len() as int;
    let some = places.take(n);
    let more = places.take(n + 1);
    let repeats = before.push(listed);
    assert forall|j: int| 0 <= j < n implies #[trigger] is_kept(more, repeats, j) == is_kept(
        places,
        before,
        j,
    ) && is_kept(some, before, j) == is_kept(places, before, j) by {
        assert(more[j] == places[j] && some[j] == places[j] && repeats[j] == before[j]);
    }
    assert forall|i: int| 0 <= i < more.len() && #[trigger] repeats[i] implies repeats_kept(
        more,
        repeats,
        i,
    ) by {
        let j = if i < n {
            assert(before[i]);
            choose|j: int|
                0 <= j < i && #[trigger] is_kept(some, before, j) && paths::may_be_same(
                    some[j],
                    some[i],
                )
        } else {
            choose|j: int|
                0 <= j < i && #[trigger] is_kept(places, before, j) && paths::may_be_same(
                    places[j],
                    places[i],
                )
        };
        assert(is_kept(more, repeats, j) && paths::may_be_same(more[j], more[i]));
    }
    assert forall|i: int, j: int|
        0 <= j < i < more.len() && #[trigger] is_kept(more, repeats, j) && #[trigger] is_kept(
            more,
            repeats,
            i,
        ) implies paths::may_differ(more[j], more[i]) by {
        if i < n {
            assert(is_kept(some, before, j) && is_kept(some, before, i));
            assert(paths::may_differ(some[j], some[i]));
        } else {
            assert(is_kept(places, before, j));
        }
    }
}

/// Which places the system takes to be the same as one that is kept before them.
fn repeats_among(places: &Vec<PathParts>) -> (repeats: Vec<bool>)
    ensures
        may_be_repeats(places.deep_view(), repeats@),
{
    let ghost models = places.deep_view();
    let mut repeats: Vec<bool> = Vec::new();
    let mut i: usize = 0;
    while i < places.len()
        invariant
            i <= places@.len(),
            models == places.deep_view(),
            repeats@.len() == i,
            may_be_repeats(models.take(i as int), repeats@),
        decreases places@.len() - i,
    {
        let mut listed: bool = false;
        let mut j: usize = 0;
        while j < i
            invariant
                j <= i < places@.len(),
                models == places.deep_view(),
                repeats@.len() == i,
                listed ==> repeats_kept(models, repeats@, i as int),
                !listed ==> forall|k: int|
                    0 <= k < j && #[trigger] is_kept(models, repeats@, k) ==> paths::may_differ(
                        models[k],
                        models[i as int],
                    ),
            decreases i - j,
        {
            assert(models[j as int] == places@[j as int].deep_view());
            assert(models[i as int] == places@[i as int].deep_view());
            if !repeats[j] && !places[j].is_empty() {
                assert(is_kept(models, repeats@, j as int));
                if same_path(&places[j], &places[i]) {
                    assert(paths::may_be_same(models[j as int], models[i as int]));
                    listed = true;
                }
            }
            j = j + 1;
        }
        proof {
            lemma_repeats_pushed(models, repeats@, listed);
        }
        repeats.push(listed);
        i = i + 1;
    }
    assert(models.take(i as int) =~= models);
    repeats
}

/// The places that are kept, given which are taken to be repeats.
pub fn keep_places(places: Vec<PathParts>, repeats: &Vec<bool>) -> (kept: Vec<PathParts>)
    requires
        repeats@.len() == places@.len(),
    ensures
        kept.deep_view() == kept_of(places.deep_view(), repeats@),
{
    let ghost models = places.deep_view();
    let ghost all = places@;
    let count: usize = repeats.len();
    let mut kept: Vec<PathParts> = Vec::new();
    let mut i: usize = 0;
    assert(kept.deep_view() =~= Seq::empty());
    for place in iter: places
        invariant
            iter.seq() == all,
            i == iter.index(),
            models.len() == all.len(),
            repeats@.len() == all.len() == count,
            forall|k: int| 0 <= k < all.len() ==> models[k] == (#[trigger] all[k]).deep_view(),
            kept.deep_view() == kept_of(models.take(i as int), repeats@.take(i as int)),
    {
        let ghost next = models.take(i + 1);
        assert(next.drop_last() =~= models.take(i as int));
        assert(repeats@.take(i + 1).drop_last() =~= repeats@.take(i as int));
        assert(place.deep_view() == next.last());
        push_candidate_path(&mut kept, place, repeats[i]);
        i = i + 1;
    }
    assert(models.take(all.len() as int) =~= models);
    assert(repeats@.take(all.len() as int) =~= repeats@);
    kept
}

/// The places where the lockfile may be, in the order in which to look.
pub fn candidate_lockfile_paths(environment: &LeagueEnvironment) -> (places: Vec<PathParts>)
    ensures
        may_be_kept(lockfile_places(*environment), places.deep_view()),
{
    let places = all_lockfile_places(environment);
    let repeats = repeats_among(&places);
    keep_places(places, &repeats)
}

proof fn lemma_kept_differ(places: Seq<Seq<Seq<char>>>, repeats: Seq<bool>, n: int)
    requires
        may_be_repeats(places, repeats),
        0 <= n <= places.len(),
    ensures
        ({
            let kept = kept_of(places.take(n), repeats.take(n));
            &&& kept.no_duplicates()
            &&& forall|i: int|
                0 <= i < kept.len() ==> exists|j: int|
                    0 <= j < n && #[trigger] is_kept(places, repeats, j) && places[j]
                        == #[trigger] kept[i]
            &&& n > 0 && !paths::names_nothing(places[0]) ==> kept.len() > 0 && kept[0]
                == places[0]
        }),
    decreases n,
{
    let kept = kept_of(places.take(n), repeats.take(n));
    if n > 0 {
        lemma_kept_differ(places, repeats, n - 1);
        let before = kept_of(places.take(n - 1), repeats.take(n - 1));
        assert(places.take(n).drop_last() =~= places.take(n - 1));
        assert(repeats.take(n).drop_last() =~= repeats.take(n - 1));
        assert forall|i: int| 0 <= i < kept.len() implies exists|j: int|
            0 <= j < n && #[trigger] is_kept(places, repeats, j) && places[j]
                == #[trigger] kept[i] by {
            if i < before.len() {
                let j = choose|j: int|
                    0 <= j < n - 1 && #[trigger] is_kept(places, repeats, j) && places[j]
                        == before[i];
                assert(is_kept(places, repeats, j) && places[j] == kept[i]);
            } else {
                assert(is_kept(places, repeats, n - 1) && places[n - 1] == kept[i]);
            }
        }
        if n == 1 {
            assert(!repeats[0]) by {
                assert(!repeats_kept(places, repeats, 0));
            }
            assert(repeats.take(1).last() == repeats[0] && places.take(1).last() == places[0]);
        } else if before.len() > 0 {
            assert(kept[0] == before[0]);
        }
        assert forall|i: int, j: int| 0 <= i < j < kept.len() implies kept[i] != kept[j] by {
            if j == before.len() {
                let k = choose|k: int|
                    0 <= k < n - 1 && #[trigger] is_kept(places, repeats, k) && places[k]
                        == before[i];
                assert(is_kept(places, repeats, n - 1));
                assert(paths::may_differ(places[k], places[n - 1]));
            } else {
                assert(kept[i] == before[i] && kept[j] == before[j]);
            }
        }
    }
}

/// Of the places that are kept, each stands among those to look at, none names nothing, and no
/// two have the same parts. The first place to look at stays first, if it names something.
pub proof fn kept_places_differ(places: Seq<Seq<Seq<char>>>, kept: Seq<Seq<Seq<char>>>)
    requires
        may_be_kept(places, kept),
    ensures
        kept.no_duplicates(),
        forall|i: int|
            0 <= i < kept.len() ==> places.contains(#[trigger] kept[i]) && !paths::names_nothing(
                kept[i],
            ),
        places.len() > 0 && !paths::names_nothing(places[0]) ==> kept.len() > 0 && kept[0]
            == places[0],
{
    let repeats = choose|repeats: Seq<bool>|
        {
            &&& #[trigger] may_be_repeats(places, repeats)
            &&& kept == kept_of(places, repeats)
        };
    let n = places.len() as int;
    lemma_kept_differ(places, repeats, n);
    assert(places.take(n) =~= places);
    assert(repeats.take(n) =~= repeats);
    assert forall|i: int| 0 <= i < kept.len() implies places.contains(#[trigger] kept[i])
        && !paths::names_nothing(kept[i]) by {
        let j = choose|j: int|
            0 <= j < n && #[trigger] is_kept(places, repeats, j) && places[j] == kept[i];
        assert(places[j] == kept[i]);
    }
}

proof fn lemma_kept_is_there(places: Seq<Seq<Seq<char>>>, repeats: Seq<bool>, j: int)
    requires
        repeats.len() == places.len(),
        0 <= j < places.len(),
        is_kept(places, repeats, j),
    ensures
        kept_of(places, repeats).contains(places[j]),
    decreases places.len(),
{
    let before = kept_of(places.drop_last(), repeats.drop_last());
    let kept = kept_of(places, repeats);
    if j < places.len() - 1 {
        assert(is_kept(places.drop_last(), repeats.drop_last(), j));
        lemma_kept_is_there(places.drop_last(), repeats.drop_last(), j);
        let k = choose|k: int| 0 <= k < before.len() && before[k] == places[j];
        assert(kept[k] == places[j]);
    } else {
        assert(kept.last() == places[j]);
    }
}

/// No place is passed over: each one that names something is kept, or may be the same as one
/// that is kept.
pub proof fn no_place_is_passed_over(
    places: Seq<Seq<Seq<char>>>,
    kept: Seq<Seq<Seq<char>>>,
    i: int,
)
    requires
        may_be_kept(places, kept),
        0 <= i < places.len(),
        !paths::names_nothing(places[i]),
    ensures
        kept.contains(places[i]) || exists|k: int|
            0 <= k < kept.len() && paths::may_be_same(#[trigger] kept[k], places[i]),
{
    let repeats = choose|repeats: Seq<bool>|
        {
            &&& #[trigger] may_be_repeats(places, repeats)
            &&& kept == kept_of(places, repeats)
        };
    if repeats[i] {
        assert(repeats_kept(places, repeats, i));
        let j = choose|j: int|
            0 <= j < i && #[trigger] is_kept(places, repeats, j) && paths::may_be_same(
                places[j],
                places[i],
            );
        lemma_kept_is_there(places, repeats, j);
        let k = choose|k: int| 0 <= k < kept.len() && kept[k] == places[j];
        assert(paths::may_be_same(kept[k], places[i]));
    } else {
        lemma_kept_is_there(places, repeats, i);
    }
}

/// Where the lockfile is found: at the place that the user gave, if there is a file, and else at
/// the first candidate at which there is one.
pub open spec fn found_lockfile(
    user_path: Option<Seq<char>>,
    user_path_exists: bool,
    candidates: Seq<Seq<Seq<char>>>,
    exists_at: Seq<bool>,
) -> Option<Seq<Seq<char>>> {
    if user_path is Some && user_path_exists {
        Some(seq![user_path->0])
    } else {
        match seqs::first_where(exists_at, |e: bool| e) {
            Some(i) => Some(candidates[i]),
            None => None,
        }
    }
}

/// Where the lockfile is found, given at which places there is a file.
pub fn discover_lockfile(
    user_path: &Option<String>,
    user_path_exists: bool,
    candidates: &Vec<PathParts>,
    exists_at: &Vec<bool>,
) -> (found: Option<PathParts>)
    requires
        exists_at@.len() == candidates@.len(),
    ensures
        found.deep_view() == found_lockfile(
            user_path.deep_view(),
            user_path_exists,
            candidates.deep_view(),
            exists_at@,
        ),
{
    match user_path {
        Some(path) => {
            if user_path_exists {
                return Some(PathParts::from_text(path.as_str()));
            }
        },
        None => {},
    }
    let ghost pred = |e: bool| e;
    let mut i: usize = 0;
    while i < candidates.len()
        invariant
            i <= candidates@.len(),
            exists_at@.len() == candidates@.len(),
            !(user_path is Some && user_path_exists),
            pred == (|e: bool| e),
            forall|j: int| 0 <= j < i ==> !pred(#[trigger] exists_at@[j]),
        decreases candidates@.len() - i,
    {
        if exists_at[i] {
            proof {
                seqs::first_is_found(exists_at@, pred, i as int);
                assert(candidates.deep_view()[i as int] == candidates@[i as int].deep_view());
            }
            return Some(candidates[i].clone());
        }
        i = i + 1;
    }
    proof {
        seqs::first_is_found(exists_at@, pred, i as int);
    }
    None
}

} // verus!
