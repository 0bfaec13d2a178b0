//! What the pages of the app show.
use vstd::prelude::*;

use crate::alarm;
use crate::alarm::{
    status_of_alarms, AlarmSnapshot, AlarmSnapshotModel, AlarmStatus, PendingAlarmModel,
    PendingAlarmSnapshot,
};
use crate::counter_strike;
use crate::counter_strike::{Cs2GsiConfigStatus, SnapshotModel, COUNTER_STRIKE_2_GAME_NAME};
use crate::discord_bridge;
use crate::discord_bridge::{
    position_of_requester, remember_allowed_requester, AllowedDiscordRequester,
    BridgeSettingsModel, CompanionInvite, DiscordBridgeSettings, InviteModel, RemoteAlarmRequest,
    RemoteRequestModel, RequesterModel,
};
use crate::game::{GameStatus, GameStatusModel};
use crate::order;
use crate::order::put_in_order;
use crate::paths;
use crate::paths::path_from_text;
use crate::requesters;
use crate::seqs;
use crate::storage::{LogEntryModel, PersistedLogEntry, PersistedLogLevel};
use crate::text;
use crate::theme;
use crate::theme::{error_text_color, muted_text_color, Color};
use crate::time::LocalDateTime;

verus! {

/// The games that are shown before a link to all of them.
pub const INLINE_DETECTED_GAME_LIMIT: usize = 4;

/// The log entries that are kept.
pub const MAX_LOG_ENTRIES: usize = 500;

/// The path of the lockfile that was typed in; none if it is blank.
pub fn lockfile_override_from_text(value: &str) -> (path: Option<String>)
    ensures
        path.deep_view() == paths::typed_path(value@),
{
    path_from_text(value)
}

/// The path of the configuration that was typed in; none if it is blank.
pub fn gsi_config_path_from_text(value: &str) -> (path: Option<String>)
    ensures
        path.deep_view() == paths::typed_path(value@),
{
    path_from_text(value)
}

/// The label of an alarm for what was typed in.
pub open spec fn label_of(value: Seq<char>) -> Seq<char> {
    if text::is_blank(value) {
        "Alarm"@
    } else {
        text::trimmed(value)
    }
}

/// The label of an alarm for what was typed in.
pub fn alarm_label_from_text(value: &str) -> (label: String)
    ensures
        label@ == label_of(value@),
{
    let inner = text::trim(value);
    if inner.is_empty() {
        "Alarm".to_owned()
    } else {
        inner.to_owned()
    }
}

/// The colour that an entry of the log is marked by.
pub fn log_level_color(level: PersistedLogLevel, dark_mode: bool) -> (color: Color)
    ensures
        color == match (level, dark_mode) {
            (PersistedLogLevel::Info, true) => theme::gray_of(205),
            (PersistedLogLevel::Info, false) => theme::gray_of(70),
            (PersistedLogLevel::Error, true) => (Color { red: 245, green: 115, blue: 105 }),
            (PersistedLogLevel::Error, false) => (Color { red: 170, green: 40, blue: 35 }),
        },
{
    match level {
        PersistedLogLevel::Info => muted_text_color(dark_mode),
        PersistedLogLevel::Error => error_text_color(dark_mode),
    }
}

/// The link to all games, if some are not shown.
pub fn all_games_link(game_count: usize) -> (link: Option<String>)
    ensures
        link.deep_view() == if game_count > INLINE_DETECTED_GAME_LIMIT {
            Some("View all "@ + text::decimal(game_count as nat) + " detected games"@)
        } else {
            None
        },
{
    match detected_games_overflow_count(game_count) {
        Some(_) => {
            let mut link = "View all ".to_owned();
            text::push_decimal(&mut link, game_count as u128);
            link.append(" detected games");
            Some(link)
        },
        None => None,
    }
}

/// How many games are not shown, if any.
pub fn detected_games_overflow_count(game_count: usize) -> (overflow: Option<usize>)
    ensures
        overflow == if game_count > INLINE_DETECTED_GAME_LIMIT {
            Some((game_count - INLINE_DETECTED_GAME_LIMIT) as usize)
        } else {
            None
        },
{
    if game_count > INLINE_DETECTED_GAME_LIMIT {
        Some(game_count - INLINE_DETECTED_GAME_LIMIT)
    } else {
        None
    }
}

impl GameStatusModel {
    /// The name of the game.
    pub open spec fn name(self) -> Seq<char> {
        match self {
            GameStatusModel::Active { game, .. } => game,
            GameStatusModel::Inactive { game, .. } => game,
            GameStatusModel::Unavailable { game, .. } => game,
        }
    }

    /// What is shown beside the name of the game; nothing where nothing more is known.
    pub open spec fn detail_words(self) -> Seq<char> {
        match self {
            GameStatusModel::Active { detail, .. } | GameStatusModel::Inactive {
                detail,
                ..
            } => match detail {
                Some(d) => d,
                None => Seq::empty(),
            },
            GameStatusModel::Unavailable { message, .. } => message,
        }
    }
}

/// The name of the game.
pub fn game_status_name(status: &GameStatus) -> (name: &'static str)
    ensures
        name@ == status.deep_view().name(),
{
    match status {
        GameStatus::Active { game, .. } => game,
        GameStatus::Inactive { game, .. } => game,
        GameStatus::Unavailable { game, .. } => game,
    }
}

/// What is shown beside the name of the game; nothing where nothing more is known.
pub fn status_detail(status: &GameStatus) -> (detail: String)
    ensures
        detail@ == status.deep_view().detail_words(),
{
    match status {
        GameStatus::Active { detail, .. } => match detail {
            Some(detail) => detail.clone(),
            None => String::new(),
        },
        GameStatus::Inactive { detail, .. } => match detail {
            Some(detail) => detail.clone(),
            None => String::new(),
        },
        GameStatus::Unavailable { message, .. } => message.clone(),
    }
}

/// What is shown of a game, with a dash where nothing is known.
pub fn status_detail_or_dash(status: Option<&GameStatus>) -> (detail: String)
    ensures
        detail@ == match status {
            Some(s) => if s.deep_view().detail_words().len() > 0 {
                s.deep_view().detail_words()
            } else {
                "-"@
            },
            None => "-"@,
        },
{
    match status {
        Some(status) => {
            let detail = status_detail(status);
            if detail.as_str().is_empty() {
                "-".to_owned()
            } else {
                detail
            }
        },
        None => "-".to_owned(),
    }
}

/// Whether Counter-Strike 2 reports what it is doing.
pub open spec fn gsi_works(status: Option<GameStatusModel>) -> bool {
    match status {
        Some(GameStatusModel::Active { game, .. }) => game == COUNTER_STRIKE_2_GAME_NAME@,
        Some(GameStatusModel::Inactive { game, detail: Some(detail) }) => game
            == COUNTER_STRIKE_2_GAME_NAME@ && detail != "no recent GSI updates"@
            && !text::begins_with(detail, "waiting for GSI updates"@),
        _ => false,
    }
}

/// Whether Counter-Strike 2 reports what it is doing.
pub fn counter_strike_2_gsi_is_working(status: Option<&GameStatus>) -> (working: bool)
    ensures
        working == gsi_works(
            match status {
                Some(s) => Some(s.deep_view()),
                None => None,
            },
        ),
{
    match status {
        Some(GameStatus::Active { game, .. }) => text::same_text(game, COUNTER_STRIKE_2_GAME_NAME),
        Some(GameStatus::Inactive { game, detail: Some(detail) }) => {
            text::same_text(game, COUNTER_STRIKE_2_GAME_NAME) && !text::same_text(
                detail.as_str(),
                "no recent GSI updates",
            ) && !text::starts_with(detail.as_str(), "waiting for GSI updates")
        },
        _ => false,
    }
}

/// What the user is told of setting up the integration.
pub fn counter_strike_2_setup_message(
    config_status: Cs2GsiConfigStatus,
    gsi_is_working: bool,
) -> (message: &'static str)
    ensures
        message@ == if gsi_is_working {
            "CS2 GSI is working; alarms only wait during active matches."@
        } else if config_status is Installed {
            "CS2 GSI config is installed; restart CS2 if it was already open."@
        } else {
            config_status.words()
        },
{
    if gsi_is_working {
        "CS2 GSI is working; alarms only wait during active matches."
    } else if config_status == Cs2GsiConfigStatus::Installed {
        "CS2 GSI config is installed; restart CS2 if it was already open."
    } else {
        config_status.message()
    }
}

/// Whether there is to be a button that installs the configuration.
pub fn offers_gsi_install(config_status: Cs2GsiConfigStatus, gsi_is_working: bool) -> (offers: bool)
    ensures
        offers == (!gsi_is_working && !(config_status is Installed)),
{
    !gsi_is_working && config_status.needs_install_action()
}

/// What is shown of a game in one row.
#[derive(Debug, PartialEq, Eq)]
pub struct GameStatusRow {
    pub game: &'static str,
    pub state: &'static str,
    pub detail: Option<String>,
    pub color: Color,
}

/// What is shown of a game in one row.
pub fn game_status_row(status: &GameStatus, dark_mode: bool) -> (row: GameStatusRow)
    ensures
        row.game@ == status.deep_view().name(),
        match status.deep_view() {
            GameStatusModel::Active { detail, .. } => {
                &&& row.state@ == "Active"@
                &&& row.detail.deep_view() == detail
                &&& row.color == (Color { red: 80, green: 170, blue: 95 })
            },
            GameStatusModel::Inactive { detail, .. } => {
                &&& row.state@ == "Inactive"@
                &&& row.detail.deep_view() == detail
                &&& row.color == if dark_mode {
                    theme::gray_of(205)
                } else {
                    theme::gray_of(70)
                }
            },
            GameStatusModel::Unavailable { message, .. } => {
                &&& row.state@ == "Unavailable"@
                &&& row.detail.deep_view() == Some(message)
                &&& row.color == (Color { red: 200, green: 145, blue: 45 })
            },
        },
{
    match status {
        GameStatus::Active { game, detail } => GameStatusRow {
            game,
            state: "Active",
            detail: detail.clone(),
            color: Color { red: 80, green: 170, blue: 95 },
        },
        GameStatus::Inactive { game, detail } => GameStatusRow {
            game,
            state: "Inactive",
            detail: detail.clone(),
            color: muted_text_color(dark_mode),
        },
        GameStatus::Unavailable { game, message } => GameStatusRow {
            game,
            state: "Unavailable",
            detail: Some(message.clone()),
            color: Color { red: 200, green: 145, blue: 45 },
        },
    }
}

/// The last entries of a log, as many as are kept.
pub open spec fn last_entries(logs: Seq<LogEntryModel>) -> Seq<LogEntryModel> {
    if logs.len() > MAX_LOG_ENTRIES {
        logs.skip(logs.len() - MAX_LOG_ENTRIES)
    } else {
        logs
    }
}

/// The last entries of a log, as many as are kept.
pub fn persisted_log_entries_from_logs(logs: &Vec<PersistedLogEntry>) -> (kept: Vec<
    PersistedLogEntry,
>)
    ensures
        kept.deep_view() == last_entries(logs.deep_view()),
{
    let ghost all = logs.deep_view();
    let from: usize = if logs.len() > MAX_LOG_ENTRIES {
        logs.len() - MAX_LOG_ENTRIES
    } else {
        0
    };
    let mut kept: Vec<PersistedLogEntry> = Vec::new();
    let mut i: usize = from;
    while i < logs.len()
        invariant
            from <= i <= logs@.len(),
            all == logs.deep_view(),
            kept.deep_view() == all.subrange(from as int, i as int),
        decreases logs@.len() - i,
    {
        let ghost before = kept.deep_view();
        let ghost model = all[i as int];
        assert(model == logs@[i as int].deep_view());
        kept.push(logs[i].clone());
        assert(kept.deep_view() =~= before.push(model));
        i = i + 1;
        assert(kept.deep_view() =~= all.subrange(from as int, i as int));
    }
    assert(kept.deep_view() =~= last_entries(all));
    kept
}

/// The log with one more entry, as far as entries are kept.
pub open spec fn log_with(logs: Seq<LogEntryModel>, entry: LogEntryModel) -> Seq<LogEntryModel> {
    last_entries(logs.push(entry))
}

/// Puts an entry at the end of a log. Where there are too many, the oldest go.
pub fn push_log(logs: &mut Vec<PersistedLogEntry>, entry: PersistedLogEntry)
    ensures
        final(logs).deep_view() == log_with(old(logs).deep_view(), entry.deep_view()),
{
    let ghost before = logs.deep_view();
    let ghost model = entry.deep_view();
    logs.push(entry);
    assert(logs.deep_view() =~= before.push(model));
    if logs.len() > MAX_LOG_ENTRIES {
        *logs = persisted_log_entries_from_logs(logs);
    }
}

/// A log never holds more entries than are kept, and the newest entry is always there.
pub proof fn newest_entry_is_kept(logs: Seq<LogEntryModel>, entry: LogEntryModel)
    ensures
        0 < log_with(logs, entry).len() <= MAX_LOG_ENTRIES,
        log_with(logs, entry).last() == entry,
{
}

/// Saving the log and loading it again changes nothing: what is kept of what was kept is the
/// same.
pub proof fn kept_entries_stay(logs: Seq<LogEntryModel>)
    ensures
        last_entries(last_entries(logs)) == last_entries(logs),
{
}

/// The alarms of an earlier launch that are still to come, in order. Those that went off are
/// left out.
pub open spec fn restored_alarms(alarms: Seq<PendingAlarmModel>, now: LocalDateTime) -> Seq<
    PendingAlarmModel,
> {
    order::ordered(
        alarms.filter(
            |p: PendingAlarmModel| now.is_before(p.alarm.scheduled_for) && !(p.status is Fired),
        ),
    )
}

/// The alarms of an earlier launch whose time has passed, in order.
pub open spec fn missed_alarms(alarms: Seq<PendingAlarmModel>, now: LocalDateTime) -> Seq<
    PendingAlarmModel,
> {
    order::ordered(
        alarms.filter(|p: PendingAlarmModel| !now.is_before(p.alarm.scheduled_for)),
    )
}

/// Parts the alarms of an earlier launch into those that are still to come and those whose time
/// has passed.
pub fn split_saved_alarms(alarms: Vec<PendingAlarmSnapshot>, now: LocalDateTime) -> (parts: (
    Vec<PendingAlarmSnapshot>,
    Vec<PendingAlarmSnapshot>,
))
    ensures
        parts.0.deep_view() == restored_alarms(alarms.deep_view(), now),
        parts.1.deep_view() == missed_alarms(alarms.deep_view(), now),
{
    let ghost models = alarms.deep_view();
    let ghost all = alarms@;
    let ghost to_come = |p: PendingAlarmModel|
        now.is_before(p.alarm.scheduled_for) && !(p.status is Fired);
    let ghost passed = |p: PendingAlarmModel| !now.is_before(p.alarm.scheduled_for);
    let mut restored: Vec<PendingAlarmSnapshot> = Vec::new();
    let mut missed: Vec<PendingAlarmSnapshot> = Vec::new();
    proof {
        reveal(Seq::filter);
        assert(restored.deep_view() =~= models.take(0).filter(to_come));
        assert(missed.deep_view() =~= models.take(0).filter(passed));
    }
    for pending in iter: alarms
        invariant
            iter.seq() == all,
            models.len() == all.len(),
            forall|i: int| 0 <= i < all.len() ==> models[i] == (#[trigger] all[i]).deep_view(),
            to_come == (|p: PendingAlarmModel|
                now.is_before(p.alarm.scheduled_for) && !(p.status is Fired)),
            passed == (|p: PendingAlarmModel| !now.is_before(p.alarm.scheduled_for)),
            restored.deep_view() == models.take(iter.index()).filter(to_come),
            missed.deep_view() == models.take(iter.index()).filter(passed),
    {
        let ghost done = iter.index();
        let ghost model = pending.deep_view();
        let ghost restored_before = restored.deep_view();
        let ghost missed_before = missed.deep_view();
        proof {
            models.take(done).lemma_filter_push(model, to_come);
            models.take(done).lemma_filter_push(model, passed);
            assert(models.take(done).push(model) == models.take(done + 1));
        }
        if now.before(pending.alarm.scheduled_for) {
            if pending.status != AlarmStatus::Fired {
                restored.push(pending);
                assert(restored.deep_view() =~= restored_before.push(model));
            }
        } else {
            missed.push(pending);
            assert(missed.deep_view() =~= missed_before.push(model));
        }
    }
    assert(models.take(all.len() as int) == models);
    (put_in_order(restored), put_in_order(missed))
}

/// Every alarm of an earlier launch that has not gone off is either still to come or missed:
/// none is lost.
pub proof fn no_saved_alarm_is_lost(alarms: Seq<PendingAlarmModel>, now: LocalDateTime, k: int)
    requires
        0 <= k < alarms.len(),
        !(alarms[k].status is Fired),
    ensures
        if now.is_before(alarms[k].alarm.scheduled_for) {
            restored_alarms(alarms, now).contains(alarms[k])
        } else {
            missed_alarms(alarms, now).contains(alarms[k])
        },
{
    let to_come = |p: PendingAlarmModel|
        now.is_before(p.alarm.scheduled_for) && !(p.status is Fired);
    let passed = |p: PendingAlarmModel| !now.is_before(p.alarm.scheduled_for);
    order::order_keeps_members(alarms.filter(to_come));
    order::order_keeps_members(alarms.filter(passed));
    if now.is_before(alarms[k].alarm.scheduled_for) {
        let i = seqs::passing_is_kept(alarms, to_come, k);
        assert(alarms.filter(to_come).contains(alarms[k]));
    } else {
        let i = seqs::passing_is_kept(alarms, passed, k);
        assert(alarms.filter(passed).contains(alarms[k]));
    }
}

impl AlarmSnapshotModel {
    /// What there is to see, with the status that goes with it.
    pub open spec fn refreshed(self) -> AlarmSnapshotModel {
        AlarmSnapshotModel { status: alarm::overall_status(self.alarms, self.fired_at), ..self }
    }
}

/// Sets the status that goes with what there is to see.
pub fn refresh_alarm_snapshot_status(snapshot: &mut AlarmSnapshot)
    ensures
        final(snapshot).deep_view() == old(snapshot).deep_view().refreshed(),
{
    snapshot.status = status_of_alarms(&snapshot.alarms, snapshot.fired_at);
}

/// Whether a companion is paired with a Discord user.
pub open spec fn is_paired(settings: BridgeSettingsModel) -> bool {
    match settings.paired_discord_user_id {
        Some(id) => !text::is_blank(id),
        None => false,
    }
}

/// Whether a companion is paired with a Discord user.
pub fn paired(settings: &DiscordBridgeSettings) -> (paired: bool)
    ensures
        paired == is_paired(settings.deep_view()),
{
    match &settings.paired_discord_user_id {
        Some(id) => !text::blank(id.as_str()),
        None => false,
    }
}

/// What is shown of the paired account.
pub open spec fn account_words(settings: BridgeSettingsModel) -> Seq<char> {
    match settings.paired_discord_user_id {
        None => "-"@,
        Some(id) => match settings.paired_discord_user_label {
            Some(label) => if text::is_blank(label) {
                "ID: "@ + id
            } else {
                text::trimmed(label) + " (ID: "@ + id + ")"@
            },
            None => "ID: "@ + id,
        },
    }
}

/// What is shown of the paired account.
pub fn paired_discord_account_label(settings: &DiscordBridgeSettings) -> (label: String)
    ensures
        label@ == account_words(settings.deep_view()),
{
    let id = match &settings.paired_discord_user_id {
        Some(id) => id,
        None => {
            return "-".to_owned();
        },
    };
    match &settings.paired_discord_user_label {
        Some(label) => {
            if !text::blank(label.as_str()) {
                let mut shown = text::trim(label.as_str()).to_owned();
                shown.append(" (ID: ");
                shown.append(id.as_str());
                shown.append(")");
                return shown;
            }
        },
        None => {},
    }
    let mut shown = "ID: ".to_owned();
    shown.append(id.as_str());
    shown
}

/// The pairing code that is shown: one that has not expired, as long as the companion is not
/// paired.
pub open spec fn visible_code(settings: BridgeSettingsModel, now: LocalDateTime) -> Option<
    Seq<char>,
> {
    let fresh = match settings.pairing_expires_at {
        Some(expires_at) => now.is_before(expires_at),
        None => false,
    };
    if !text::is_blank(settings.pairing_code) && !is_paired(settings) && fresh {
        Some(text::trimmed(settings.pairing_code))
    } else {
        None
    }
}

/// The pairing code that is shown.
pub fn visible_pairing_code<'a>(settings: &'a DiscordBridgeSettings, now: LocalDateTime) -> (code:
    Option<&'a str>)
    ensures
        code.deep_view() == visible_code(settings.deep_view(), now),
{
    let code = text::trim(settings.pairing_code.as_str());
    let fresh: bool = match settings.pairing_expires_at {
        Some(expires_at) => now.before(expires_at),
        None => false,
    };
    if code.is_empty() || paired(settings) || !fresh {
        None
    } else {
        Some(code)
    }
}

/// Whether there is a pairing code, or what was left of one, that is not shown.
pub open spec fn has_inactive_code(settings: BridgeSettingsModel, now: LocalDateTime) -> bool {
    !(text::is_blank(settings.pairing_code) && settings.pairing_expires_at is None)
        && visible_code(settings, now) is None
}

/// The settings without a pairing code.
pub open spec fn without_code(settings: BridgeSettingsModel) -> BridgeSettingsModel {
    BridgeSettingsModel { pairing_code: Seq::empty(), pairing_expires_at: None, ..settings }
}

/// Drops a pairing code that is not shown, and says whether there was one.
pub fn clear_inactive_pairing_code(settings: &mut DiscordBridgeSettings, now: LocalDateTime) -> (
cleared: bool)
    ensures
        cleared == has_inactive_code(old(settings).deep_view(), now),
        final(settings).deep_view() == if cleared {
            without_code(old(settings).deep_view())
        } else {
            old(settings).deep_view()
        },
{
    if text::blank(settings.pairing_code.as_str()) && settings.pairing_expires_at.is_none() {
        return false;
    }
    if visible_pairing_code(settings, now).is_some() {
        return false;
    }
    settings.pairing_code = String::new();
    settings.pairing_expires_at = None;
    true
}

/// After inactive codes were dropped there is none to drop, at the same time.
pub proof fn inactive_code_is_cleared_once(settings: BridgeSettingsModel, now: LocalDateTime)
    ensures
        !has_inactive_code(without_code(settings), now),
{
}

/// How a user is mentioned.
pub open spec fn mention_of(user_id: Seq<char>) -> Seq<char> {
    "<@"@ + user_id + ">"@
}

/// How a user is mentioned.
pub fn discord_user_label(user_id: &str) -> (label: String)
    ensures
        label@ == mention_of(user_id@),
{
    let mut label = "<@".to_owned();
    label.append(user_id);
    label.append(">");
    label
}

/// A mention of a user names that user.
pub proof fn mention_names_the_user(id: Seq<char>)
    requires
        requesters::is_user_id(id),
    ensures
        requesters::user_id_of(mention_of(id)) == Some(id),
{
    reveal_strlit("<@");
    reveal_strlit(">");
    let mention = mention_of(id);
    assert(text::is_digit(id[0]));
    text::trimmed_of_tight(mention);
    assert(mention.subrange(0, 2) =~= "<@"@);
    assert(mention.skip(2) =~= id.push('>'));
    assert(id.push('>').drop_last() =~= id);
}

impl InviteModel {
    /// How the invited user is shown.
    pub open spec fn user_words(self) -> Seq<char> {
        if text::is_blank(self.invitee_label) {
            mention_of(self.invitee_id)
        } else {
            text::trimmed(self.invitee_label)
        }
    }
}

/// How the invited user is shown.
pub fn discord_invite_user_label(invite: &CompanionInvite) -> (label: String)
    ensures
        label@ == invite.deep_view().user_words(),
{
    let label = text::trim(invite.invitee_label.as_str());
    if label.is_empty() {
        discord_user_label(invite.invitee_id.as_str())
    } else {
        label.to_owned()
    }
}

/// What the user is asked of an invitation.
pub fn invite_question(invite: &CompanionInvite) -> (question: String)
    ensures
        question@ == "Allow "@ + invite.deep_view().user_words() + " to request alarms"@,
{
    let mut question = "Allow ".to_owned();
    question.append(discord_invite_user_label(invite).as_str());
    question.append(" to request alarms");
    question
}

/// Whether an invitation is among others.
pub open spec fn is_known_invite(invites: Seq<InviteModel>, id: u64) -> bool {
    exists|i: int| 0 <= i < invites.len() && (#[trigger] invites[i]).id == id
}

/// How the users of the invitations are shown that were not there before.
pub open spec fn new_invite_words(existing: Seq<InviteModel>, incoming: Seq<InviteModel>) -> Seq<
    Seq<char>,
> {
    incoming.filter(|i: InviteModel| !is_known_invite(existing, i.id)).map_values(
        |i: InviteModel| i.user_words(),
    )
}

/// Whether an invitation is among others.
pub fn knows_invite(invites: &Vec<CompanionInvite>, id: u64) -> (known: bool)
    ensures
        known == is_known_invite(invites.deep_view(), id),
{
    let mut i: usize = 0;
    while i < invites.len()
        invariant
            i <= invites@.len(),
            forall|j: int| 0 <= j < i ==> (#[trigger] invites.deep_view()[j]).id != id,
        decreases invites@.len() - i,
    {
        assert(invites.deep_view()[i as int] == invites@[i as int].deep_view());
        if invites[i].id == id {
            return true;
        }
        i = i + 1;
    }
    false
}

/// How the users of the invitations are shown that were not there before.
pub fn new_companion_invite_labels(
    existing_invites: &Vec<CompanionInvite>,
    incoming_invites: &Vec<CompanionInvite>,
) -> (labels: Vec<String>)
    ensures
        labels.deep_view() == new_invite_words(
            existing_invites.deep_view(),
            incoming_invites.deep_view(),
        ),
{
    let ghost all = incoming_invites.deep_view();
    let ghost existing = existing_invites.deep_view();
    let ghost is_new = |i: InviteModel| !is_known_invite(existing, i.id);
    let ghost words = |i: InviteModel| i.user_words();
    let mut labels: Vec<String> = Vec::new();
    let mut i: usize = 0;
    proof {
        reveal(Seq::filter);
        assert(labels.deep_view() =~= all.take(0).filter(is_new).map_values(words));
    }
    while i < incoming_invites.len()
        invariant
            i <= incoming_invites@.len(),
            all == incoming_invites.deep_view(),
            existing == existing_invites.deep_view(),
            is_new == (|i: InviteModel| !is_known_invite(existing, i.id)),
            words == (|i: InviteModel| i.user_words()),
            labels.deep_view() == all.take(i as int).filter(is_new).map_values(words),
        decreases incoming_invites@.len() - i,
    {
        let ghost before = labels.deep_view();
        let ghost model = all[i as int];
        assert(model == incoming_invites@[i as int].deep_view());
        proof {
            all.take(i as int).lemma_filter_push(model, is_new);
            assert(all.take(i as int).push(model) == all.take(i + 1));
        }
        if !knows_invite(existing_invites, incoming_invites[i].id) {
            labels.push(discord_invite_user_label(&incoming_invites[i]));
            assert(labels.deep_view() =~= before.push(words(model)));
            assert(all.take(i as int).filter(is_new).push(model).map_values(words)
                =~= all.take(i as int).filter(is_new).map_values(words).push(words(model)));
        }
        i = i + 1;
    }
    assert(all.take(i as int) == all);
    labels
}

/// The name that a request gives for who asks; none if it is blank.
pub open spec fn given_name(request: RemoteRequestModel) -> Option<Seq<char>> {
    match request.requester_label {
        Some(label) => if text::is_blank(label) {
            None
        } else {
            Some(text::trimmed(label))
        },
        None => None,
    }
}

/// The settings after the name that a request gives was remembered.
pub open spec fn with_request_label(
    settings: BridgeSettingsModel,
    request: RemoteRequestModel,
) -> BridgeSettingsModel {
    match given_name(request) {
        Some(name) => discord_bridge::with_requester(settings, request.requester_id, name),
        None => settings,
    }
}

/// Whether two lists of requesters are the same.
pub fn same_requesters(
    left: &Vec<AllowedDiscordRequester>,
    right: &Vec<AllowedDiscordRequester>,
) -> (same: bool)
    ensures
        same == (left.deep_view() == right.deep_view()),
{
    if left.len() != right.len() {
        return false;
    }
    let ghost a = left.deep_view();
    let ghost b = right.deep_view();
    let mut i: usize = 0;
    while i < left.len()
        invariant
            i <= left@.len(),
            left@.len() == right@.len(),
            a == left.deep_view(),
            b == right.deep_view(),
            forall|j: int| 0 <= j < i ==> #[trigger] a[j] == b[j],
        decreases left@.len() - i,
    {
        assert(a[i as int] == left@[i as int].deep_view());
        assert(b[i as int] == right@[i as int].deep_view());
        if !text::same_text(
            left[i].discord_user_id.as_str(),
            right[i].discord_user_id.as_str(),
        ) || !text::same_text(left[i].display_name.as_str(), right[i].display_name.as_str()) {
            return false;
        }
        i = i + 1;
    }
    assert(a =~= b);
    true
}

/// Remembers the name that a request gives for who asks, and says whether that changed
/// anything.
pub fn remember_requester_label_from_request(
    settings: &mut DiscordBridgeSettings,
    request: &RemoteAlarmRequest,
) -> (changed: bool)
    ensures
        final(settings).deep_view() == with_request_label(
            old(settings).deep_view(),
            request.deep_view(),
        ),
        changed == (final(settings).deep_view().allowed_requesters != old(
            settings,
        ).deep_view().allowed_requesters),
{
    let name: &str = match &request.requester_label {
        Some(label) => {
            if text::blank(label.as_str()) {
                return false;
            }
            text::trim(label.as_str())
        },
        None => {
            return false;
        },
    };
    let previous = settings.allowed_requesters.clone();
    assert(previous.deep_view() =~= old(settings).allowed_requesters.deep_view());
    remember_allowed_requester(settings, request.requester_id.as_str(), name);
    !same_requesters(&settings.allowed_requesters, &previous)
}

/// A row in the list of users who may ask for alarms.
#[derive(Debug, PartialEq, Eq)]
pub struct AllowedDiscordUserRow {
    pub discord_user_id: String,
    pub display_name: String,
}

impl DeepView for AllowedDiscordUserRow {
    type V = RequesterModel;

    open spec fn deep_view(&self) -> RequesterModel {
        RequesterModel {
            discord_user_id: self.discord_user_id@,
            display_name: self.display_name@,
        }
    }
}

/// The name that is shown for a user who may ask for alarms.
pub open spec fn shown_name(requesters: Seq<RequesterModel>, id: Seq<char>) -> Seq<char> {
    match seqs::first_where(requesters, |r: RequesterModel| r.discord_user_id == id) {
        Some(i) => if text::is_blank(requesters[i].display_name) {
            "Unknown user"@
        } else {
            text::trimmed(requesters[i].display_name)
        },
        None => "Unknown user"@,
    }
}

/// The row of a user in the list of users who may ask for alarms.
pub open spec fn user_row(settings: BridgeSettingsModel, id: Seq<char>) -> RequesterModel {
    RequesterModel {
        discord_user_id: id,
        display_name: shown_name(settings.allowed_requesters, id),
    }
}

/// The list of users who may ask for alarms.
pub open spec fn user_rows(settings: BridgeSettingsModel) -> Seq<RequesterModel> {
    requesters::listing(requesters::users_in(settings.allowed_requester_ids)).map_values(
        |id: Seq<char>| user_row(settings, id),
    )
}

/// The list of users who may ask for alarms.
pub fn allowed_discord_user_rows(settings: &DiscordBridgeSettings) -> (rows: Vec<
    AllowedDiscordUserRow,
>)
    ensures
        rows.deep_view() == user_rows(settings.deep_view()),
{
    let ids = requesters::allowed_requester_ids(settings.allowed_requester_ids.as_str());
    let ghost model = settings.deep_view();
    let ghost all = ids.deep_view();
    let ghost row_of = |id: Seq<char>| user_row(model, id);
    let mut rows: Vec<AllowedDiscordUserRow> = Vec::new();
    let mut i: usize = 0;
    assert(rows.deep_view() =~= all.take(0).map_values(row_of));
    while i < ids.len()
        invariant
            i <= ids@.len(),
            all == ids.deep_view(),
            model == settings.deep_view(),
            row_of == (|id: Seq<char>| user_row(model, id)),
            rows.deep_view() == all.take(i as int).map_values(row_of),
        decreases ids@.len() - i,
    {
        let ghost before = rows.deep_view();
        assert(all[i as int] == ids@[i as int]@);
        let at: usize = position_of_requester(&settings.allowed_requesters, ids[i].as_str());
        let mut display_name = "Unknown user".to_owned();
        if at < settings.allowed_requesters.len() {
            assert(model.allowed_requesters[at as int]
                == settings.allowed_requesters@[at as int].deep_view());
            let name = text::trim(settings.allowed_requesters[at].display_name.as_str());
            if !name.is_empty() {
                display_name = name.to_owned();
            }
        }
        rows.push(AllowedDiscordUserRow { discord_user_id: ids[i].clone(), display_name });
        assert(rows.deep_view() =~= before.push(row_of(all[i as int])));
        assert(all.take(i + 1) =~= all.take(i as int).push(all[i as int]));
        assert(rows.deep_view() =~= all.take(i + 1).map_values(row_of));
        i = i + 1;
    }
    assert(all.take(i as int) =~= all);
    rows
}

/// The list of users who may ask has one row for each of them and none for anybody else.
pub proof fn everybody_who_may_ask_has_a_row(settings: BridgeSettingsModel, id: Seq<char>)
    ensures
        ({
            let rows = user_rows(settings);
            let listed = requesters::users_in(settings.allowed_requester_ids).contains(id);
            &&& listed <==> exists|i: int|
                0 <= i < rows.len() && (#[trigger] rows[i]).discord_user_id == id
            &&& forall|i: int, j: int|
                0 <= i < j < rows.len() ==> (#[trigger] rows[i]).discord_user_id != (
                #[trigger] rows[j]).discord_user_id
        }),
{
    let users = requesters::users_in(settings.allowed_requester_ids);
    requesters::users_in_list_are_users(settings.allowed_requester_ids);
    requesters::listing_exists(users);
    let ids = requesters::listing(users);
    let rows = user_rows(settings);
    assert forall|i: int| 0 <= i < rows.len() implies (#[trigger] rows[i]).discord_user_id
        == ids[i] by {}
    if users.contains(id) {
        assert(ids.contains(id));
        let i = choose|i: int| 0 <= i < ids.len() && ids[i] == id;
        assert(rows[i].discord_user_id == id);
    }
    if exists|i: int| 0 <= i < rows.len() && (#[trigger] rows[i]).discord_user_id == id {
        let i = choose|i: int| 0 <= i < rows.len() && (#[trigger] rows[i]).discord_user_id == id;
        assert(ids[i] == id);
        assert(ids.contains(id));
    }
}

/// A user who may ask is shown by the name that is known, without white space around it; where
/// none is known, the user is shown as unknown.
pub proof fn user_is_shown_by_the_known_name(requesters: Seq<RequesterModel>, k: int, id: Seq<char>)
    requires
        0 <= k <= requesters.len(),
        forall|j: int| 0 <= j < k ==> (#[trigger] requesters[j]).discord_user_id != id,
        k < requesters.len() ==> requesters[k].discord_user_id == id,
    ensures
        k < requesters.len() && text::trimmed(requesters[k].display_name).len() > 0 ==> shown_name(
            requesters,
            id,
        ) == text::trimmed(requesters[k].display_name),
        k == requesters.len() || text::trimmed(requesters[k].display_name).len() == 0
            ==> shown_name(requesters, id) == "Unknown user"@,
{
    seqs::first_is_found(requesters, |r: RequesterModel| r.discord_user_id == id, k);
}

/// The integration works while the game reports and its reports are not old: at once, whether a
/// match is on or only the game is open, and not before the first report nor 15 seconds after the
/// last one.
pub proof fn integration_works_while_the_game_reports(
    port: u16,
    snapshot: SnapshotModel,
    now: u128,
)
    ensures
        ({
            let works = gsi_works(Some(counter_strike::snapshot_status(port, snapshot, now)));
            &&& snapshot.last_payload_at is None ==> !works
            &&& snapshot.last_payload_at matches Some(at) ==> {
                &&& now - at > 15_000_000_000 ==> !works
                &&& now - at <= 15_000_000_000 && !snapshot.map_present ==> works
                &&& counter_strike::snapshot_status(port, snapshot, now) is Active ==> works
            }
        }),
        !gsi_works(None),
{
    reveal_strlit("waiting for GSI updates on 127.0.0.1:");
    reveal_strlit("waiting for GSI updates");
    reveal_strlit("no recent GSI updates");
    reveal_strlit("client open, not connected to a server");
    let waiting = "waiting for GSI updates on 127.0.0.1:"@ + text::decimal(port as nat);
    let prefix = "waiting for GSI updates"@;
    assert(waiting.subrange(0, prefix.len() as int) =~= prefix);
    let open = "client open, not connected to a server"@;
    assert(open[0] == 'c');
    assert("no recent GSI updates"@[0] == 'n');
    if text::begins_with(open, prefix) {
        assert(open.subrange(0, prefix.len() as int)[0] == prefix[0]);
        assert(false);
    }
}

/// The paired account is shown by its label and its number, by the number alone where there is no
/// label, and by a dash where there is none.
pub proof fn paired_account_is_shown(settings: BridgeSettingsModel, id: Seq<char>, label: Seq<char>)
    ensures
        settings.paired_discord_user_id is None ==> account_words(settings) == "-"@,
        settings.paired_discord_user_id == Some(id) && settings.paired_discord_user_label == Some(
            label,
        ) && text::trimmed(label).len() > 0 ==> account_words(settings) == text::trimmed(label)
            + " (ID: "@ + id + ")"@,
        settings.paired_discord_user_id == Some(id) && (settings.paired_discord_user_label is None
            || text::trimmed(settings.paired_discord_user_label->0).len() == 0) ==> account_words(
            settings,
        ) == "ID: "@ + id,
        is_paired(settings) <==> (settings.paired_discord_user_id matches Some(paired)
            && text::trimmed(paired).len() > 0),
{
}

/// An invited user is shown by the label, without white space around it, or by a mention where
/// there is none; from the mention the number can be read again.
pub proof fn invited_user_is_shown(invite: InviteModel)
    ensures
        text::trimmed(invite.invitee_label).len() > 0 ==> invite.user_words() == text::trimmed(
            invite.invitee_label,
        ),
        text::trimmed(invite.invitee_label).len() == 0 && requesters::is_user_id(invite.invitee_id)
            ==> requesters::user_id_of(invite.user_words()) == Some(invite.invitee_id),
{
    if requesters::is_user_id(invite.invitee_id) {
        mention_names_the_user(invite.invitee_id);
    }
}

/// The user is told of exactly those invitations that were not there before, in their order.
pub proof fn new_invitations_are_named(
    existing: Seq<InviteModel>,
    incoming: Seq<InviteModel>,
    invite: InviteModel,
)
    ensures
        new_invite_words(existing, Seq::empty()).len() == 0,
        new_invite_words(existing, incoming.push(invite)) == if exists|j: int|
            0 <= j < existing.len() && (#[trigger] existing[j]).id == invite.id {
            new_invite_words(existing, incoming)
        } else {
            new_invite_words(existing, incoming).push(invite.user_words())
        },
{
    reveal(Seq::filter);
    let is_new = |i: InviteModel| !is_known_invite(existing, i.id);
    let words = |i: InviteModel| i.user_words();
    assert(incoming.push(invite).drop_last() =~= incoming);
    if is_new(invite) {
        assert(incoming.filter(is_new).push(invite).map_values(words) =~= incoming.filter(
            is_new,
        ).map_values(words).push(invite.user_words()));
    }
    assert(new_invite_words(existing, incoming.push(invite)) =~= if is_known_invite(
        existing,
        invite.id,
    ) {
        new_invite_words(existing, incoming)
    } else {
        new_invite_words(existing, incoming).push(invite.user_words())
    });
}

/// The name that a request gives is remembered for who asks, and for nobody else; a request that
/// gives none changes no name. Who may ask does not change.
pub proof fn name_in_a_request_is_remembered(
    settings: BridgeSettingsModel,
    request: RemoteRequestModel,
    id: Seq<char>,
    name: Seq<char>,
    x: RequesterModel,
)
    requires
        requesters::user_id_of(request.requester_id) == Some(id),
    ensures
        ({
            let after = with_request_label(settings, request);
            &&& after.allowed_requester_ids == settings.allowed_requester_ids
            &&& after.paired_discord_user_id == settings.paired_discord_user_id
            &&& x.discord_user_id != id ==> (after.allowed_requesters.contains(x)
                <==> settings.allowed_requesters.contains(x))
            &&& request.requester_label == Some(name) && text::trimmed(name).len() > 0
                ==> after.allowed_requesters.contains(
                RequesterModel { discord_user_id: id, display_name: text::trimmed(name) },
            )
            &&& request.requester_label is None || text::trimmed(request.requester_label->0).len()
                == 0 ==> after == settings
        }),
{
    match given_name(request) {
        Some(given) => {
            text::trimming_twice_is_trimming_once(request.requester_label->0);
            discord_bridge::remembering_changes_nobody_else(
                settings.allowed_requesters,
                id,
                given,
                x,
            );
            discord_bridge::remembered_name_is_known(settings.allowed_requesters, id, given);
        },
        None => {},
    }
}

/// A label that was typed in is used without white space around it; where none was, the alarm is
/// called an alarm.
pub proof fn label_is_the_one_typed_in(value: Seq<char>)
    ensures
        text::trimmed(value).len() > 0 ==> label_of(value) == text::trimmed(value),
        text::trimmed(value).len() == 0 ==> label_of(value) == "Alarm"@,
{
}

} // verus!
