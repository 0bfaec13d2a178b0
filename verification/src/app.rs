//! The app: what it holds, and how it answers the user, the monitor and the bridge.
//!
//! The app itself touches nothing outside. What there is to do it puts into a list of actions,
//! for whoever runs it to carry out in order.
use vstd::prelude::*;

use crate::alarm;
use crate::alarm::{
    next_alarm_id_after, next_alarm_time, normalize_alarm_time_text, remove_alarm, same_alarms,
    same_optional_text, Alarm, AlarmEngine, AlarmId, AlarmStatus, AlarmTimeError,
    PendingAlarmSnapshot,
};
use crate::app_model;
use crate::app_model::{ActionModel, AppModel, AppPage, PopupModel, MAX_HANDLED_REQUESTS};
use crate::counter_strike;
use crate::counter_strike::config_to_install;
use crate::crash::CrashNotice;
use crate::discord_bridge;
use crate::discord_bridge::{
    fill_credentials, forget_allowed_requester, generate_api_token, generate_companion_id,
    generate_pairing_code, remember_allowed_requester, BridgeMessage, CompanionInvite,
    DiscordBridgeSettings, InviteModel, InviteStatus, PairingRegistrationResponse,
    PollRequestsResponse, RemoteAlarmRequest, RemoteRequestModel, RequestStatus,
    POLL_INTERVAL_MILLIS,
};
use crate::game::{GameDetectionConfig, GameMonitorStatus, GameStatus, GameStatusModel};
use crate::order::put_in_order;
use crate::pages::{
    alarm_label_from_text, clear_inactive_pairing_code, discord_invite_user_label,
    game_status_name, gsi_config_path_from_text, lockfile_override_from_text,
    new_companion_invite_labels, paired, persisted_log_entries_from_logs, push_log,
    refresh_alarm_snapshot_status, remember_requester_label_from_request, split_saved_alarms,
};
use crate::paths;
use crate::requesters;
use crate::requesters::{add_allowed_requester, remove_allowed_requester, requester_is_allowed};
use crate::seqs;
use crate::sound::{sound_path_from_text, SoundHandle};
use crate::storage::{PersistedLogEntry, PersistedLogLevel, PersistedState};
use crate::text;
use crate::time;
use crate::time::{format_datetime, format_time, local_datetime_from_unix, LocalDateTime};
use crate::worker::{MonitorCommand, MonitorEvent, MonitorSnapshot};

verus! {

/// An alarm that is shown until it is dismissed.
#[derive(Debug)]
pub struct AlarmPopup {
    pub id: u64,
    pub reminder: String,
    pub fired_at: LocalDateTime,
    pub delayed_by_game: bool,
    pub missed: bool,
    pub sound: Option<SoundHandle>,
}

impl DeepView for AlarmPopup {
    type V = PopupModel;

    open spec fn deep_view(&self) -> PopupModel {
        PopupModel {
            id: self.id,
            reminder: self.reminder@,
            fired_at: self.fired_at,
            delayed_by_game: self.delayed_by_game,
            missed: self.missed,
            sound: self.sound,
        }
    }
}

/// What is shown of an alarm that goes off or was missed: first what to emphasize, then line by
/// line what else there is to say.
pub open spec fn popup_words(popup: PopupModel) -> Seq<Seq<char>> {
    let delayed = if popup.delayed_by_game {
        seq!["Delayed until the game ended"@]
    } else {
        Seq::empty()
    };
    if popup.missed {
        seq![
            "Missed alarm: "@ + popup.reminder,
            "Was due at "@ + app_model::shown(popup.fired_at),
            "No sound was played."@,
        ] + delayed
    } else {
        seq![popup.reminder, "Fired at "@ + app_model::shown(popup.fired_at)] + delayed
    }
}

impl AlarmPopup {
    /// What is shown of the alarm, line by line.
    pub fn lines(&self) -> (lines: Vec<String>)
        ensures
            lines.deep_view() == popup_words(self.deep_view()),
    {
        let mut lines: Vec<String> = Vec::new();
        if self.missed {
            let mut title = "Missed alarm: ".to_owned();
            title.append(self.reminder.as_str());
            lines.push(title);
            let mut due = "Was due at ".to_owned();
            due.append(format_datetime(self.fired_at).as_str());
            lines.push(due);
            lines.push("No sound was played.".to_owned());
        } else {
            lines.push(self.reminder.clone());
            let mut fired = "Fired at ".to_owned();
            fired.append(format_datetime(self.fired_at).as_str());
            lines.push(fired);
        }
        if self.delayed_by_game {
            lines.push("Delayed until the game ended".to_owned());
        }
        assert(lines.deep_view() =~= popup_words(self.deep_view()));
        lines
    }
}

/// What is shown of when something expires.
pub fn expiry_text(expires_at: LocalDateTime) -> (shown: String)
    ensures
        shown@ == "Expires "@ + expires_at.text_for(time::EXPIRY_PATTERN@),
{
    let mut shown = "Expires ".to_owned();
    shown.append(time::format_expiry_datetime(expires_at).as_str());
    shown
}

/// Something to do outside of the app's own memory.
#[derive(Debug)]
pub enum AppAction {
    /// Tell the monitor to do something.
    Send(MonitorCommand),
    /// Write the state to disk.
    Save(PersistedState),
    /// Stop a sound.
    StopSound(SoundHandle),
    /// Bring the window to the user's attention.
    RequestAttention,
    /// Send a message that registers a pairing code, and hand back what came of it.
    Register(BridgeMessage),
    /// Send a message that asks for requests, and hand back what came of it.
    Poll(BridgeMessage),
    /// Send a message to which the answer does not matter.
    Report(BridgeMessage),
}

impl DeepView for AppAction {
    type V = ActionModel;

    open spec fn deep_view(&self) -> ActionModel {
        match *self {
            AppAction::Send(command) => ActionModel::Send(command.deep_view()),
            AppAction::Save(state) => ActionModel::Save(state.deep_view()),
            AppAction::StopSound(sound) => ActionModel::StopSound(sound),
            AppAction::RequestAttention => ActionModel::RequestAttention,
            AppAction::Register(message) => ActionModel::Register(message.deep_view()),
            AppAction::Poll(message) => ActionModel::Poll(message.deep_view()),
            AppAction::Report(message) => ActionModel::Report(message.deep_view()),
        }
    }
}

/// The app. Points of a clock that never goes back are in milliseconds.
#[derive(Debug)]
pub struct AlarmApp {
    pub state: PersistedState,
    pub snapshot: MonitorSnapshot,
    pub alarm_popups: Vec<AlarmPopup>,
    pub next_alarm_id: AlarmId,
    pub next_alarm_popup_id: u64,
    pub test_sound: Option<SoundHandle>,
    pub logs: Vec<PersistedLogEntry>,
    pub current_page: AppPage,
    pub registering: bool,
    pub polling: bool,
    pub next_bridge_poll_at: u64,
    pub bridge_status: String,
    pub handled_bridge_request_ids: Vec<u64>,
    pub pending_companion_invites: Vec<CompanionInvite>,
    pub new_allowed_requester_id: String,
    pub actions: Vec<AppAction>,
}

impl DeepView for AlarmApp {
    type V = AppModel;

    open spec fn deep_view(&self) -> AppModel {
        AppModel {
            state: self.state.deep_view(),
            snapshot: self.snapshot.deep_view(),
            alarm_popups: self.alarm_popups.deep_view(),
            next_alarm_id: self.next_alarm_id,
            next_alarm_popup_id: self.next_alarm_popup_id,
            test_sound: self.test_sound,
            logs: self.logs.deep_view(),
            current_page: self.current_page,
            registering: self.registering,
            polling: self.polling,
            next_bridge_poll_at: self.next_bridge_poll_at,
            bridge_status: self.bridge_status@,
            handled_bridge_request_ids: self.handled_bridge_request_ids@,
            pending_companion_invites: self.pending_companion_invites.deep_view(),
            new_allowed_requester_id: self.new_allowed_requester_id@,
            actions: self.actions.deep_view(),
        }
    }
}

/// Settings that the user is told of when they were saved.
#[derive(Clone, Copy, Debug, PartialEq, Eq, Structural)]
pub enum SavedSettings {
    All,
    Games,
    GameDelay,
    Appearance,
    GraphicsBackend,
}

impl SavedSettings {
    /// What the user is told.
    pub open spec fn words(self) -> Seq<char> {
        match self {
            SavedSettings::All => "Settings saved"@,
            SavedSettings::Games => "Game settings saved"@,
            SavedSettings::GameDelay => "Game delay setting saved"@,
            SavedSettings::Appearance => "Appearance setting saved"@,
            SavedSettings::GraphicsBackend => "Graphics backend setting saved; restart required"@,
        }
    }

    /// What the user is told.
    pub fn message(self) -> (message: &'static str)
        ensures
            message@ == self.words(),
    {
        match self {
            SavedSettings::All => "Settings saved",
            SavedSettings::Games => "Game settings saved",
            SavedSettings::GameDelay => "Game delay setting saved",
            SavedSettings::Appearance => "Appearance setting saved",
            SavedSettings::GraphicsBackend => "Graphics backend setting saved; restart required",
        }
    }
}

/// What is known of a task that runs in the background.
#[derive(Debug)]
pub enum TaskReport<T> {
    Running,
    Over(Result<T, String>),
    Lost,
}

/// How games are to be detected.
pub fn game_detection_config_from_state(state: &PersistedState) -> (config: GameDetectionConfig)
    ensures
        config.deep_view() == app_model::detection_config(state.deep_view()),
{
    GameDetectionConfig {
        league_lockfile_override: lockfile_override_from_text(state.lockfile_path.as_str()),
        counter_strike_2_gsi_port: state.counter_strike_2_gsi_port,
    }
}

impl AlarmApp {
    fn act(&mut self, action: AppAction)
        ensures
            final(self).deep_view() == old(self).deep_view().acting(action.deep_view()),
    {
        let ghost before = self.actions.deep_view();
        let ghost model = action.deep_view();
        self.actions.push(action);
        assert(self.actions.deep_view() =~= before.push(model));
    }

    /// Hands over what there is to do.
    pub fn take_actions(&mut self) -> (actions: Vec<AppAction>)
        ensures
            actions.deep_view() == old(self).deep_view().actions,
            final(self).deep_view() == (AppModel {
                actions: Seq::empty(),
                ..old(self).deep_view()
            }),
    {
        let mut actions: Vec<AppAction> = Vec::new();
        std::mem::swap(&mut actions, &mut self.actions);
        assert(self.actions.deep_view() =~= Seq::empty());
        actions
    }

    /// Brings the state up to date, and has it saved.
    pub fn persist_current_state(&mut self)
        ensures
            final(self).deep_view() == old(self).deep_view().saving(),
    {
        self.state.logs = persisted_log_entries_from_logs(&self.logs);
        self.state.alarms = alarm::copy_alarms(&self.snapshot.alarm.alarms);
        let state = self.state.clone();
        self.act(AppAction::Save(state));
    }

    fn note(&mut self, level: PersistedLogLevel, occurred_at: LocalDateTime, message: String)
        ensures
            final(self).deep_view() == old(self).deep_view().noting(level, occurred_at, message@),
    {
        push_log(&mut self.logs, PersistedLogEntry { occurred_at, level, message });
    }

    /// Logs something, and has the state saved.
    pub fn log_at(&mut self, level: PersistedLogLevel, occurred_at: LocalDateTime, message: String)
        ensures
            final(self).deep_view() == old(self).deep_view().logging(level, occurred_at, message@),
    {
        self.note(level, occurred_at, message);
        self.persist_current_state();
    }

    /// Logs something that is no trouble.
    pub fn log_info(&mut self, message: String, now: LocalDateTime)
        ensures
            final(self).deep_view() == old(self).deep_view().informing(now, message@),
    {
        self.log_at(PersistedLogLevel::Info, now, message);
    }

    /// Logs trouble.
    pub fn log_error(&mut self, message: String, now: LocalDateTime)
        ensures
            final(self).deep_view() == old(self).deep_view().complaining(now, message@),
    {
        self.log_at(PersistedLogLevel::Error, now, message);
    }

    /// Logs that the state could not be saved. What there is to do is done once it was handed
    /// over, so the entry stands behind those that were logged until then.
    pub fn save_failed(&mut self, reason: &str, now: LocalDateTime)
        ensures
            final(self).deep_view() == old(self).deep_view().save_failed(now, reason@),
    {
        let mut message = "Could not save app state: ".to_owned();
        message.append(reason);
        self.note(PersistedLogLevel::Error, now, message);
    }

    /// Shows an alarm until it is dismissed.
    pub fn push_alarm_popup(
        &mut self,
        reminder: String,
        fired_at: LocalDateTime,
        delayed_by_game: bool,
        missed: bool,
        sound: Option<SoundHandle>,
    )
        ensures
            final(self).deep_view() == old(self).deep_view().showing(
                reminder@,
                fired_at,
                delayed_by_game,
                missed,
                sound,
            ),
    {
        let id: u64 = self.next_alarm_popup_id;
        self.next_alarm_popup_id = if id < u64::MAX {
            id + 1
        } else {
            1
        };
        let ghost before = self.alarm_popups.deep_view();
        let popup = AlarmPopup { id, reminder, fired_at, delayed_by_game, missed, sound };
        let ghost model = popup.deep_view();
        self.alarm_popups.push(popup);
        assert(self.alarm_popups.deep_view() =~= before.push(model));
    }

    /// Shows an alarm that was missed.
    pub fn show_missed_alarm(&mut self, alarm: PendingAlarmSnapshot, now: LocalDateTime)
        ensures
            final(self).deep_view() == old(self).deep_view().showing_missed(
                alarm.deep_view(),
                now,
            ),
    {
        let mut message = "Missed alarm from ".to_owned();
        message.append(format_datetime(alarm.alarm.scheduled_for).as_str());
        message.append(" while the app was not running: ");
        message.append(alarm.alarm.reminder.as_str());
        self.log_error(message, now);
        self.push_alarm_popup(
            alarm.alarm.reminder,
            alarm.alarm.scheduled_for,
            alarm.delayed_by_game,
            true,
            None,
        );
    }

    /// Sets the status of the bridge.
    pub fn set_bridge_status(&mut self, status: String) -> (changed: bool)
        ensures
            changed == (old(self).deep_view().bridge_status != status@),
            final(self).deep_view() == old(self).deep_view().with_status(status@),
    {
        if text::same_text(self.bridge_status.as_str(), status.as_str()) {
            false
        } else {
            self.bridge_status = status;
            true
        }
    }

    fn stop_test(&mut self)
        ensures
            final(self).deep_view() == old(self).deep_view().test_sound_stopped(),
    {
        match self.test_sound {
            Some(sound) => {
                self.test_sound = None;
                self.act(AppAction::StopSound(sound));
            },
            None => {},
        }
    }

    /// Forgets the sound that was played for a test, if it has come to its end.
    pub fn clear_finished_test_sound(&mut self, is_finished: bool) -> (finished: bool)
        ensures
            finished == (old(self).test_sound is Some && is_finished),
            final(self).deep_view() == if finished {
                AppModel { test_sound: None, ..old(self).deep_view() }
            } else {
                old(self).deep_view()
            },
    {
        if self.test_sound.is_some() && is_finished {
            self.test_sound = None;
            true
        } else {
            false
        }
    }
}

impl AlarmApp {
    /// Takes in what the monitor reported.
    pub fn handle_monitor_event(&mut self, event: MonitorEvent, now: LocalDateTime)
        ensures
            final(self).deep_view() == old(self).deep_view().after_event(event.deep_view(), now),
    {
        match event {
            MonitorEvent::Snapshot(snapshot) => {
                let unchanged: bool = same_alarms(
                    &self.snapshot.alarm.alarms,
                    &snapshot.alarm.alarms,
                );
                self.snapshot = snapshot;
                if !unchanged {
                    self.persist_current_state();
                }
            },
            MonitorEvent::AlarmFired { id, reminder, delayed_by_game, fired_at, sound } => {
                let alarms = alarm::copy_alarms(&self.snapshot.alarm.alarms);
                self.snapshot.alarm.alarms = remove_alarm(alarms, id);
                self.snapshot.alarm.fired_at = Some(fired_at);
                self.snapshot.alarm.last_fired_reminder = Some(reminder.clone());
                refresh_alarm_snapshot_status(&mut self.snapshot.alarm);
                let mut message = "Alarm fired at ".to_owned();
                message.append(format_datetime(fired_at).as_str());
                if delayed_by_game {
                    message.append(" after the game ended");
                }
                message.append(": ");
                message.append(reminder.as_str());
                assert(message@ =~= app_model::fired_words(fired_at, delayed_by_game, reminder@));
                self.log_info(message, fired_at);
                self.push_alarm_popup(reminder, fired_at, delayed_by_game, false, sound);
                self.act(AppAction::RequestAttention);
            },
            MonitorEvent::TestAlarmPopup { reminder, fired_at, sound } => {
                let mut message = "Test alarm popup shown at ".to_owned();
                message.append(format_time(fired_at).as_str());
                self.log_info(message, fired_at);
                self.push_alarm_popup(reminder, fired_at, false, false, sound);
                self.act(AppAction::RequestAttention);
            },
            MonitorEvent::TestSoundStarted { sound, started_at } => {
                self.stop_test();
                self.test_sound = sound;
                let message = if sound.is_some() {
                    let mut message = "Test sound started at ".to_owned();
                    message.append(format_time(started_at).as_str());
                    message
                } else {
                    "Alarm sound is disabled".to_owned()
                };
                self.log_info(message, started_at);
            },
            MonitorEvent::NotificationError(error) => {
                self.log_error(error, now);
            },
            MonitorEvent::SoundError(error) => {
                self.log_error(error, now);
            },
        }
    }

    /// Takes in all that the monitor reported, and says whether that was anything.
    pub fn drain_monitor_events(&mut self, events: Vec<MonitorEvent>, now: LocalDateTime) -> (
    had_events: bool)
        ensures
            had_events == (events@.len() > 0),
            final(self).deep_view() == old(self).deep_view().after_events(
                events.deep_view(),
                now,
            ),
    {
        let had_events: bool = events.len() > 0;
        let ghost before = self.deep_view();
        let ghost models = events.deep_view();
        let ghost all = events@;
        assert(before.after_events(models.take(0), now) == before);
        for event in iter: events
            invariant
                iter.seq() == all,
                models.len() == all.len(),
                forall|i: int| 0 <= i < all.len() ==> models[i] == (#[trigger] all[i]).deep_view(),
                self.deep_view() == before.after_events(models.take(iter.index()), now),
        {
            proof {
                let done = iter.index();
                assert(models.take(done + 1).drop_last() =~= models.take(done));
                assert(models.take(done + 1).last() == event.deep_view());
            }
            self.handle_monitor_event(event, now);
        }
        assert(models.take(all.len() as int) =~= models);
        had_events
    }

    /// Writes the alarm time the way the app shows it.
    pub fn normalize_alarm_time_field(&mut self) -> (outcome: Result<(), AlarmTimeError>)
        ensures
            final(self).deep_view() == old(self).deep_view().with_normalized_time(),
            match outcome {
                Ok(_) => alarm::time_of_text(old(self).state.alarm_time@) is Some,
                Err(e) => e is InvalidFormat && alarm::time_of_text(
                    old(self).state.alarm_time@,
                ) is None,
            },
    {
        match normalize_alarm_time_text(self.state.alarm_time.as_str()) {
            Ok(normalized) => {
                if !text::same_text(self.state.alarm_time.as_str(), normalized.as_str()) {
                    self.state.alarm_time = normalized;
                    self.persist_current_state();
                }
                Ok(())
            },
            Err(error) => Err(error),
        }
    }

    /// Sets an alarm for a label and a point in time.
    pub fn schedule_alarm_at(&mut self, label: String, scheduled_for: LocalDateTime)
        ensures
            final(self).deep_view() == old(self).deep_view().with_alarm_at(label@, scheduled_for),
    {
        let alarm = Alarm {
            reminder: label,
            scheduled_for,
            delay_for_games: self.state.delay_for_games,
            sound_path: sound_path_from_text(self.state.sound_path.as_str()),
        };
        let id: AlarmId = self.next_alarm_id;
        self.next_alarm_id = id.saturating_add(1);
        let mut alarms = alarm::copy_alarms(&self.snapshot.alarm.alarms);
        let ghost before = alarms.deep_view();
        let ghost added = alarm::newly_scheduled(id, alarm.deep_view());
        alarms.push(
            PendingAlarmSnapshot {
                id,
                alarm: alarm.clone(),
                status: AlarmStatus::Scheduled,
                delayed_by_game: false,
            },
        );
        assert(alarms.deep_view() =~= before.push(added));
        self.snapshot.alarm.alarms = put_in_order(alarms);
        self.snapshot.alarm.fired_at = None;
        self.snapshot.alarm.last_fired_reminder = None;
        refresh_alarm_snapshot_status(&mut self.snapshot.alarm);
        self.act(AppAction::Send(MonitorCommand::Schedule { id, alarm }));
    }

    /// Sets the alarm that the user typed in, given what was found for its time.
    pub fn finish_scheduling(
        &mut self,
        found: Result<LocalDateTime, AlarmTimeError>,
        now: LocalDateTime,
    )
        ensures
            final(self).deep_view() == old(self).deep_view().after_scheduling(found, now),
    {
        match found {
            Ok(scheduled_for) => {
                let label = alarm_label_from_text(self.state.label.as_str());
                self.schedule_alarm_at(label, scheduled_for);
                let mut message = "Alarm added for ".to_owned();
                message.append(format_datetime(scheduled_for).as_str());
                self.log_info(message, now);
            },
            Err(error) => {
                self.log_error(error.message(), now);
            },
        }
    }

    /// Sets the alarm that the user typed in.
    pub fn schedule_alarm(&mut self, now: LocalDateTime)
        ensures
            may_schedule(old(self).deep_view(), final(self).deep_view(), now),
    {
        match self.normalize_alarm_time_field() {
            Ok(_) => {
                let ghost normalized = self.deep_view();
                let found = next_alarm_time(self.state.alarm_time.as_str(), now);
                self.finish_scheduling(found, now);
                assert(alarm::may_be_next_alarm_time(found, normalized.state.alarm_time, now));
            },
            Err(error) => {
                self.log_error(error.message(), now);
            },
        }
    }

    /// Leaves the field of the alarm time: with the enter key the alarm is set, otherwise a time
    /// is written the way the app shows it.
    pub fn leave_alarm_time_field(&mut self, enter_pressed: bool, now: LocalDateTime)
        ensures
            if enter_pressed {
                may_schedule(old(self).deep_view(), final(self).deep_view(), now)
            } else {
                final(self).deep_view() == old(self).deep_view().with_normalized_time()
            },
    {
        if enter_pressed {
            self.schedule_alarm(now);
        } else {
            let _ = self.normalize_alarm_time_field();
        }
    }

    /// Cancels one alarm.
    pub fn cancel_alarm(&mut self, id: AlarmId, label: &str, now: LocalDateTime)
        ensures
            final(self).deep_view() == old(self).deep_view().after_cancelling(id, label@, now),
    {
        self.act(AppAction::Send(MonitorCommand::CancelAlarm(id)));
        let alarms = alarm::copy_alarms(&self.snapshot.alarm.alarms);
        self.snapshot.alarm.alarms = remove_alarm(alarms, id);
        refresh_alarm_snapshot_status(&mut self.snapshot.alarm);
        let mut message = "Alarm cancelled: ".to_owned();
        message.append(label);
        self.log_info(message, now);
    }

    /// Cancels all alarms.
    pub fn cancel_all_alarms(&mut self, now: LocalDateTime)
        ensures
            final(self).deep_view() == old(self).deep_view().after_cancelling_all(now),
    {
        self.act(AppAction::Send(MonitorCommand::Cancel));
        let alarms: Vec<PendingAlarmSnapshot> = Vec::new();
        assert(alarms.deep_view() =~= Seq::empty());
        self.snapshot.alarm.alarms = alarms;
        self.snapshot.alarm.fired_at = None;
        self.snapshot.alarm.last_fired_reminder = None;
        refresh_alarm_snapshot_status(&mut self.snapshot.alarm);
        self.log_info("All alarms cancelled".to_owned(), now);
    }

    /// Tells the monitor how to detect games, and has the state saved.
    pub fn save_settings(&mut self)
        ensures
            final(self).deep_view() == old(self).deep_view().saving_settings(),
    {
        let config = game_detection_config_from_state(&self.state);
        self.act(AppAction::Send(MonitorCommand::SetGameDetectionConfig(config)));
        self.persist_current_state();
    }

    /// Logs that settings were saved, if they were.
    pub fn note_saved(&mut self, settings: SavedSettings, saved: bool, now: LocalDateTime)
        ensures
            final(self).deep_view() == if saved {
                old(self).deep_view().informing(now, settings.words())
            } else {
                old(self).deep_view()
            },
    {
        if saved {
            self.log_info(settings.message().to_owned(), now);
        }
    }

    /// The path at which to write the configuration of the game state integration, and what to
    /// write. Where the path is blank, that is logged instead.
    pub fn gsi_config_to_install(&mut self, now: LocalDateTime) -> (file: Option<(String, String)>)
        ensures
            match paths::typed_path(old(self).state.counter_strike_2_gsi_config_path@) {
                Some(path) => {
                    &&& file matches Some((p, contents))
                    &&& p@ == path
                    &&& contents@ == counter_strike::config_text(
                        counter_strike::effective_port(old(self).state.counter_strike_2_gsi_port),
                    )
                    &&& final(self).deep_view() == old(self).deep_view()
                },
                None => file is None && final(self).deep_view() == old(
                    self,
                ).deep_view().complaining(now, "CS2 GSI config path is blank"@),
            },
    {
        match gsi_config_path_from_text(self.state.counter_strike_2_gsi_config_path.as_str()) {
            Some(path) => Some((path, config_to_install(self.state.counter_strike_2_gsi_port))),
            None => {
                self.log_error("CS2 GSI config path is blank".to_owned(), now);
                None
            },
        }
    }

    /// Takes in whether the configuration of the game state integration was written.
    pub fn gsi_config_installed(&mut self, path: &str, written: bool, now: LocalDateTime)
        ensures
            final(self).deep_view() == old(self).deep_view().after_gsi_install(
                path@,
                written,
                now,
            ),
    {
        if written {
            self.save_settings();
            let mut message = "CS2 GSI config installed at ".to_owned();
            message.append(path);
            self.log_info(message, now);
        } else {
            self.log_error(counter_strike::Cs2GsiError::Io.message(), now);
        }
    }

    /// Shows an alarm for a test.
    pub fn test_alarm_popup(&mut self, now: LocalDateTime)
        ensures
            final(self).deep_view() == old(self).deep_view().after_popup_test(now),
    {
        self.stop_test();
        self.log_info("Starting test alarm popup".to_owned(), now);
        let path = sound_path_from_text(self.state.sound_path.as_str());
        self.act(AppAction::Send(MonitorCommand::TestAlarmPopup(path)));
    }

    /// Plays the sound for a test.
    pub fn play_test_sound(&mut self, now: LocalDateTime)
        ensures
            final(self).deep_view() == old(self).deep_view().after_sound_test(now),
    {
        self.stop_test();
        self.log_info("Starting test sound".to_owned(), now);
        let path = sound_path_from_text(self.state.sound_path.as_str());
        self.act(AppAction::Send(MonitorCommand::TestSound(path)));
    }

    /// Stops the sound that is played for a test.
    pub fn stop_test_sound(&mut self, now: LocalDateTime)
        ensures
            final(self).deep_view() == old(self).deep_view().after_stopping_test(now),
    {
        self.stop_test();
        self.log_info("Test sound stopped".to_owned(), now);
    }

    /// Empties the log.
    pub fn clear_logs(&mut self)
        ensures
            final(self).deep_view() == old(self).deep_view().without_logs(),
    {
        let logs: Vec<PersistedLogEntry> = Vec::new();
        assert(logs.deep_view() =~= Seq::empty());
        self.logs = logs;
        self.persist_current_state();
    }
}

/// Whether setting the alarm that the user typed in may take the app from `before` to `after`.
pub open spec fn may_schedule(before: AppModel, after: AppModel, now: LocalDateTime) -> bool {
    let normalized = before.with_normalized_time();
    match alarm::time_of_text(before.state.alarm_time) {
        Some(_) => exists|found: Result<LocalDateTime, AlarmTimeError>|
            {
                &&& #[trigger] alarm::may_be_next_alarm_time(
                    found,
                    normalized.state.alarm_time,
                    now,
                )
                &&& after == normalized.after_scheduling(found, now)
            },
        None => after == before.complaining(now, AlarmTimeError::InvalidFormat.words()),
    }
}

impl AlarmApp {
    /// Begins to register a pairing code, given credentials to use where they are missing, and
    /// the code.
    pub fn start_pairing_with(
        &mut self,
        new_id: String,
        new_token: String,
        code: String,
        now: LocalDateTime,
    )
        ensures
            final(self).deep_view() == old(self).deep_view().after_pairing_started(
                new_id@,
                new_token@,
                code@,
                now,
            ),
    {
        if self.registering {
            self.set_bridge_status("Pairing registration already in progress".to_owned());
            return ;
        }
        if paired(&self.state.discord_bridge) {
            self.set_bridge_status("Clear pairing before generating a new code".to_owned());
            return ;
        }
        if text::blank(self.state.discord_bridge.bridge_url.as_str()) {
            self.log_error("Discord bridge URL is blank".to_owned(), now);
            return ;
        }
        if fill_credentials(&mut self.state.discord_bridge, new_id, new_token) {
            self.persist_current_state();
        }
        let ghost known = self.deep_view();
        self.state.discord_bridge.pairing_code = code.clone();
        self.state.discord_bridge.pairing_expires_at = None;
        self.state.discord_bridge.poll_enabled = true;
        self.persist_current_state();
        match self.state.discord_bridge.client_config() {
            Ok(config) => {
                self.registering = true;
                let message = config.pairing_registration(code.as_str());
                self.act(AppAction::Register(message));
                self.set_bridge_status("Registering pairing code".to_owned());
            },
            Err(error) => {
                let mut message = "Discord bridge is not ready: ".to_owned();
                message.append(error.message().as_str());
                self.log_error(message, now);
            },
        }
    }

    /// Begins to register a pairing code that is made up.
    pub fn start_bridge_pairing(&mut self, now: LocalDateTime)
        ensures
            may_start_pairing(old(self).deep_view(), final(self).deep_view(), now),
    {
        let new_id = generate_companion_id();
        let new_token = generate_api_token();
        let code = generate_pairing_code();
        let ghost before = self.deep_view();
        self.start_pairing_with(new_id, new_token, code, now);
        proof {
            let id_bytes = choose|bytes: Seq<u8>|
                bytes.len() == 16 && new_id@ == #[trigger] text::hex_text(bytes);
            let token_bytes = choose|bytes: Seq<u8>|
                bytes.len() == 32 && new_token@ == #[trigger] discord_bridge::url_safe_base64(
                    bytes,
                );
            let value = choose|value: u32|
                code@ == #[trigger] discord_bridge::pairing_code_text(value);
            assert(self.deep_view() == before.after_pairing_started(
                text::hex_text(id_bytes),
                discord_bridge::url_safe_base64(token_bytes),
                discord_bridge::pairing_code_text(value),
                now,
            ));
        }
    }

    /// Gives the pairing up.
    pub fn clear_bridge_pairing(&mut self)
        ensures
            final(self).deep_view() == old(self).deep_view().after_pairing_cleared(),
    {
        let url = self.state.discord_bridge.bridge_url.clone();
        let settings = DiscordBridgeSettings::default();
        self.state.discord_bridge = settings;
        self.state.discord_bridge.bridge_url = url;
        self.handled_bridge_request_ids = Vec::new();
        let invites: Vec<CompanionInvite> = Vec::new();
        assert(invites.deep_view() =~= Seq::empty());
        self.pending_companion_invites = invites;
        self.persist_current_state();
        self.set_bridge_status("Disconnected".to_owned());
    }

    /// Drops a pairing code that is not shown, and says whether there was one.
    pub fn clear_inactive_bridge_pairing_code(&mut self, now: LocalDateTime) -> (cleared: bool)
        ensures
            cleared == old(self).deep_view().has_code_to_drop(now),
            final(self).deep_view() == old(self).deep_view().without_inactive_code(now),
    {
        if self.registering {
            return false;
        }
        if clear_inactive_pairing_code(&mut self.state.discord_bridge, now) {
            self.persist_current_state();
            true
        } else {
            false
        }
    }

    /// Takes in that the bridge registered a pairing code, and when that code expires.
    pub fn registration_succeeded(
        &mut self,
        code: String,
        expires_at: Option<LocalDateTime>,
        now: LocalDateTime,
        clock: u64,
    )
        ensures
            final(self).deep_view() == old(self).deep_view().after_registration(
                code@,
                expires_at,
                now,
                clock,
            ),
    {
        self.registering = false;
        self.state.discord_bridge.pairing_code = code;
        self.state.discord_bridge.pairing_expires_at = expires_at;
        self.persist_current_state();
        self.log_info("Discord pairing code registered".to_owned(), now);
        self.set_bridge_status("Waiting for /companion pair".to_owned());
        self.next_bridge_poll_at = clock;
    }

    /// Takes in what came of registering a pairing code.
    pub fn finish_registration(
        &mut self,
        outcome: Result<PairingRegistrationResponse, String>,
        now: LocalDateTime,
        clock: u64,
    )
        ensures
            may_finish_registration(
                old(self).deep_view(),
                outcome,
                final(self).deep_view(),
                now,
                clock,
            ),
    {
        match outcome {
            Ok(response) => {
                let expires_at = local_datetime_from_unix(response.expires_at_unix);
                self.registration_succeeded(response.pairing_code, expires_at, now, clock);
                assert(time::may_be_local_datetime(expires_at, response.expires_at_unix));
            },
            Err(reason) => {
                self.registering = false;
                self.state.discord_bridge.pairing_code = String::new();
                self.state.discord_bridge.pairing_expires_at = None;
                self.persist_current_state();
                let mut message = "Could not register Discord pairing code: ".to_owned();
                message.append(reason.as_str());
                self.log_error(message, now);
                self.set_bridge_status("Pairing failed".to_owned());
            },
        }
    }

    /// Asks the bridge for requests, if it is time to.
    pub fn maybe_start_bridge_poll(&mut self, clock: u64)
        ensures
            final(self).deep_view() == old(self).deep_view().after_poll_check(clock),
    {
        if !self.state.discord_bridge.can_poll() || self.polling || self.registering || clock
            < self.next_bridge_poll_at {
            return ;
        }
        match self.state.discord_bridge.client_config() {
            Ok(config) => {
                self.next_bridge_poll_at = clock.saturating_add(POLL_INTERVAL_MILLIS);
                self.polling = true;
                self.act(AppAction::Poll(config.request_poll()));
            },
            Err(error) => {
                let mut status = "Discord bridge is not ready: ".to_owned();
                status.append(error.message().as_str());
                self.set_bridge_status(status);
            },
        }
    }

    fn report_bridge_request_status(
        &mut self,
        request_id: u64,
        status: RequestStatus,
        reason: Option<String>,
    )
        ensures
            final(self).deep_view() == old(self).deep_view().reporting(
                request_id,
                status,
                reason.deep_view(),
            ),
    {
        match self.state.discord_bridge.client_config() {
            Ok(config) => {
                self.act(AppAction::Report(config.request_report(request_id, status, reason)));
            },
            Err(_) => {},
        }
    }

    fn reject_remote_discord_alarm_request(&mut self, request_id: u64, reason: &str)
        ensures
            final(self).deep_view() == old(self).deep_view().rejecting(request_id, reason@),
    {
        self.report_bridge_request_status(
            request_id,
            RequestStatus::Rejected,
            Some(reason.to_owned()),
        );
    }

    fn report_bridge_invite_status(&mut self, invite_id: u64, status: InviteStatus)
        ensures
            final(self).deep_view() == old(self).deep_view().reporting_invite(invite_id, status),
    {
        match self.state.discord_bridge.client_config() {
            Ok(config) => {
                self.act(AppAction::Report(config.invite_report(invite_id, status)));
            },
            Err(_) => {},
        }
    }

    fn has_handled(&self, request_id: u64) -> (handled: bool)
        ensures
            handled == self.handled_bridge_request_ids@.contains(request_id),
    {
        let mut i: usize = 0;
        while i < self.handled_bridge_request_ids.len()
            invariant
                i <= self.handled_bridge_request_ids@.len(),
                forall|j: int| 0 <= j < i ==> self.handled_bridge_request_ids@[j] != request_id,
            decreases self.handled_bridge_request_ids@.len() - i,
        {
            if self.handled_bridge_request_ids[i] == request_id {
                return true;
            }
            i = i + 1;
        }
        false
    }

    /// Remembers that a request was handled. Where there are too many, the oldest are
    /// forgotten.
    pub fn remember_bridge_request_id(&mut self, request_id: u64)
        ensures
            final(self).deep_view() == old(self).deep_view().remembering(request_id),
    {
        if self.has_handled(request_id) {
            return ;
        }
        let ghost before = self.handled_bridge_request_ids@;
        let count: usize = self.handled_bridge_request_ids.len();
        if count < MAX_HANDLED_REQUESTS {
            self.handled_bridge_request_ids.push(request_id);
        } else {
            let from: usize = count - MAX_HANDLED_REQUESTS + 1;
            let mut kept: Vec<u64> = Vec::new();
            let mut i: usize = from;
            while i < count
                invariant
                    from <= i <= count,
                    before == self.handled_bridge_request_ids@,
                    count == before.len(),
                    kept@ == before.subrange(from as int, i as int),
                decreases count - i,
            {
                kept.push(self.handled_bridge_request_ids[i]);
                i = i + 1;
                assert(kept@ =~= before.subrange(from as int, i as int));
            }
            kept.push(request_id);
            self.handled_bridge_request_ids = kept;
            assert(self.handled_bridge_request_ids@ =~= app_model::handled_with(
                before,
                request_id,
            ));
        }
    }

    /// Does what a Discord user asks for, given what was found for the time of the alarm.
    pub fn answer_remote_request(
        &mut self,
        request: &RemoteAlarmRequest,
        found: Result<LocalDateTime, AlarmTimeError>,
        now: LocalDateTime,
    )
        ensures
            final(self).deep_view() == old(self).deep_view().after_request(
                request.deep_view(),
                found,
                now,
            ),
    {
        if self.has_handled(request.id) {
            self.report_bridge_request_status(
                request.id,
                RequestStatus::Accepted,
                Some("already handled".to_owned()),
            );
            return ;
        }
        let owner = match &self.state.discord_bridge.paired_discord_user_id {
            Some(owner) => owner.clone(),
            None => {
                self.reject_remote_discord_alarm_request(request.id, "companion is not paired");
                return ;
            },
        };
        if !text::same_text(request.target_id.as_str(), owner.as_str()) {
            self.reject_remote_discord_alarm_request(request.id, "target Discord user mismatch");
            return ;
        }
        if !requester_is_allowed(
            owner.as_str(),
            self.state.discord_bridge.allowed_requester_ids.as_str(),
            request.requester_id.as_str(),
        ) {
            self.reject_remote_discord_alarm_request(request.id, "requester is not allowed");
            let mut message = "Rejected Discord alarm request #".to_owned();
            text::push_decimal(&mut message, request.id as u128);
            message.append(" from ");
            message.append(request.requester_id.as_str());
            self.log_error(message, now);
            return ;
        }
        if remember_requester_label_from_request(&mut self.state.discord_bridge, request) {
            self.persist_current_state();
        }
        match found {
            Ok(scheduled_for) => {
                let label = alarm_label_from_text(request.label.as_str());
                self.schedule_alarm_at(label, scheduled_for);
                self.remember_bridge_request_id(request.id);
                self.report_bridge_request_status(request.id, RequestStatus::Accepted, None);
                let mut message = "Accepted Discord alarm request #".to_owned();
                text::push_decimal(&mut message, request.id as u128);
                message.append(" for ");
                message.append(format_datetime(scheduled_for).as_str());
                self.log_info(message, now);
            },
            Err(error) => {
                self.reject_remote_discord_alarm_request(request.id, error.message().as_str());
            },
        }
    }

    /// Does what a Discord user asks for.
    pub fn process_remote_discord_alarm_request(
        &mut self,
        request: &RemoteAlarmRequest,
        now: LocalDateTime,
    )
        ensures
            may_answer_request(
                old(self).deep_view(),
                request.deep_view(),
                final(self).deep_view(),
                now,
            ),
    {
        let found = next_alarm_time(request.time_text().as_str(), now);
        self.answer_remote_request(request, found, now);
        assert(alarm::may_be_next_alarm_time(found, request.deep_view().time_text(), now));
    }
}

/// Whether asking for a pairing code may take the app from `before` to `after`.
pub open spec fn may_start_pairing(before: AppModel, after: AppModel, now: LocalDateTime) -> bool {
    exists|id_bytes: Seq<u8>, token_bytes: Seq<u8>, value: u32|
        {
            &&& id_bytes.len() == 16
            &&& token_bytes.len() == 32
            &&& discord_bridge::is_companion_id(text::hex_text(id_bytes))
            &&& discord_bridge::is_api_token(discord_bridge::url_safe_base64(token_bytes))
            &&& after == before.after_pairing_started(
                #[trigger] text::hex_text(id_bytes),
                #[trigger] discord_bridge::url_safe_base64(token_bytes),
                #[trigger] discord_bridge::pairing_code_text(value),
                now,
            )
        }
}

/// Whether what came of registering a pairing code may take the app from `before` to `after`.
pub open spec fn may_finish_registration(
    before: AppModel,
    outcome: Result<PairingRegistrationResponse, String>,
    after: AppModel,
    now: LocalDateTime,
    clock: u64,
) -> bool {
    match outcome {
        Ok(response) => exists|expires_at: Option<LocalDateTime>|
            {
                &&& #[trigger] time::may_be_local_datetime(expires_at, response.expires_at_unix)
                &&& after == before.after_registration(
                    response.pairing_code@,
                    expires_at,
                    now,
                    clock,
                )
            },
        Err(reason) => after == before.after_failed_registration(reason@, now),
    }
}

/// Whether what came of a poll may take the app from `before` to `after`.
pub open spec fn may_finish_poll(
    before: AppModel,
    outcome: Result<PollRequestsResponse, String>,
    after: AppModel,
    now: LocalDateTime,
) -> bool {
    let idle = AppModel { polling: false, ..before };
    match outcome {
        Ok(response) => may_apply_poll(idle, response.deep_view(), after, now),
        Err(reason) => after == idle.with_status("Bridge poll failed: "@ + reason@),
    }
}

/// Whether what is known of registering a pairing code may take the app from `before` to `after`.
pub open spec fn may_take_registration(
    before: AppModel,
    registration: TaskReport<PairingRegistrationResponse>,
    after: AppModel,
    now: LocalDateTime,
    clock: u64,
) -> bool {
    match registration {
        TaskReport::Running => after == before,
        TaskReport::Over(outcome) => may_finish_registration(before, outcome, after, now, clock),
        TaskReport::Lost => after == before.after_failed_registration(
            "Pairing registration worker stopped"@,
            now,
        ),
    }
}

/// Whether what is known of a poll may take the app from `before` to `after`.
pub open spec fn may_take_poll(
    before: AppModel,
    poll: TaskReport<PollRequestsResponse>,
    after: AppModel,
    now: LocalDateTime,
) -> bool {
    match poll {
        TaskReport::Running => after == before,
        TaskReport::Over(outcome) => may_finish_poll(before, outcome, after, now),
        TaskReport::Lost => after == AppModel { polling: false, ..before }.with_status(
            "Bridge poll failed: "@ + "Discord bridge polling worker stopped"@,
        ),
    }
}

/// Whether what is known of both tasks may take the app from `before` to `after`: what came of
/// the registration is taken in first.
pub open spec fn may_drain(
    before: AppModel,
    registration: TaskReport<PairingRegistrationResponse>,
    poll: TaskReport<PollRequestsResponse>,
    after: AppModel,
    now: LocalDateTime,
    clock: u64,
) -> bool {
    exists|between: AppModel|
        {
            &&& #[trigger] may_take_registration(before, registration, between, now, clock)
            &&& may_take_poll(between, poll, after, now)
        }
}

/// Whether the request of a Discord user may take the app from `before` to `after`.
pub open spec fn may_answer_request(
    before: AppModel,
    request: RemoteRequestModel,
    after: AppModel,
    now: LocalDateTime,
) -> bool {
    exists|found: Result<LocalDateTime, AlarmTimeError>|
        {
            &&& #[trigger] alarm::may_be_next_alarm_time(found, request.time_text(), now)
            &&& after == before.after_request(request, found, now)
        }
}

impl AlarmApp {
    fn learn_pairing(
        &mut self,
        user_id: &Option<String>,
        user_label: &Option<String>,
        Ghost(response): Ghost<discord_bridge::PollModel>,
        now: LocalDateTime,
    )
        requires
            response.paired_discord_user_id == user_id.deep_view(),
            response.paired_discord_user_label == user_label.deep_view(),
        ensures
            final(self).deep_view() == old(self).deep_view().knowing_pairing(response, now),
    {
        let mut changed: bool = false;
        if !same_optional_text(&self.state.discord_bridge.paired_discord_user_id, user_id)
            || !same_optional_text(
            &self.state.discord_bridge.paired_discord_user_label,
            user_label,
        ) {
            self.state.discord_bridge.paired_discord_user_id = user_id.clone();
            self.state.discord_bridge.paired_discord_user_label = user_label.clone();
            changed = true;
        }
        if clear_inactive_pairing_code(&mut self.state.discord_bridge, now) {
            changed = true;
        }
        if changed {
            self.persist_current_state();
        }
    }

    fn answer_remote_requests(
        &mut self,
        requests: &Vec<RemoteAlarmRequest>,
        found: &Vec<Result<LocalDateTime, AlarmTimeError>>,
        now: LocalDateTime,
    )
        requires
            found@.len() == requests@.len(),
        ensures
            final(self).deep_view() == old(self).deep_view().after_requests(
                requests.deep_view(),
                found@,
                now,
            ),
    {
        let ghost before = self.deep_view();
        let ghost models = requests.deep_view();
        let mut i: usize = 0;
        while i < requests.len()
            invariant
                i <= requests@.len(),
                found@.len() == requests@.len(),
                models == requests.deep_view(),
                self.deep_view() == before.after_requests(
                    models.take(i as int),
                    found@.take(i as int),
                    now,
                ),
            decreases requests@.len() - i,
        {
            proof {
                assert(models[i as int] == requests@[i as int].deep_view());
                assert(models.take(i + 1).drop_last() =~= models.take(i as int));
                assert(found@.take(i + 1).drop_last() =~= found@.take(i as int));
            }
            self.answer_remote_request(&requests[i], found[i], now);
            i = i + 1;
        }
        assert(models.take(i as int) =~= models);
        assert(found@.take(i as int) =~= found@);
    }

    fn take_invites(&mut self, invites: Vec<CompanionInvite>, now: LocalDateTime)
        ensures
            final(self).deep_view() == old(self).deep_view().with_invites(
                invites.deep_view(),
                now,
            ),
    {
        let labels = new_companion_invite_labels(&self.pending_companion_invites, &invites);
        self.pending_companion_invites = invites;
        if labels.len() > 0 {
            self.current_page = AppPage::Discord;
            self.act(AppAction::RequestAttention);
            let mut message = "Pending Discord access invite: ".to_owned();
            message.append(text::join(&labels, ", ").as_str());
            self.log_info(message, now);
        }
    }

    /// Takes in the answer to a poll, given what was found for the times of the requests.
    pub fn apply_poll_response(
        &mut self,
        response: PollRequestsResponse,
        found: &Vec<Result<LocalDateTime, AlarmTimeError>>,
        now: LocalDateTime,
    )
        requires
            found@.len() == response.requests@.len(),
        ensures
            final(self).deep_view() == old(self).deep_view().after_poll(
                response.deep_view(),
                found@,
                now,
            ),
    {
        let ghost model = response.deep_view();
        if !response.paired {
            self.state.discord_bridge.paired_discord_user_id = None;
            self.state.discord_bridge.paired_discord_user_label = None;
            let invites: Vec<CompanionInvite> = Vec::new();
            assert(invites.deep_view() =~= Seq::empty());
            self.pending_companion_invites = invites;
            self.persist_current_state();
            self.set_bridge_status("Waiting for /companion pair".to_owned());
            return ;
        }
        self.learn_pairing(
            &response.paired_discord_user_id,
            &response.paired_discord_user_label,
            Ghost(model),
            now,
        );
        self.answer_remote_requests(&response.requests, found, now);
        let request_count: usize = response.requests.len();
        let invite_count: usize = response.invites.len();
        self.take_invites(response.invites, now);
        if request_count == 0 && invite_count == 0 {
            self.set_bridge_status("Connected".to_owned());
        } else {
            let mut status = "Connected; processed ".to_owned();
            text::push_decimal(&mut status, request_count as u128);
            status.append(" request(s), ");
            text::push_decimal(&mut status, invite_count as u128);
            status.append(" invite(s) pending");
            self.set_bridge_status(status);
        }
    }

    /// Takes in the answer to a poll.
    pub fn process_bridge_poll_response(
        &mut self,
        response: PollRequestsResponse,
        now: LocalDateTime,
    )
        ensures
            may_apply_poll(
                old(self).deep_view(),
                response.deep_view(),
                final(self).deep_view(),
                now,
            ),
    {
        let mut found: Vec<Result<LocalDateTime, AlarmTimeError>> = Vec::new();
        let ghost model = response.deep_view();
        let mut i: usize = 0;
        while i < response.requests.len()
            invariant
                i <= response.requests@.len(),
                model == response.deep_view(),
                found@.len() == i,
                forall|k: int|
                    0 <= k < i ==> alarm::may_be_next_alarm_time(
                        #[trigger] found@[k],
                        model.requests[k].time_text(),
                        now,
                    ),
            decreases response.requests@.len() - i,
        {
            assert(model.requests[i as int] == response.requests@[i as int].deep_view());
            let time = next_alarm_time(response.requests[i].time_text().as_str(), now);
            found.push(time);
            i = i + 1;
        }
        self.apply_poll_response(response, &found, now);
        assert(may_be_times(found@, model.requests, now));
    }

    /// Takes in what came of a poll.
    pub fn finish_poll(
        &mut self,
        outcome: Result<PollRequestsResponse, String>,
        now: LocalDateTime,
    )
        ensures
            may_finish_poll(old(self).deep_view(), outcome, final(self).deep_view(), now),
    {
        self.polling = false;
        match outcome {
            Ok(response) => {
                self.process_bridge_poll_response(response, now);
            },
            Err(reason) => {
                let mut status = "Bridge poll failed: ".to_owned();
                status.append(reason.as_str());
                self.set_bridge_status(status);
            },
        }
    }

    /// Takes in what is known of registering a pairing code and of a poll, and tells whether
    /// anything was over.
    pub fn drain_bridge_tasks(
        &mut self,
        registration: TaskReport<PairingRegistrationResponse>,
        poll: TaskReport<PollRequestsResponse>,
        now: LocalDateTime,
        clock: u64,
    ) -> (changed: bool)
        ensures
            changed == !(registration is Running && poll is Running),
            may_drain(
                old(self).deep_view(),
                registration,
                poll,
                final(self).deep_view(),
                now,
                clock,
            ),
    {
        let mut changed: bool = false;
        match registration {
            TaskReport::Running => {},
            TaskReport::Over(outcome) => {
                changed = true;
                self.finish_registration(outcome, now, clock);
            },
            TaskReport::Lost => {
                changed = true;
                self.finish_registration(
                    Err("Pairing registration worker stopped".to_owned()),
                    now,
                    clock,
                );
            },
        }
        assert(may_take_registration(
            old(self).deep_view(),
            registration,
            self.deep_view(),
            now,
            clock,
        ));
        match poll {
            TaskReport::Running => {},
            TaskReport::Over(outcome) => {
                changed = true;
                self.finish_poll(outcome, now);
            },
            TaskReport::Lost => {
                changed = true;
                self.finish_poll(Err("Discord bridge polling worker stopped".to_owned()), now);
            },
        }
        changed
    }

    fn position_of_invite(&self, invite_id: u64) -> (at: usize)
        ensures
            at <= self.pending_companion_invites@.len(),
            seqs::first_where(
                self.pending_companion_invites.deep_view(),
                |i: InviteModel| i.id == invite_id,
            ) == if at < self.pending_companion_invites@.len() {
                Some(at as int)
            } else {
                None
            },
    {
        let ghost all = self.pending_companion_invites.deep_view();
        let ghost pred = |i: InviteModel| i.id == invite_id;
        let mut i: usize = 0;
        while i < self.pending_companion_invites.len()
            invariant
                i <= self.pending_companion_invites@.len(),
                all == self.pending_companion_invites.deep_view(),
                pred == (|i: InviteModel| i.id == invite_id),
                forall|j: int| 0 <= j < i ==> !pred(#[trigger] all[j]),
            decreases self.pending_companion_invites@.len() - i,
        {
            assert(all[i as int] == self.pending_companion_invites@[i as int].deep_view());
            if self.pending_companion_invites[i].id == invite_id {
                proof {
                    seqs::first_is_found(all, pred, i as int);
                }
                return i;
            }
            i = i + 1;
        }
        proof {
            seqs::first_is_found(all, pred, i as int);
        }
        i
    }

    fn drop_invite(&mut self, invite_id: u64)
        ensures
            final(self).deep_view() == old(self).deep_view().without_invite(invite_id),
    {
        let ghost models = self.pending_companion_invites.deep_view();
        let ghost pred = |i: InviteModel| i.id != invite_id;
        let mut kept: Vec<CompanionInvite> = Vec::new();
        let mut i: usize = 0;
        proof {
            reveal(Seq::filter);
            assert(kept.deep_view() =~= models.take(0).filter(pred));
        }
        while i < self.pending_companion_invites.len()
            invariant
                i <= self.pending_companion_invites@.len(),
                models == self.pending_companion_invites.deep_view(),
                pred == (|i: InviteModel| i.id != invite_id),
                kept.deep_view() == models.take(i as int).filter(pred),
            decreases self.pending_companion_invites@.len() - i,
        {
            let ghost before = kept.deep_view();
            assert(models[i as int] == self.pending_companion_invites@[i as int].deep_view());
            proof {
                models.take(i as int).lemma_filter_push(models[i as int], pred);
                assert(models.take(i as int).push(models[i as int]) =~= models.take(i + 1));
            }
            if self.pending_companion_invites[i].id != invite_id {
                kept.push(self.pending_companion_invites[i].clone());
                assert(kept.deep_view() =~= before.push(models[i as int]));
            }
            i = i + 1;
        }
        assert(models.take(i as int) =~= models);
        self.pending_companion_invites = kept;
    }

    /// Allows the user of an invitation to ask for alarms.
    pub fn allow_companion_invite(&mut self, invite_id: u64, now: LocalDateTime)
        ensures
            final(self).deep_view() == old(self).deep_view().after_allowing(invite_id, now),
    {
        let at: usize = self.position_of_invite(invite_id);
        if at >= self.pending_companion_invites.len() {
            return ;
        }
        let invite = self.pending_companion_invites[at].clone();
        assert(invite.deep_view() == self.pending_companion_invites.deep_view()[at as int]);
        self.state.discord_bridge.allowed_requester_ids = add_allowed_requester(
            self.state.discord_bridge.allowed_requester_ids.as_str(),
            invite.invitee_id.as_str(),
        );
        remember_allowed_requester(
            &mut self.state.discord_bridge,
            invite.invitee_id.as_str(),
            invite.invitee_label.as_str(),
        );
        self.drop_invite(invite_id);
        self.persist_current_state();
        self.report_bridge_invite_status(invite_id, InviteStatus::Allowed);
        let mut message = "Allowed ".to_owned();
        message.append(discord_invite_user_label(&invite).as_str());
        message.append(" to request alarms");
        self.log_info(message, now);
    }

    /// Rejects an invitation.
    pub fn reject_companion_invite(&mut self, invite_id: u64, now: LocalDateTime)
        ensures
            final(self).deep_view() == old(self).deep_view().after_rejecting(invite_id, now),
    {
        let at: usize = self.position_of_invite(invite_id);
        if at >= self.pending_companion_invites.len() {
            return ;
        }
        let invite = self.pending_companion_invites[at].clone();
        assert(invite.deep_view() == self.pending_companion_invites.deep_view()[at as int]);
        self.drop_invite(invite_id);
        self.report_bridge_invite_status(invite_id, InviteStatus::Rejected);
        let mut message = "Rejected Discord access invite for ".to_owned();
        message.append(discord_invite_user_label(&invite).as_str());
        self.log_info(message, now);
    }

    /// Allows the Discord user whose number was typed in.
    pub fn add_allowed_requester_from_input(&mut self, now: LocalDateTime)
        ensures
            final(self).deep_view() == old(self).deep_view().after_adding_user(now),
    {
        if text::blank(self.new_allowed_requester_id.as_str()) {
            self.log_error("Allowed Discord user field is blank".to_owned(), now);
            return ;
        }
        let list = self.state.discord_bridge.allowed_requester_ids.clone();
        let known = requesters::allowed_requester_ids(list.as_str());
        match requesters::normalize_discord_user_id(self.new_allowed_requester_id.as_str()) {
            Some(id) => {
                if !requesters::is_among(&known, id.as_str()) {
                    proof {
                        requesters::user_id_names_itself(id@);
                    }
                    self.state.discord_bridge.allowed_requester_ids = add_allowed_requester(
                        list.as_str(),
                        id.as_str(),
                    );
                    remember_allowed_requester(&mut self.state.discord_bridge, id.as_str(), "");
                    proof {
                        reveal_strlit("");
                        assert(""@ =~= Seq::<char>::empty());
                    }
                    self.new_allowed_requester_id = String::new();
                    self.persist_current_state();
                    let mut message = "Allowed Discord user ".to_owned();
                    message.append(id.as_str());
                    message.append(" to request alarms");
                    self.log_info(message, now);
                    return ;
                }
            },
            None => {},
        }
        self.log_error("Discord user is already allowed or the ID is invalid".to_owned(), now);
    }

    /// Takes a Discord user off the list of users who may ask for alarms.
    pub fn remove_allowed_requester(&mut self, user_id: &str, now: LocalDateTime)
        ensures
            final(self).deep_view() == old(self).deep_view().after_removing_user(user_id@, now),
    {
        self.state.discord_bridge.allowed_requester_ids = remove_allowed_requester(
            self.state.discord_bridge.allowed_requester_ids.as_str(),
            user_id,
        );
        forget_allowed_requester(&mut self.state.discord_bridge, user_id);
        self.persist_current_state();
        let mut message = "Removed Discord user ".to_owned();
        message.append(user_id);
        message.append(" from allowed users");
        self.log_info(message, now);
    }
}

/// Whether what was found may be what a machine finds for the times of requests.
pub open spec fn may_be_times(
    found: Seq<Result<LocalDateTime, AlarmTimeError>>,
    requests: Seq<RemoteRequestModel>,
    now: LocalDateTime,
) -> bool {
    found.len() == requests.len() && forall|i: int|
        0 <= i < found.len() ==> alarm::may_be_next_alarm_time(
            #[trigger] found[i],
            requests[i].time_text(),
            now,
        )
}

/// Whether the answer to a poll may take the app from `before` to `after`.
pub open spec fn may_apply_poll(
    before: AppModel,
    response: discord_bridge::PollModel,
    after: AppModel,
    now: LocalDateTime,
) -> bool {
    exists|found: Seq<Result<LocalDateTime, AlarmTimeError>>|
        {
            &&& #[trigger] may_be_times(found, response.requests, now)
            &&& after == before.after_poll(response, found, now)
        }
}

impl AlarmApp {
    /// What is shown of the alarms in one line.
    pub fn alarm_summary(&self) -> (summary: String)
        ensures
            summary@ == self.deep_view().summary(),
    {
        let count: usize = self.snapshot.alarm.alarms.len();
        if count > 0 {
            let next = &self.snapshot.alarm.alarms[0];
            assert(self.deep_view().snapshot.alarm.alarms[0] == next.deep_view());
            let mut next_text = next.alarm.reminder.clone();
            next_text.append(" at ");
            next_text.append(format_datetime(next.alarm.scheduled_for).as_str());
            if count == 1 {
                next_text
            } else {
                let mut summary = text::decimal_text(count as u128);
                summary.append(" alarms scheduled, next: ");
                summary.append(next_text.as_str());
                summary
            }
        } else {
            match self.snapshot.alarm.fired_at {
                Some(fired_at) => {
                    let mut summary = "Last fired at ".to_owned();
                    summary.append(format_datetime(fired_at).as_str());
                    match &self.snapshot.alarm.last_fired_reminder {
                        Some(reminder) => {
                            summary.append(": ");
                            summary.append(reminder.as_str());
                        },
                        None => {},
                    }
                    summary
                },
                None => "No alarm scheduled".to_owned(),
            }
        }
    }

    /// What is shown of the alarms in one word.
    pub fn alarm_status_label(&self) -> (label: &'static str)
        ensures
            label@ == self.snapshot.alarm.status.words(),
    {
        self.snapshot.alarm.status.as_str()
    }

    /// What is written on the tab of the page for Discord: how many invitations wait there.
    pub fn discord_tab_label(&self) -> (label: String)
        ensures
            label@ == if self.pending_companion_invites@.len() == 0 {
                "Discord"@
            } else {
                "Discord ("@ + text::decimal(self.pending_companion_invites@.len()) + ")"@
            },
    {
        let mut label = "Discord".to_owned();
        if self.pending_companion_invites.len() > 0 {
            label = "Discord (".to_owned();
            text::push_decimal(&mut label, self.pending_companion_invites.len() as u128);
            label.append(")");
        }
        label
    }

    /// What is known of a game.
    pub fn game_status(&self, game: &str) -> (found: Option<&GameStatus>)
        ensures
            match (
                seqs::first_where(
                    self.deep_view().snapshot.game_status,
                    |s: GameStatusModel| s.name() == game@,
                ),
                found,
            ) {
                (Some(i), Some(status)) => status.deep_view()
                    == self.deep_view().snapshot.game_status[i],
                (None, None) => true,
                _ => false,
            },
    {
        let statuses = &self.snapshot.game_status.statuses;
        let ghost all = self.deep_view().snapshot.game_status;
        let ghost pred = |s: GameStatusModel| s.name() == game@;
        let mut i: usize = 0;
        while i < statuses.len()
            invariant
                i <= statuses@.len(),
                all == statuses.deep_view(),
                all == self.deep_view().snapshot.game_status,
                pred == (|s: GameStatusModel| s.name() == game@),
                forall|j: int| 0 <= j < i ==> !pred(#[trigger] all[j]),
            decreases statuses@.len() - i,
        {
            assert(all[i as int] == statuses@[i as int].deep_view());
            if text::same_text(game_status_name(&statuses[i]), game) {
                proof {
                    seqs::first_is_found(all, pred, i as int);
                }
                return Some(&statuses[i]);
            }
            i = i + 1;
        }
        proof {
            seqs::first_is_found(all, pred, i as int);
        }
        None
    }

    /// Dismisses all shown alarms.
    pub fn dismiss_all_alarm_popups(&mut self)
        ensures
            final(self).deep_view() == old(self).deep_view().after_dismissing_all(),
    {
        let ghost before = self.deep_view();
        let mut popups: Vec<AlarmPopup> = Vec::new();
        std::mem::swap(&mut popups, &mut self.alarm_popups);
        let ghost models = popups.deep_view();
        let mut i: usize = 0;
        assert(self.alarm_popups.deep_view() =~= Seq::empty());
        assert(before.actions + app_model::stops_of(models.take(0)) =~= before.actions);
        while i < popups.len()
            invariant
                i <= popups@.len(),
                models == popups.deep_view(),
                self.deep_view() == (AppModel {
                    alarm_popups: Seq::empty(),
                    actions: before.actions + app_model::stops_of(models.take(i as int)),
                    ..before
                }),
            decreases popups@.len() - i,
        {
            proof {
                assert(models[i as int] == popups@[i as int].deep_view());
                assert(models.take(i + 1).drop_last() =~= models.take(i as int));
            }
            let ghost earlier = self.actions.deep_view();
            match popups[i].sound {
                Some(sound) => {
                    self.act(AppAction::StopSound(sound));
                    assert(self.actions.deep_view() =~= earlier + app_model::stop_of(
                        models[i as int],
                    ));
                },
                None => {
                    assert(earlier + Seq::empty() =~= earlier);
                },
            }
            assert(self.actions.deep_view() =~= before.actions + app_model::stops_of(
                models.take(i + 1),
            ));
            i = i + 1;
        }
        assert(models.take(i as int) =~= models);
    }

    /// Dismisses one shown alarm.
    pub fn dismiss_alarm_popup(&mut self, id: u64)
        ensures
            final(self).deep_view() == old(self).deep_view().after_dismissing(id),
    {
        let ghost before = self.deep_view();
        let mut popups: Vec<AlarmPopup> = Vec::new();
        std::mem::swap(&mut popups, &mut self.alarm_popups);
        let ghost models = popups.deep_view();
        let ghost all = popups@;
        let ghost stays = |p: PopupModel| p.id != id;
        let ghost goes = |p: PopupModel| p.id == id;
        let mut kept: Vec<AlarmPopup> = Vec::new();
        let mut found: bool = false;
        let mut stopped: Option<SoundHandle> = None;
        let ghost mut first: int = 0;
        proof {
            reveal(Seq::filter);
            assert(kept.deep_view() =~= models.take(0).filter(stays));
        }
        for popup in iter: popups
            invariant
                iter.seq() == all,
                models.len() == all.len(),
                forall|i: int| 0 <= i < all.len() ==> models[i] == (#[trigger] all[i]).deep_view(),
                stays == (|p: PopupModel| p.id != id),
                goes == (|p: PopupModel| p.id == id),
                kept.deep_view() == models.take(iter.index()).filter(stays),
                !found ==> stopped is None && forall|j: int|
                    0 <= j < iter.index() ==> !goes(#[trigger] models[j]),
                found ==> seqs::is_first(models, goes, first) && stopped == models[first].sound,
        {
            let ghost done = iter.index();
            let ghost model = popup.deep_view();
            let ghost earlier = kept.deep_view();
            proof {
                assert(models[done] == model);
                models.take(done).lemma_filter_push(model, stays);
                assert(models.take(done).push(model) =~= models.take(done + 1));
            }
            if popup.id != id {
                kept.push(popup);
                assert(kept.deep_view() =~= earlier.push(model));
            } else if !found {
                found = true;
                stopped = popup.sound;
                proof {
                    first = done;
                }
            }
        }
        proof {
            assert(models.take(all.len() as int) =~= models);
            if found {
                seqs::first_is_found(models, goes, first);
            } else {
                seqs::first_is_found(models, goes, models.len() as int);
            }
        }
        self.alarm_popups = kept;
        let ghost left = self.deep_view();
        match stopped {
            Some(sound) => {
                self.act(AppAction::StopSound(sound));
                assert(self.actions.deep_view() =~= before.actions + seq![
                    ActionModel::StopSound(sound),
                ]);
            },
            None => {
                assert(before.actions + Seq::empty() =~= before.actions);
            },
        }
    }

    /// The app at its start: with the state that was kept, what is known of the last crash, and
    /// what went wrong when the state was loaded.
    pub fn new(
        state: PersistedState,
        notice: Option<CrashNotice>,
        load_error: Option<String>,
        now: LocalDateTime,
    ) -> (app: AlarmApp)
        ensures
            app.deep_view() == app_model::started_app(
                state.deep_view(),
                notice.deep_view(),
                load_error.deep_view(),
                now,
            ),
    {
        let ghost given = state.deep_view();
        let mut state = state;
        let logs = persisted_log_entries_from_logs(&state.logs);
        let mut saved_alarms: Vec<PendingAlarmSnapshot> = Vec::new();
        std::mem::swap(&mut saved_alarms, &mut state.alarms);
        let next_alarm_id: AlarmId = next_alarm_id_after(&saved_alarms);
        let (restored, missed) = split_saved_alarms(saved_alarms, now);
        let restored_count: usize = restored.len();
        let alarm = AlarmEngine::from_pending_alarms(alarm::copy_alarms(&restored)).snapshot();
        let is_news: bool = match (&notice, &state.last_reported_crash_fingerprint) {
            (Some(notice), Some(known)) => !text::same_text(
                known.as_str(),
                notice.fingerprint.as_str(),
            ),
            (Some(_), None) => true,
            (None, _) => false,
        };
        let backend: &'static str = state.graphics_backend_preference.label();
        state.alarms = restored;
        let alarm_popups: Vec<AlarmPopup> = Vec::new();
        let pending_companion_invites: Vec<CompanionInvite> = Vec::new();
        let actions: Vec<AppAction> = Vec::new();
        assert(alarm_popups.deep_view() =~= Seq::empty());
        assert(pending_companion_invites.deep_view() =~= Seq::empty());
        assert(actions.deep_view() =~= Seq::empty());
        let mut app = AlarmApp {
            state,
            snapshot: MonitorSnapshot {
                alarm,
                game_status: GameMonitorStatus::default(),
                last_checked: now,
            },
            alarm_popups,
            next_alarm_id,
            next_alarm_popup_id: 1,
            test_sound: None,
            logs,
            current_page: AppPage::Alarm,
            registering: false,
            polling: false,
            next_bridge_poll_at: 0,
            bridge_status: "Disconnected".to_owned(),
            handled_bridge_request_ids: Vec::new(),
            pending_companion_invites,
            new_allowed_requester_id: String::new(),
            actions,
        };
        assert(app.deep_view() =~= app_model::starting_app(given, now));
        app.log_info("Ready".to_owned(), now);
        let mut message = "Graphics backend setting: ".to_owned();
        message.append(backend);
        app.log_info(message, now);
        if restored_count > 0 {
            let mut message = "Restored ".to_owned();
            text::push_decimal(&mut message, restored_count as u128);
            message.append(" pending alarm(s)");
            app.log_info(message, now);
        }
        app.show_missed_alarms(missed, now);
        if is_news {
            match notice {
                Some(notice) => {
                    app.tell_crash(notice, now);
                },
                None => {},
            }
        }
        match load_error {
            Some(reason) => {
                let mut message = "Could not load saved state: ".to_owned();
                message.append(reason.as_str());
                app.log_error(message, now);
            },
            None => {},
        }
        app
    }

    fn tell_crash(&mut self, notice: CrashNotice, now: LocalDateTime)
        ensures
            final(self).deep_view() == old(self).deep_view().telling_crash(
                notice.deep_view(),
                now,
            ),
    {
        let mut message = "Previous crash recorded: ".to_owned();
        message.append(notice.summary.as_str());
        message.append(". Crash log: ");
        message.append(notice.path.as_str());
        self.state.last_reported_crash_fingerprint = Some(notice.fingerprint);
        self.log_error(message, now);
    }

    fn show_missed_alarms(&mut self, missed: Vec<PendingAlarmSnapshot>, now: LocalDateTime)
        ensures
            final(self).deep_view() == old(self).deep_view().showing_all_missed(
                missed.deep_view(),
                now,
            ),
    {
        let ghost before = self.deep_view();
        let ghost models = missed.deep_view();
        let ghost all = missed@;
        assert(before.showing_all_missed(models.take(0), now) == before);
        for pending in iter: missed
            invariant
                iter.seq() == all,
                models.len() == all.len(),
                forall|i: int| 0 <= i < all.len() ==> models[i] == (#[trigger] all[i]).deep_view(),
                self.deep_view() == before.showing_all_missed(models.take(iter.index()), now),
        {
            proof {
                let done = iter.index();
                assert(models.take(done + 1).drop_last() =~= models.take(done));
                assert(models.take(done + 1).last() == pending.deep_view());
            }
            self.show_missed_alarm(pending, now);
        }
        assert(models.take(all.len() as int) =~= models);
    }
}

} // verus!
