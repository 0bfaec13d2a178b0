//! The model of the app: what it holds, and what each event makes of it.
use vstd::prelude::*;

use crate::alarm;
use crate::alarm::{
    AlarmId, AlarmModel, AlarmSnapshotModel, AlarmTimeError, PendingAlarmModel,
};
use crate::crash::CrashNoticeModel;
use crate::discord_bridge;
use crate::discord_bridge::{
    BridgeMessageModel, BridgeSettingsModel, InviteModel, InviteStatus, PollModel,
    RemoteRequestModel, RequestStatus,
};
use crate::game::DetectionConfigModel;
use crate::order;
use crate::pages;
use crate::paths;
use crate::requesters;
use crate::seqs;
use crate::sound::SoundHandle;
use crate::storage::{LogEntryModel, PersistedLogLevel, StateModel};
use crate::text;
use crate::time;
use crate::time::LocalDateTime;
use crate::worker::{CommandModel, MonitorEventModel, MonitorSnapshotModel};

verus! {

/// The pages of the app.
#[derive(Clone, Copy, Debug, PartialEq, Eq, Structural)]
pub enum AppPage {
    Alarm,
    Games,
    Discord,
    Log,
    Settings,
}

/// The requests that are remembered as handled.
pub const MAX_HANDLED_REQUESTS: usize = 500;

/// The model of an alarm that is shown until it is dismissed.
#[verifier::ext_equal]
pub struct PopupModel {
    pub id: u64,
    pub reminder: Seq<char>,
    pub fired_at: LocalDateTime,
    pub delayed_by_game: bool,
    pub missed: bool,
    pub sound: Option<SoundHandle>,
}

/// The model of something to do outside of the app's own memory.
#[verifier::ext_equal]
pub enum ActionModel {
    Send(CommandModel),
    Save(StateModel),
    StopSound(SoundHandle),
    RequestAttention,
    Register(BridgeMessageModel),
    Poll(BridgeMessageModel),
    Report(BridgeMessageModel),
}

/// The model of the app.
#[verifier::ext_equal]
pub struct AppModel {
    pub state: StateModel,
    pub snapshot: MonitorSnapshotModel,
    pub alarm_popups: Seq<PopupModel>,
    pub next_alarm_id: AlarmId,
    pub next_alarm_popup_id: u64,
    pub test_sound: Option<SoundHandle>,
    pub logs: Seq<LogEntryModel>,
    pub current_page: AppPage,
    pub registering: bool,
    pub polling: bool,
    pub next_bridge_poll_at: u64,
    pub bridge_status: Seq<char>,
    pub handled_bridge_request_ids: Seq<u64>,
    pub pending_companion_invites: Seq<InviteModel>,
    pub new_allowed_requester_id: Seq<char>,
    pub actions: Seq<ActionModel>,
}

/// How games are to be detected.
pub open spec fn detection_config(state: StateModel) -> DetectionConfigModel {
    DetectionConfigModel {
        league_lockfile_override: paths::typed_path(state.lockfile_path),
        counter_strike_2_gsi_port: state.counter_strike_2_gsi_port,
    }
}

/// The number of the next alarm that is shown, after one with the given number.
pub open spec fn popup_id_after(id: u64) -> u64 {
    if id < u64::MAX {
        (id + 1) as u64
    } else {
        1
    }
}

/// A point in time with the date, as it is shown.
pub open spec fn shown(t: LocalDateTime) -> Seq<char> {
    t.text_for(time::DATE_TIME_PATTERN@)
}

impl AppModel {
    /// The bridge settings.
    pub open spec fn bridge(self) -> BridgeSettingsModel {
        self.state.discord_bridge
    }

    /// The app with other bridge settings.
    pub open spec fn with_bridge(self, settings: BridgeSettingsModel) -> AppModel {
        AppModel { state: StateModel { discord_bridge: settings, ..self.state }, ..self }
    }

    /// The app with one more thing to do.
    pub open spec fn acting(self, action: ActionModel) -> AppModel {
        AppModel { actions: self.actions.push(action), ..self }
    }

    /// The app with its state brought up to date, and about to be saved.
    pub open spec fn saving(self) -> AppModel {
        let state = StateModel {
            logs: pages::last_entries(self.logs),
            alarms: self.snapshot.alarm.alarms,
            ..self.state
        };
        AppModel { state, ..self }.acting(ActionModel::Save(state))
    }

    /// The app with one more log entry.
    pub open spec fn noting(
        self,
        level: PersistedLogLevel,
        at: LocalDateTime,
        message: Seq<char>,
    ) -> AppModel {
        AppModel {
            logs: pages::log_with(self.logs, LogEntryModel { occurred_at: at, level, message }),
            ..self
        }
    }

    /// The app with one more log entry, and about to be saved.
    pub open spec fn logging(
        self,
        level: PersistedLogLevel,
        at: LocalDateTime,
        message: Seq<char>,
    ) -> AppModel {
        self.noting(level, at, message).saving()
    }

    /// The app with one more entry that tells of no trouble.
    pub open spec fn informing(self, at: LocalDateTime, message: Seq<char>) -> AppModel {
        self.logging(PersistedLogLevel::Info, at, message)
    }

    /// The app with one more entry that tells of trouble.
    pub open spec fn complaining(self, at: LocalDateTime, message: Seq<char>) -> AppModel {
        self.logging(PersistedLogLevel::Error, at, message)
    }

    /// The app after it was told that its state could not be saved.
    pub open spec fn save_failed(self, at: LocalDateTime, reason: Seq<char>) -> AppModel {
        self.noting(PersistedLogLevel::Error, at, "Could not save app state: "@ + reason)
    }

    /// The app with one more alarm that is shown until it is dismissed.
    pub open spec fn showing(
        self,
        reminder: Seq<char>,
        fired_at: LocalDateTime,
        delayed_by_game: bool,
        missed: bool,
        sound: Option<SoundHandle>,
    ) -> AppModel {
        AppModel {
            alarm_popups: self.alarm_popups.push(
                PopupModel {
                    id: self.next_alarm_popup_id,
                    reminder,
                    fired_at,
                    delayed_by_game,
                    missed,
                    sound,
                },
            ),
            next_alarm_popup_id: popup_id_after(self.next_alarm_popup_id),
            ..self
        }
    }

    /// The app that shows an alarm which was missed.
    pub open spec fn showing_missed(self, alarm: PendingAlarmModel, now: LocalDateTime) -> AppModel {
        self.complaining(
            now,
            "Missed alarm from "@ + shown(alarm.alarm.scheduled_for)
                + " while the app was not running: "@ + alarm.alarm.reminder,
        ).showing(
            alarm.alarm.reminder,
            alarm.alarm.scheduled_for,
            alarm.delayed_by_game,
            true,
            None,
        )
    }

    /// The app that shows all alarms which were missed.
    pub open spec fn showing_all_missed(
        self,
        alarms: Seq<PendingAlarmModel>,
        now: LocalDateTime,
    ) -> AppModel
        decreases alarms.len(),
    {
        if alarms.len() == 0 {
            self
        } else {
            self.showing_all_missed(alarms.drop_last(), now).showing_missed(alarms.last(), now)
        }
    }

    /// The app with another status of the bridge.
    pub open spec fn with_status(self, status: Seq<char>) -> AppModel {
        AppModel { bridge_status: status, ..self }
    }

    /// The app that sees other alarms.
    pub open spec fn seeing(self, alarm: AlarmSnapshotModel) -> AppModel {
        AppModel { snapshot: MonitorSnapshotModel { alarm, ..self.snapshot }, ..self }
    }

    /// The app after the sound that was played for a test was stopped.
    pub open spec fn test_sound_stopped(self) -> AppModel {
        match self.test_sound {
            Some(sound) => AppModel { test_sound: None, ..self }.acting(
                ActionModel::StopSound(sound),
            ),
            None => self,
        }
    }
}

/// What is logged when an alarm goes off.
pub open spec fn fired_words(
    fired_at: LocalDateTime,
    delayed_by_game: bool,
    reminder: Seq<char>,
) -> Seq<char> {
    "Alarm fired at "@ + shown(fired_at) + (if delayed_by_game {
        " after the game ended"@
    } else {
        Seq::empty()
    }) + ": "@ + reminder
}

impl AppModel {
    /// The app after the monitor reported something.
    pub open spec fn after_event(self, event: MonitorEventModel, now: LocalDateTime) -> AppModel {
        match event {
            MonitorEventModel::Snapshot(snapshot) => {
                let next = AppModel { snapshot, ..self };
                if alarm::all_alike(self.snapshot.alarm.alarms, snapshot.alarm.alarms) {
                    next
                } else {
                    next.saving()
                }
            },
            MonitorEventModel::AlarmFired { id, reminder, delayed_by_game, fired_at, sound } => {
                self.seeing(
                    (AlarmSnapshotModel {
                        alarms: alarm::alarms_without(self.snapshot.alarm.alarms, id),
                        fired_at: Some(fired_at),
                        last_fired_reminder: Some(reminder),
                        ..self.snapshot.alarm
                    }).refreshed(),
                ).informing(fired_at, fired_words(fired_at, delayed_by_game, reminder)).showing(
                    reminder,
                    fired_at,
                    delayed_by_game,
                    false,
                    sound,
                ).acting(ActionModel::RequestAttention)
            },
            MonitorEventModel::TestAlarmPopup { reminder, fired_at, sound } => {
                self.informing(
                    fired_at,
                    "Test alarm popup shown at "@ + fired_at.clock_text(),
                ).showing(reminder, fired_at, false, false, sound).acting(
                    ActionModel::RequestAttention,
                )
            },
            MonitorEventModel::TestSoundStarted { sound, started_at } => {
                AppModel { test_sound: sound, ..self.test_sound_stopped() }.informing(
                    started_at,
                    if sound is Some {
                        "Test sound started at "@ + started_at.clock_text()
                    } else {
                        "Alarm sound is disabled"@
                    },
                )
            },
            MonitorEventModel::NotificationError(error) => self.complaining(now, error),
            MonitorEventModel::SoundError(error) => self.complaining(now, error),
        }
    }

    /// The app after the monitor reported several things.
    pub open spec fn after_events(
        self,
        events: Seq<MonitorEventModel>,
        now: LocalDateTime,
    ) -> AppModel
        decreases events.len(),
    {
        if events.len() == 0 {
            self
        } else {
            self.after_events(events.drop_last(), now).after_event(events.last(), now)
        }
    }

    /// The app with the alarm time written the way the app shows it, if it can be read.
    pub open spec fn with_normalized_time(self) -> AppModel {
        match alarm::time_of_text(self.state.alarm_time) {
            Some((hour, minute)) => if self.state.alarm_time == alarm::dotted(hour, minute) {
                self
            } else {
                AppModel {
                    state: StateModel { alarm_time: alarm::dotted(hour, minute), ..self.state },
                    ..self
                }.saving()
            },
            None => self,
        }
    }

    /// The alarm that is set for a label and a point in time.
    pub open spec fn alarm_for(self, label: Seq<char>, scheduled_for: LocalDateTime) -> AlarmModel {
        AlarmModel {
            reminder: label,
            scheduled_for,
            delay_for_games: self.state.delay_for_games,
            sound_path: paths::typed_path(self.state.sound_path),
        }
    }

    /// The app after an alarm was set.
    pub open spec fn with_alarm_at(self, label: Seq<char>, scheduled_for: LocalDateTime) -> AppModel {
        let id = self.next_alarm_id;
        let alarm = self.alarm_for(label, scheduled_for);
        AppModel { next_alarm_id: alarm::id_after(id), ..self }.seeing(
            (AlarmSnapshotModel {
                alarms: order::ordered(
                    self.snapshot.alarm.alarms.push(alarm::newly_scheduled(id, alarm)),
                ),
                fired_at: None,
                last_fired_reminder: None,
                ..self.snapshot.alarm
            }).refreshed(),
        ).acting(ActionModel::Send(CommandModel::Schedule { id, alarm }))
    }

    /// The app after the user set an alarm, given what was found for its time.
    pub open spec fn after_scheduling(
        self,
        found: Result<LocalDateTime, AlarmTimeError>,
        now: LocalDateTime,
    ) -> AppModel {
        match found {
            Ok(t) => self.with_alarm_at(pages::label_of(self.state.label), t).informing(
                now,
                "Alarm added for "@ + shown(t),
            ),
            Err(error) => self.complaining(now, error.words()),
        }
    }

    /// The app after one alarm was cancelled.
    pub open spec fn after_cancelling(
        self,
        id: AlarmId,
        label: Seq<char>,
        now: LocalDateTime,
    ) -> AppModel {
        self.acting(ActionModel::Send(CommandModel::CancelAlarm(id))).seeing(
            (AlarmSnapshotModel {
                alarms: alarm::alarms_without(self.snapshot.alarm.alarms, id),
                ..self.snapshot.alarm
            }).refreshed(),
        ).informing(now, "Alarm cancelled: "@ + label)
    }

    /// The app after all alarms were cancelled.
    pub open spec fn after_cancelling_all(self, now: LocalDateTime) -> AppModel {
        self.acting(ActionModel::Send(CommandModel::Cancel)).seeing(
            (AlarmSnapshotModel {
                alarms: Seq::empty(),
                fired_at: None,
                last_fired_reminder: None,
                ..self.snapshot.alarm
            }).refreshed(),
        ).informing(now, "All alarms cancelled"@)
    }

    /// The app that tells the monitor how to detect games, and is about to be saved.
    pub open spec fn saving_settings(self) -> AppModel {
        self.acting(
            ActionModel::Send(CommandModel::SetGameDetectionConfig(detection_config(self.state))),
        ).saving()
    }

    /// The app after the configuration of the game state integration was written, or could not
    /// be written.
    pub open spec fn after_gsi_install(
        self,
        path: Seq<char>,
        written: bool,
        now: LocalDateTime,
    ) -> AppModel {
        if written {
            self.saving_settings().informing(now, "CS2 GSI config installed at "@ + path)
        } else {
            self.complaining(now, "could not access Counter-Strike 2 GSI config"@)
        }
    }

    /// The app after the sound was asked for a test.
    pub open spec fn testing(
        self,
        now: LocalDateTime,
        message: Seq<char>,
        command: CommandModel,
    ) -> AppModel {
        self.test_sound_stopped().informing(now, message).acting(ActionModel::Send(command))
    }

    /// The app after an alarm was asked for to be shown for a test.
    pub open spec fn after_popup_test(self, now: LocalDateTime) -> AppModel {
        self.testing(
            now,
            "Starting test alarm popup"@,
            CommandModel::TestAlarmPopup(paths::typed_path(self.state.sound_path)),
        )
    }

    /// The app after the sound was asked for to be played for a test.
    pub open spec fn after_sound_test(self, now: LocalDateTime) -> AppModel {
        self.testing(
            now,
            "Starting test sound"@,
            CommandModel::TestSound(paths::typed_path(self.state.sound_path)),
        )
    }

    /// The app after the user stopped the sound that was played for a test.
    pub open spec fn after_stopping_test(self, now: LocalDateTime) -> AppModel {
        self.test_sound_stopped().informing(now, "Test sound stopped"@)
    }

    /// The app after its log was emptied.
    pub open spec fn without_logs(self) -> AppModel {
        AppModel { logs: Seq::empty(), ..self }.saving()
    }
}

impl AppModel {
    /// The app after the user asked for a pairing code, given credentials to use where they are
    /// missing, and the code.
    pub open spec fn after_pairing_started(
        self,
        new_id: Seq<char>,
        new_token: Seq<char>,
        code: Seq<char>,
        now: LocalDateTime,
    ) -> AppModel {
        if self.registering {
            self.with_status("Pairing registration already in progress"@)
        } else if pages::is_paired(self.bridge()) {
            self.with_status("Clear pairing before generating a new code"@)
        } else if text::is_blank(self.bridge().bridge_url) {
            self.complaining(now, "Discord bridge URL is blank"@)
        } else {
            let known = if discord_bridge::lacks_credentials(self.bridge()) {
                self.with_bridge(
                    discord_bridge::with_credentials(self.bridge(), new_id, new_token),
                ).saving()
            } else {
                self
            };
            let coded = known.with_bridge(
                BridgeSettingsModel {
                    pairing_code: code,
                    pairing_expires_at: None,
                    poll_enabled: true,
                    ..known.bridge()
                },
            ).saving();
            match coded.bridge().client_config() {
                Ok(config) => AppModel { registering: true, ..coded }.acting(
                    ActionModel::Register(discord_bridge::registration_message(config, code)),
                ).with_status("Registering pairing code"@),
                Err(error) => coded.complaining(
                    now,
                    "Discord bridge is not ready: "@ + error.words(),
                ),
            }
        }
    }

    /// The app after the pairing was given up.
    pub open spec fn after_pairing_cleared(self) -> AppModel {
        AppModel {
            handled_bridge_request_ids: Seq::empty(),
            pending_companion_invites: Seq::empty(),
            ..self
        }.with_bridge(
            BridgeSettingsModel {
                companion_id: Seq::empty(),
                api_token: Seq::empty(),
                pairing_code: Seq::empty(),
                pairing_expires_at: None,
                paired_discord_user_id: None,
                paired_discord_user_label: None,
                allowed_requester_ids: Seq::empty(),
                allowed_requesters: Seq::empty(),
                poll_enabled: false,
                ..self.bridge()
            },
        ).saving().with_status("Disconnected"@)
    }

    /// Whether there is a pairing code to drop.
    pub open spec fn has_code_to_drop(self, now: LocalDateTime) -> bool {
        !self.registering && pages::has_inactive_code(self.bridge(), now)
    }

    /// The app after pairing codes that are not shown were dropped.
    pub open spec fn without_inactive_code(self, now: LocalDateTime) -> AppModel {
        if self.has_code_to_drop(now) {
            self.with_bridge(pages::without_code(self.bridge())).saving()
        } else {
            self
        }
    }

    /// The app after the bridge registered a pairing code that expires at a time.
    pub open spec fn after_registration(
        self,
        code: Seq<char>,
        expires_at: Option<LocalDateTime>,
        now: LocalDateTime,
        clock: u64,
    ) -> AppModel {
        AppModel {
            next_bridge_poll_at: clock,
            ..AppModel { registering: false, ..self }.with_bridge(
                BridgeSettingsModel {
                    pairing_code: code,
                    pairing_expires_at: expires_at,
                    ..self.bridge()
                },
            ).saving().informing(now, "Discord pairing code registered"@).with_status(
                "Waiting for /companion pair"@,
            )
        }
    }

    /// The app after the bridge did not register a pairing code.
    pub open spec fn after_failed_registration(
        self,
        reason: Seq<char>,
        now: LocalDateTime,
    ) -> AppModel {
        AppModel { registering: false, ..self }.with_bridge(
            pages::without_code(self.bridge()),
        ).saving().complaining(
            now,
            "Could not register Discord pairing code: "@ + reason,
        ).with_status("Pairing failed"@)
    }

    /// The app after it may have asked the bridge for requests, at a time of a clock that counts
    /// milliseconds.
    pub open spec fn after_poll_check(self, clock: u64) -> AppModel {
        if !self.bridge().can_poll() || self.polling || self.registering || clock
            < self.next_bridge_poll_at {
            self
        } else {
            match self.bridge().client_config() {
                Ok(config) => AppModel {
                    polling: true,
                    next_bridge_poll_at: if clock + discord_bridge::POLL_INTERVAL_MILLIS
                        <= u64::MAX {
                        (clock + discord_bridge::POLL_INTERVAL_MILLIS) as u64
                    } else {
                        u64::MAX
                    },
                    ..self
                }.acting(ActionModel::Poll(discord_bridge::poll_message(config))),
                Err(error) => self.with_status("Discord bridge is not ready: "@ + error.words()),
            }
        }
    }

    /// The app that tells the bridge what became of a request, if it can.
    pub open spec fn reporting(
        self,
        request_id: u64,
        status: RequestStatus,
        reason: Option<Seq<char>>,
    ) -> AppModel {
        match self.bridge().client_config() {
            Ok(config) => self.acting(
                ActionModel::Report(
                    discord_bridge::request_report_message(config, request_id, status, reason),
                ),
            ),
            Err(_) => self,
        }
    }

    /// The app that tells the bridge that a request was rejected, if it can.
    pub open spec fn rejecting(self, request_id: u64, reason: Seq<char>) -> AppModel {
        self.reporting(request_id, RequestStatus::Rejected, Some(reason))
    }

    /// The app that tells the bridge what became of an invitation, if it can.
    pub open spec fn reporting_invite(self, invite_id: u64, status: InviteStatus) -> AppModel {
        match self.bridge().client_config() {
            Ok(config) => self.acting(
                ActionModel::Report(
                    discord_bridge::invite_report_message(config, invite_id, status),
                ),
            ),
            Err(_) => self,
        }
    }

    /// The app that remembers that a request was handled.
    pub open spec fn remembering(self, request_id: u64) -> AppModel {
        AppModel {
            handled_bridge_request_ids: handled_with(self.handled_bridge_request_ids, request_id),
            ..self
        }
    }

    /// The app after a Discord user asked for an alarm, given what was found for its time.
    pub open spec fn after_request(
        self,
        request: RemoteRequestModel,
        found: Result<LocalDateTime, AlarmTimeError>,
        now: LocalDateTime,
    ) -> AppModel {
        if self.handled_bridge_request_ids.contains(request.id) {
            self.reporting(request.id, RequestStatus::Accepted, Some("already handled"@))
        } else {
            match self.bridge().paired_discord_user_id {
                None => self.rejecting(request.id, "companion is not paired"@),
                Some(owner) => if request.target_id != owner {
                    self.rejecting(request.id, "target Discord user mismatch"@)
                } else if !requesters::is_allowed(
                    owner,
                    self.bridge().allowed_requester_ids,
                    request.requester_id,
                ) {
                    self.rejecting(request.id, "requester is not allowed"@).complaining(
                        now,
                        "Rejected Discord alarm request #"@ + text::decimal(request.id as nat)
                            + " from "@ + request.requester_id,
                    )
                } else {
                    self.knowing_requester(request).after_allowed_request(request, found, now)
                },
            }
        }
    }

    /// The app that remembers the name that a request gives for who asks.
    pub open spec fn knowing_requester(self, request: RemoteRequestModel) -> AppModel {
        let settings = pages::with_request_label(self.bridge(), request);
        if settings.allowed_requesters == self.bridge().allowed_requesters {
            self.with_bridge(settings)
        } else {
            self.with_bridge(settings).saving()
        }
    }

    /// The app after a Discord user who may do so asked for an alarm.
    pub open spec fn after_allowed_request(
        self,
        request: RemoteRequestModel,
        found: Result<LocalDateTime, AlarmTimeError>,
        now: LocalDateTime,
    ) -> AppModel {
        match found {
            Ok(t) => self.with_alarm_at(pages::label_of(request.label), t).remembering(
                request.id,
            ).reporting(request.id, RequestStatus::Accepted, None).informing(
                now,
                "Accepted Discord alarm request #"@ + text::decimal(request.id as nat) + " for "@
                    + shown(t),
            ),
            Err(error) => self.rejecting(request.id, error.words()),
        }
    }

    /// The app after several requests, given what was found for their times.
    pub open spec fn after_requests(
        self,
        requests: Seq<RemoteRequestModel>,
        found: Seq<Result<LocalDateTime, AlarmTimeError>>,
        now: LocalDateTime,
    ) -> AppModel
        decreases requests.len(),
    {
        if requests.len() == 0 {
            self
        } else {
            self.after_requests(requests.drop_last(), found.drop_last(), now).after_request(
                requests.last(),
                found.last(),
                now,
            )
        }
    }
}

/// The requests that are remembered as handled, after one more.
pub open spec fn handled_with(handled: Seq<u64>, id: u64) -> Seq<u64> {
    if handled.contains(id) {
        handled
    } else if handled.len() < MAX_HANDLED_REQUESTS {
        handled.push(id)
    } else {
        handled.push(id).skip(handled.len() + 1 - MAX_HANDLED_REQUESTS)
    }
}

/// What the status of the bridge says after a poll.
pub open spec fn poll_words(request_count: nat, invite_count: nat) -> Seq<char> {
    if request_count == 0 && invite_count == 0 {
        "Connected"@
    } else {
        "Connected; processed "@ + text::decimal(request_count) + " request(s), "@
            + text::decimal(invite_count) + " invite(s) pending"@
    }
}

impl AppModel {
    /// The app that knows with whom the bridge says it is paired, and has dropped a pairing code
    /// that is not shown any more.
    pub open spec fn knowing_pairing(self, response: PollModel, now: LocalDateTime) -> AppModel {
        let other = self.bridge().paired_discord_user_id != response.paired_discord_user_id
            || self.bridge().paired_discord_user_label != response.paired_discord_user_label;
        let settings = BridgeSettingsModel {
            paired_discord_user_id: response.paired_discord_user_id,
            paired_discord_user_label: response.paired_discord_user_label,
            ..self.bridge()
        };
        if pages::has_inactive_code(settings, now) {
            self.with_bridge(pages::without_code(settings)).saving()
        } else if other {
            self.with_bridge(settings).saving()
        } else {
            self
        }
    }

    /// The app that has other invitations to show. New ones are brought to the user's attention.
    pub open spec fn with_invites(self, invites: Seq<InviteModel>, now: LocalDateTime) -> AppModel {
        let labels = pages::new_invite_words(self.pending_companion_invites, invites);
        let next = AppModel { pending_companion_invites: invites, ..self };
        if labels.len() == 0 {
            next
        } else {
            AppModel { current_page: AppPage::Discord, ..next }.acting(
                ActionModel::RequestAttention,
            ).informing(now, "Pending Discord access invite: "@ + text::joined(labels, ", "@))
        }
    }

    /// The app after the bridge answered a poll, given what was found for the times of the
    /// requests.
    pub open spec fn after_poll(
        self,
        response: PollModel,
        found: Seq<Result<LocalDateTime, AlarmTimeError>>,
        now: LocalDateTime,
    ) -> AppModel {
        if !response.paired {
            AppModel { pending_companion_invites: Seq::empty(), ..self }.with_bridge(
                BridgeSettingsModel {
                    paired_discord_user_id: None,
                    paired_discord_user_label: None,
                    ..self.bridge()
                },
            ).saving().with_status("Waiting for /companion pair"@)
        } else {
            self.knowing_pairing(response, now).after_requests(
                response.requests,
                found,
                now,
            ).with_invites(response.invites, now).with_status(
                poll_words(response.requests.len(), response.invites.len()),
            )
        }
    }

    /// The app after the user allowed an invitation.
    pub open spec fn after_allowing(self, invite_id: u64, now: LocalDateTime) -> AppModel {
        match seqs::first_where(
            self.pending_companion_invites,
            |i: InviteModel| i.id == invite_id,
        ) {
            Some(at) => {
                let invite = self.pending_companion_invites[at];
                let settings = BridgeSettingsModel {
                    allowed_requester_ids: requesters::list_of(
                        requesters::with_user(
                            requesters::users_in(self.bridge().allowed_requester_ids),
                            invite.invitee_id,
                        ),
                    ),
                    ..self.bridge()
                };
                self.with_bridge(
                    discord_bridge::with_requester(
                        settings,
                        invite.invitee_id,
                        invite.invitee_label,
                    ),
                ).without_invite(invite_id).saving().reporting_invite(
                    invite_id,
                    InviteStatus::Allowed,
                ).informing(now, "Allowed "@ + invite.user_words() + " to request alarms"@)
            },
            None => self,
        }
    }

    /// The app without an invitation.
    pub open spec fn without_invite(self, invite_id: u64) -> AppModel {
        AppModel {
            pending_companion_invites: self.pending_companion_invites.filter(
                |i: InviteModel| i.id != invite_id,
            ),
            ..self
        }
    }

    /// The app after the user rejected an invitation.
    pub open spec fn after_rejecting(self, invite_id: u64, now: LocalDateTime) -> AppModel {
        match seqs::first_where(
            self.pending_companion_invites,
            |i: InviteModel| i.id == invite_id,
        ) {
            Some(at) => self.without_invite(invite_id).reporting_invite(
                invite_id,
                InviteStatus::Rejected,
            ).informing(
                now,
                "Rejected Discord access invite for "@
                    + self.pending_companion_invites[at].user_words(),
            ),
            None => self,
        }
    }

    /// The app after the user allowed the Discord user whose number was typed in.
    pub open spec fn after_adding_user(self, now: LocalDateTime) -> AppModel {
        let users = requesters::users_in(self.bridge().allowed_requester_ids);
        if text::is_blank(self.new_allowed_requester_id) {
            self.complaining(now, "Allowed Discord user field is blank"@)
        } else {
            match requesters::user_id_of(self.new_allowed_requester_id) {
                Some(id) if !users.contains(id) => {
                    let settings = BridgeSettingsModel {
                        allowed_requester_ids: requesters::list_of(users.insert(id)),
                        ..self.bridge()
                    };
                    AppModel { new_allowed_requester_id: Seq::empty(), ..self }.with_bridge(
                        discord_bridge::with_requester(settings, id, Seq::empty()),
                    ).saving().informing(
                        now,
                        "Allowed Discord user "@ + id + " to request alarms"@,
                    )
                },
                _ => self.complaining(
                    now,
                    "Discord user is already allowed or the ID is invalid"@,
                ),
            }
        }
    }

    /// The app after the user took a Discord user off the list.
    pub open spec fn after_removing_user(self, user_id: Seq<char>, now: LocalDateTime) -> AppModel {
        let settings = BridgeSettingsModel {
            allowed_requester_ids: requesters::list_of(
                requesters::without_user(
                    requesters::users_in(self.bridge().allowed_requester_ids),
                    user_id,
                ),
            ),
            ..self.bridge()
        };
        self.with_bridge(discord_bridge::without_requester(settings, user_id)).saving().informing(
            now,
            "Removed Discord user "@ + user_id + " from allowed users"@,
        )
    }

    /// What is shown of the alarms in one line.
    pub open spec fn summary(self) -> Seq<char> {
        let alarms = self.snapshot.alarm.alarms;
        if alarms.len() > 0 {
            let next = alarms[0].alarm.reminder + " at "@ + shown(alarms[0].alarm.scheduled_for);
            if alarms.len() == 1 {
                next
            } else {
                text::decimal(alarms.len()) + " alarms scheduled, next: "@ + next
            }
        } else {
            match self.snapshot.alarm.fired_at {
                Some(fired_at) => match self.snapshot.alarm.last_fired_reminder {
                    Some(reminder) => "Last fired at "@ + shown(fired_at) + ": "@ + reminder,
                    None => "Last fired at "@ + shown(fired_at),
                },
                None => "No alarm scheduled"@,
            }
        }
    }

    /// The app after all shown alarms were dismissed.
    pub open spec fn after_dismissing_all(self) -> AppModel {
        AppModel {
            alarm_popups: Seq::empty(),
            actions: self.actions + stops_of(self.alarm_popups),
            ..self
        }
    }

    /// The app after one shown alarm was dismissed.
    pub open spec fn after_dismissing(self, id: u64) -> AppModel {
        let left = AppModel {
            alarm_popups: self.alarm_popups.filter(|p: PopupModel| p.id != id),
            ..self
        };
        match seqs::first_where(self.alarm_popups, |p: PopupModel| p.id == id) {
            Some(at) => AppModel {
                actions: self.actions + stop_of(self.alarm_popups[at]),
                ..left
            },
            None => left,
        }
    }
}

/// What there is to do to silence a shown alarm.
pub open spec fn stop_of(popup: PopupModel) -> Seq<ActionModel> {
    match popup.sound {
        Some(sound) => seq![ActionModel::StopSound(sound)],
        None => Seq::empty(),
    }
}

/// What there is to do to silence shown alarms.
pub open spec fn stops_of(popups: Seq<PopupModel>) -> Seq<ActionModel>
    decreases popups.len(),
{
    if popups.len() == 0 {
        Seq::empty()
    } else {
        stops_of(popups.drop_last()) + stop_of(popups.last())
    }
}

/// The app at the start, before anything is logged.
pub open spec fn starting_app(state: StateModel, now: LocalDateTime) -> AppModel {
    let restored = pages::restored_alarms(state.alarms, now);
    AppModel {
        state: StateModel { alarms: restored, ..state },
        snapshot: MonitorSnapshotModel {
            alarm: alarm::restored_engine(restored).snapshot(),
            game_status: Seq::empty(),
            last_checked: now,
        },
        alarm_popups: Seq::empty(),
        next_alarm_id: alarm::next_id(state.alarms),
        next_alarm_popup_id: 1,
        test_sound: None,
        logs: pages::last_entries(state.logs),
        current_page: AppPage::Alarm,
        registering: false,
        polling: false,
        next_bridge_poll_at: 0,
        bridge_status: "Disconnected"@,
        handled_bridge_request_ids: Seq::empty(),
        pending_companion_invites: Seq::empty(),
        new_allowed_requester_id: Seq::empty(),
        actions: Seq::empty(),
    }
}

/// Whether a crash was not reported yet.
pub open spec fn is_news(state: StateModel, notice: Option<CrashNoticeModel>) -> bool {
    notice is Some && state.last_reported_crash_fingerprint != Some(notice->0.fingerprint)
}

impl AppModel {
    /// The app after it said how many alarms it restored.
    pub open spec fn telling_restored(self, count: nat, now: LocalDateTime) -> AppModel {
        if count == 0 {
            self
        } else {
            self.informing(
                now,
                "Restored "@ + text::decimal(count) + " pending alarm(s)"@,
            )
        }
    }

    /// The app after it told of a crash.
    pub open spec fn telling_crash(self, notice: CrashNoticeModel, now: LocalDateTime) -> AppModel {
        AppModel {
            state: StateModel {
                last_reported_crash_fingerprint: Some(notice.fingerprint),
                ..self.state
            },
            ..self
        }.complaining(
            now,
            "Previous crash recorded: "@ + notice.summary + ". Crash log: "@ + notice.path,
        )
    }
}

/// The app after it was started with a state, with what is known of the last crash, and with
/// what went wrong when the state was loaded.
pub open spec fn started_app(
    state: StateModel,
    notice: Option<CrashNoticeModel>,
    load_error: Option<Seq<char>>,
    now: LocalDateTime,
) -> AppModel {
    let ready = starting_app(state, now).informing(now, "Ready"@).informing(
        now,
        "Graphics backend setting: "@ + state.graphics_backend_preference.word(),
    ).telling_restored(pages::restored_alarms(state.alarms, now).len(), now).showing_all_missed(
        pages::missed_alarms(state.alarms, now),
        now,
    );
    let told = if is_news(state, notice) {
        ready.telling_crash(notice->0, now)
    } else {
        ready
    };
    match load_error {
        Some(reason) => told.complaining(now, "Could not load saved state: "@ + reason),
        None => told,
    }
}

} // verus!
