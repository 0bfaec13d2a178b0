//! What holds of the app as a whole.
use vstd::prelude::*;

use crate::alarm;
use crate::alarm::{
    AlarmId, AlarmModel, AlarmSnapshotModel, AlarmStatus, AlarmTimeError, EngineModel,
    GameActivity, PendingAlarmModel,
};
use crate::app;
use crate::app::TaskReport;
use crate::app_model;
use crate::app_model::{ActionModel, AppModel, PopupModel, MAX_HANDLED_REQUESTS};
use crate::crash::CrashNoticeModel;
use crate::discord_bridge;
use crate::discord_bridge::{
    BridgeBodyModel, BridgeSettingsModel, PairingRegistrationResponse, PollModel,
    PollRequestsResponse, RemoteRequestModel, RequestStatus, RequesterModel,
};
use crate::order;
use crate::pages;
use crate::pages::MAX_LOG_ENTRIES;
use crate::requesters;
use crate::seqs;
use crate::sound::SoundHandle;
use crate::storage::{LogEntryModel, PersistedLogLevel, StateModel};
use crate::text;
use crate::time;
use crate::time::LocalDateTime;
use crate::worker;
use crate::worker::{CommandModel, MonitorEventModel, MonitorSnapshotModel};

verus! {

/// Whether the app would do what a request asks for: it has not done so before, and the request
/// is for the paired user and from somebody who may ask.
pub open spec fn would_do(app: AppModel, request: RemoteRequestModel) -> bool {
    &&& !app.handled_bridge_request_ids.contains(request.id)
    &&& app.bridge().paired_discord_user_id == Some(request.target_id)
    &&& requesters::is_allowed(
        request.target_id,
        app.bridge().allowed_requester_ids,
        request.requester_id,
    )
}

/// Whether two states of the app have the same alarms.
pub open spec fn same_alarms(a: AppModel, b: AppModel) -> bool {
    a.snapshot == b.snapshot && a.next_alarm_id == b.next_alarm_id
}

/// Whether two states have the same settings of the user: all that can be typed in or chosen, but
/// for the bridge.
pub open spec fn same_settings(a: StateModel, b: StateModel) -> bool {
    &&& a.label == b.label
    &&& a.alarm_time == b.alarm_time
    &&& a.delay_for_games == b.delay_for_games
    &&& a.lockfile_path == b.lockfile_path
    &&& a.sound_path == b.sound_path
    &&& a.counter_strike_2_gsi_port == b.counter_strike_2_gsi_port
    &&& a.counter_strike_2_gsi_config_path == b.counter_strike_2_gsi_config_path
    &&& a.theme_preference == b.theme_preference
    &&& a.graphics_backend_preference == b.graphics_backend_preference
}

/// Whether two states of the app show the same alarms that went off and play the same test sound.
pub open spec fn same_popups(a: AppModel, b: AppModel) -> bool {
    &&& a.alarm_popups == b.alarm_popups
    &&& a.next_alarm_popup_id == b.next_alarm_popup_id
    &&& a.test_sound == b.test_sound
}

/// Whether two states of the app are at the same point with the bridge, but for its settings.
pub open spec fn same_bridge_work(a: AppModel, b: AppModel) -> bool {
    &&& a.registering == b.registering
    &&& a.polling == b.polling
    &&& a.next_bridge_poll_at == b.next_bridge_poll_at
    &&& a.handled_bridge_request_ids == b.handled_bridge_request_ids
    &&& a.pending_companion_invites == b.pending_companion_invites
    &&& a.new_allowed_requester_id == b.new_allowed_requester_id
}

/// Whether the app has asked for its state to be saved as it is now: with all settings, the
/// alarms that are shown, and the end of the log.
pub open spec fn saves_itself_last(app: AppModel) -> bool {
    &&& app.actions.len() > 0
    &&& app.actions[app.actions.len() - 1] == ActionModel::Save(app.state)
    &&& app.state.alarms == app.snapshot.alarm.alarms
    &&& app.logs.len() <= 500 ==> app.state.logs == app.logs
    &&& app.state.logs.len() <= 500
}

/// Saving changes nothing but what is kept of the alarms and the log, which are brought up to
/// date, and asks once for the state to be written.
pub proof fn saving_writes_what_there_is(app: AppModel)
    ensures
        ({
            let after = app.saving();
            &&& same_settings(after.state, app.state)
            &&& after.state.discord_bridge == app.state.discord_bridge
            &&& after.state.last_reported_crash_fingerprint
                == app.state.last_reported_crash_fingerprint
            &&& after.state.alarms == app.snapshot.alarm.alarms
            &&& after.snapshot == app.snapshot
            &&& after.logs == app.logs
            &&& same_popups(after, app)
            &&& same_bridge_work(after, app)
            &&& after.next_alarm_id == app.next_alarm_id
            &&& after.bridge_status == app.bridge_status
            &&& after.current_page == app.current_page
            &&& after.actions == app.actions.push(ActionModel::Save(after.state))
            &&& app.logs.len() <= 500 ==> after.state.logs == app.logs
            &&& app.logs.len() > 500 ==> after.state.logs == app.logs.subrange(
                app.logs.len() - 500,
                app.logs.len() as int,
            )
        }),
{
    if app.logs.len() > 500 {
        assert(app.saving().state.logs =~= app.logs.subrange(
            app.logs.len() - 500,
            app.logs.len() as int,
        ));
    }
}

/// What is logged stands at the end of the log with its time, its level and its words, behind
/// what was there; nothing else changes, and the state is saved.
pub proof fn logging_only_logs(
    app: AppModel,
    level: PersistedLogLevel,
    at: LocalDateTime,
    message: Seq<char>,
)
    ensures
        ({
            let after = app.logging(level, at, message);
            let entry = LogEntryModel { occurred_at: at, level, message };
            &&& after.logs.len() > 0
            &&& after.logs[after.logs.len() - 1] == entry
            &&& app.logs.len() < 500 ==> after.logs == app.logs.push(entry)
            &&& app.logs.len() >= 500 ==> after.logs == app.logs.push(entry).subrange(
                app.logs.len() - 499,
                app.logs.len() as int + 1,
            )
            &&& same_settings(after.state, app.state)
            &&& after.state.discord_bridge == app.state.discord_bridge
            &&& after.snapshot == app.snapshot
            &&& same_popups(after, app)
            &&& same_bridge_work(after, app)
            &&& after.next_alarm_id == app.next_alarm_id
            &&& after.bridge_status == app.bridge_status
            &&& after.current_page == app.current_page
            &&& after.actions == app.actions.push(ActionModel::Save(after.state))
            &&& saves_itself_last(after)
        }),
        app.informing(at, message) == app.logging(PersistedLogLevel::Info, at, message),
        app.complaining(at, message) == app.logging(PersistedLogLevel::Error, at, message),
{
    let entry = LogEntryModel { occurred_at: at, level, message };
    if app.logs.len() >= 500 {
        assert(app.logging(level, at, message).logs =~= app.logs.push(entry).subrange(
            app.logs.len() - 499,
            app.logs.len() as int + 1,
        ));
    }
}

/// The alarm that the app sets for a label: when it goes off it shows the label, or `Alarm` where
/// there is none; whether it waits for games and what it plays is what the user has chosen.
pub open spec fn chosen_alarm(
    state: StateModel,
    label: Seq<char>,
    scheduled_for: LocalDateTime,
) -> AlarmModel {
    AlarmModel {
        reminder: if text::is_blank(label) {
            "Alarm"@
        } else {
            text::trimmed(label)
        },
        scheduled_for,
        delay_for_games: state.delay_for_games,
        sound_path: if text::is_blank(state.sound_path) {
            None
        } else {
            Some(text::trimmed(state.sound_path))
        },
    }
}

/// Whether an alarm was added: the app shows it among the others, in order, neither delayed nor
/// waiting, and has told the monitor of the same alarm under the same number, which was not used
/// before.
pub open spec fn added_alarm(
    before: AppModel,
    after: AppModel,
    alarm: AlarmModel,
) -> bool {
    &&& after.snapshot.alarm.alarms.to_multiset()
        == before.snapshot.alarm.alarms.to_multiset().insert(
        PendingAlarmModel {
            id: before.next_alarm_id,
            alarm,
            status: AlarmStatus::Scheduled,
            delayed_by_game: false,
        },
    )
    &&& order::in_order(after.snapshot.alarm.alarms)
    &&& after.snapshot.alarm.fired_at is None
    &&& after.snapshot.alarm.last_fired_reminder is None
    &&& after.next_alarm_id == before.next_alarm_id + 1 || before.next_alarm_id == u64::MAX
    &&& after.actions.contains(
        ActionModel::Send(CommandModel::Schedule { id: before.next_alarm_id, alarm }),
    )
    &&& same_popups(before, after)
}

proof fn lemma_alarm_added(app: AppModel, label: Seq<char>, t: LocalDateTime)
    ensures
        ({
            let set = AlarmModel {
                reminder: label,
                scheduled_for: t,
                delay_for_games: app.state.delay_for_games,
                sound_path: if text::is_blank(app.state.sound_path) {
                    None
                } else {
                    Some(text::trimmed(app.state.sound_path))
                },
            };
            let after = app.with_alarm_at(label, t);
            &&& added_alarm(app, after, set)
            &&& after.actions == app.actions.push(
                ActionModel::Send(CommandModel::Schedule { id: app.next_alarm_id, alarm: set }),
            )
            &&& after.state == app.state
            &&& after.logs == app.logs
            &&& same_bridge_work(after, app)
            &&& after.bridge_status == app.bridge_status
        }),
{
    let set = app.alarm_for(label, t);
    let added = PendingAlarmModel {
        id: app.next_alarm_id,
        alarm: set,
        status: AlarmStatus::Scheduled,
        delayed_by_game: false,
    };
    let longer = app.snapshot.alarm.alarms.push(added);
    order::ordered_is_stable_order(longer);
    app.snapshot.alarm.alarms.to_multiset_ensures();
    let after = app.with_alarm_at(label, t);
    assert(after.actions[app.actions.len() as int] == ActionModel::Send(
        CommandModel::Schedule { id: app.next_alarm_id, alarm: set },
    ));
}

/// An alarm that the user sets has the label, the sound and the choice about games that the user
/// gave, and the time that was found, in what the app shows and in what the monitor is told.
/// Nothing else changes but the log, and all is saved.
pub proof fn user_alarm_is_set_as_chosen(app: AppModel, t: LocalDateTime, now: LocalDateTime)
    ensures
        ({
            let after = app.after_scheduling(Ok(t), now);
            let set = chosen_alarm(app.state, app.state.label, t);
            &&& added_alarm(app, after, set)
            &&& after.actions.len() == app.actions.len() + 2
            &&& after.actions[app.actions.len() as int] == ActionModel::Send(
                CommandModel::Schedule { id: app.next_alarm_id, alarm: set },
            )
            &&& saves_itself_last(after)
            &&& same_settings(after.state, app.state)
            &&& after.state.discord_bridge == app.state.discord_bridge
            &&& same_bridge_work(after, app)
            &&& after.logs[after.logs.len() - 1].level == PersistedLogLevel::Info
            &&& after.logs[after.logs.len() - 1].occurred_at == now
        }),
{
    let label = pages::label_of(app.state.label);
    lemma_alarm_added(app, label, t);
    let set = chosen_alarm(app.state, app.state.label, t);
    let middle = app.with_alarm_at(label, t);
    let words = "Alarm added for "@ + app_model::shown(t);
    logging_only_logs(middle, PersistedLogLevel::Info, now, words);
    let after = app.after_scheduling(Ok(t), now);
    assert(after.actions[app.actions.len() as int] == middle.actions[app.actions.len() as int]);
}

/// Where no time was found the user is told why, and no alarm is set.
pub proof fn no_alarm_without_a_time(app: AppModel, error: AlarmTimeError, now: LocalDateTime)
    ensures
        ({
            let after = app.after_scheduling(Err(error), now);
            &&& same_alarms(app, after)
            &&& after.actions == app.actions.push(ActionModel::Save(after.state))
            &&& same_settings(after.state, app.state)
            &&& same_popups(after, app)
            &&& after.logs[after.logs.len() - 1] == (LogEntryModel {
                occurred_at: now,
                level: PersistedLogLevel::Error,
                message: error.words(),
            })
        }),
{
    logging_only_logs(app, PersistedLogLevel::Error, now, error.words());
}

/// Writing the time the way the app shows it changes the field alone, and not the time.
pub proof fn normalizing_keeps_the_time(app: AppModel)
    ensures
        ({
            let after = app.with_normalized_time();
            &&& alarm::time_of_text(after.state.alarm_time) == alarm::time_of_text(
                app.state.alarm_time,
            )
            &&& alarm::time_of_text(app.state.alarm_time) matches Some((hour, minute)) ==>
                after.state.alarm_time == text::two_digits(hour).push('.') + text::two_digits(
                minute,
            )
            &&& alarm::time_of_text(app.state.alarm_time) is None ==> after == app
            &&& same_settings(
                StateModel { alarm_time: app.state.alarm_time, ..after.state },
                app.state,
            )
            &&& after.state.discord_bridge == app.state.discord_bridge
            &&& same_alarms(after, app)
            &&& same_popups(after, app)
            &&& same_bridge_work(after, app)
            &&& after.logs == app.logs
            &&& after.state.alarm_time == app.state.alarm_time || saves_itself_last(after)
        }),
{
    match alarm::time_of_text(app.state.alarm_time) {
        Some((hour, minute)) => {
            alarm::what_is_read_is_a_time_of_day(app.state.alarm_time, 0);
            alarm::normalized_time_reads_back(hour, minute);
        },
        None => {},
    }
}

/// Setting the alarm that the user typed in: the alarm is for the next time, by the local wall
/// clock, at the hour and the minute typed in, and is as the user chose it. Where the time cannot
/// be read, or cannot be had, nothing is set and the user is told why.
pub proof fn setting_the_typed_alarm(before: AppModel, after: AppModel, now: LocalDateTime)
    requires
        app::may_schedule(before, after, now),
    ensures
        match alarm::time_of_text(before.state.alarm_time) {
            Some((hour, minute)) => exists|
                found: Result<LocalDateTime, AlarmTimeError>,
                zone: Seq<char>,
                next_zone: Seq<char>,
            |
                {
                    &&& #[trigger] alarm::is_next_alarm_time_in(
                        found,
                        hour,
                        minute,
                        now,
                        zone,
                        next_zone,
                    )
                    &&& match found {
                        Ok(t) => added_alarm(
                            before,
                            after,
                            chosen_alarm(before.state, before.state.label, t),
                        ),
                        Err(error) => same_alarms(before, after) && after.logs[after.logs.len() - 1]
                            == (LogEntryModel {
                            occurred_at: now,
                            level: PersistedLogLevel::Error,
                            message: error.words(),
                        }),
                    }
                },
            None => {
                &&& same_alarms(before, after)
                &&& same_settings(before.state, after.state)
                &&& after.logs[after.logs.len() - 1] == (LogEntryModel {
                    occurred_at: now,
                    level: PersistedLogLevel::Error,
                    message: "Use 24-hour time, for example 19:30, 19.30, 19,30, or 1930"@,
                })
            },
        },
{
    match alarm::time_of_text(before.state.alarm_time) {
        Some((hour, minute)) => {
            let normalized = before.with_normalized_time();
            normalizing_keeps_the_time(before);
            let found = choose|found: Result<LocalDateTime, AlarmTimeError>|
                {
                    &&& #[trigger] alarm::may_be_next_alarm_time(
                        found,
                        normalized.state.alarm_time,
                        now,
                    )
                    &&& after == normalized.after_scheduling(found, now)
                };
            let (zone, next_zone) = choose|zone: Seq<char>, next_zone: Seq<char>| #[trigger]
                alarm::is_next_alarm_time_for(
                    found,
                    normalized.state.alarm_time,
                    now,
                    zone,
                    next_zone,
                );
            assert(alarm::is_next_alarm_time_in(found, hour, minute, now, zone, next_zone));
            match found {
                Ok(t) => {
                    user_alarm_is_set_as_chosen(normalized, t, now);
                    assert(added_alarm(
                        before,
                        after,
                        chosen_alarm(before.state, before.state.label, t),
                    ));
                },
                Err(error) => {
                    no_alarm_without_a_time(normalized, error, now);
                },
            }
        },
        None => {
            logging_only_logs(
                before,
                PersistedLogLevel::Error,
                now,
                AlarmTimeError::InvalidFormat.words(),
            );
        },
    }
}

/// An alarm that was set while alarms are to wait for games does not go off in a game: the
/// monitor that was told of it holds it back, and lets it go off when the game is over, with the
/// label and the sound that were chosen.
pub proof fn alarm_of_the_app_waits_for_games(
    app: AppModel,
    engine: EngineModel,
    t: LocalDateTime,
    now: LocalDateTime,
    due: LocalDateTime,
    later: LocalDateTime,
    activity: GameActivity,
    k: int,
)
    requires
        app.state.delay_for_games,
        forall|i: int|
            0 <= i < engine.alarms.len() ==> (#[trigger] engine.alarms[i]).id != app.next_alarm_id,
        !due.is_before(t),
        activity != GameActivity::Active,
    ensures
        ({
            let command =
                app.after_scheduling(Ok(t), now).actions[app.actions.len() as int]->Send_0;
            let told = worker::engine_after_command(engine, command);
            let during = alarm::alarms_fired(told.alarms, due, GameActivity::Active);
            let waiting = told.after_tick(due, GameActivity::Active);
            let events = alarm::alarms_fired(waiting.alarms, later, activity);
            &&& 0 <= k < during.len() ==> during[k].id != app.next_alarm_id
            &&& exists|i: int|
                {
                    &&& 0 <= i < events.len()
                    &&& (#[trigger] events[i]).id == app.next_alarm_id
                    &&& events[i].delayed_by_game
                    &&& events[i].scheduled_for == t
                    &&& events[i].reminder == if text::is_blank(app.state.label) {
                        "Alarm"@
                    } else {
                        text::trimmed(app.state.label)
                    }
                    &&& events[i].sound_path == if text::is_blank(app.state.sound_path) {
                        None
                    } else {
                        Some(text::trimmed(app.state.sound_path))
                    }
                }
        }),
{
    user_alarm_is_set_as_chosen(app, t, now);
    let set = chosen_alarm(app.state, app.state.label, t);
    let i = alarm::alarm_waits_for_the_game_and_rings(
        engine,
        app.next_alarm_id,
        set,
        due,
        later,
        activity,
    );
    let told = engine.with_alarm(app.next_alarm_id, set);
    let waiting = told.after_tick(due, GameActivity::Active);
    assert(alarm::alarms_fired(waiting.alarms, later, activity)[i].id == app.next_alarm_id);
}

/// A request that the app would not do, or whose time cannot be made out, sets no alarm.
pub proof fn refused_request_sets_no_alarm(
    app: AppModel,
    request: RemoteRequestModel,
    found: Result<LocalDateTime, AlarmTimeError>,
    now: LocalDateTime,
)
    requires
        !would_do(app, request) || found is Err,
    ensures
        same_alarms(app, app.after_request(request, found, now)),
{
}

/// A request that is refused is answered with a rejection, as long as the bridge can be asked:
/// the first thing to do is to tell the bridge so, with the reason.
pub proof fn refused_request_is_answered(
    app: AppModel,
    request: RemoteRequestModel,
    found: Result<LocalDateTime, AlarmTimeError>,
    now: LocalDateTime,
)
    requires
        !would_do(app, request),
        !app.handled_bridge_request_ids.contains(request.id),
        app.bridge().client_config() is Ok,
    ensures
        ({
            let reason = if app.bridge().paired_discord_user_id is None {
                "companion is not paired"@
            } else if app.bridge().paired_discord_user_id != Some(request.target_id) {
                "target Discord user mismatch"@
            } else {
                "requester is not allowed"@
            };
            let actions = app.after_request(request, found, now).actions;
            &&& actions.len() > app.actions.len()
            &&& actions[app.actions.len() as int] == ActionModel::Report(
                discord_bridge::request_report_message(
                    app.bridge().client_config()->Ok_0,
                    request.id,
                    RequestStatus::Rejected,
                    Some(reason),
                ),
            )
        }),
{
}

/// A request whose time cannot be made out is answered with a rejection that says why.
pub proof fn unreadable_time_is_answered(
    app: AppModel,
    request: RemoteRequestModel,
    error: AlarmTimeError,
    now: LocalDateTime,
)
    requires
        would_do(app, request),
    ensures
        app.after_request(request, Err(error), now) == app.knowing_requester(request).rejecting(
            request.id,
            error.words(),
        ),
{
}

/// A request that the app does sets the alarm that it asks for.
pub proof fn granted_request_sets_its_alarm(
    app: AppModel,
    request: RemoteRequestModel,
    t: LocalDateTime,
    now: LocalDateTime,
)
    requires
        would_do(app, request),
    ensures
        ({
            let after = app.after_request(request, Ok(t), now);
            let added = alarm::newly_scheduled(
                app.next_alarm_id,
                app.alarm_for(pages::label_of(request.label), t),
            );
            &&& after.snapshot.alarm.alarms.contains(added)
            &&& after.snapshot.alarm.alarms.len() == app.snapshot.alarm.alarms.len() + 1
            &&& after.handled_bridge_request_ids.contains(request.id)
        }),
{
    let added = alarm::newly_scheduled(
        app.next_alarm_id,
        app.alarm_for(pages::label_of(request.label), t),
    );
    let longer = app.snapshot.alarm.alarms.push(added);
    order::order_keeps_members(longer);
    assert(longer[app.snapshot.alarm.alarms.len() as int] == added);
    assert(longer.contains(added));
    lemma_handled_is_remembered(app.handled_bridge_request_ids, request.id);
}

/// A request that the app does is answered as accepted, as long as the bridge can be asked.
pub proof fn granted_request_is_answered(
    app: AppModel,
    request: RemoteRequestModel,
    t: LocalDateTime,
    now: LocalDateTime,
)
    requires
        would_do(app, request),
        app.bridge().client_config() is Ok,
    ensures
        app.after_request(request, Ok(t), now).actions.contains(
            ActionModel::Report(
                discord_bridge::request_report_message(
                    app.bridge().client_config()->Ok_0,
                    request.id,
                    RequestStatus::Accepted,
                    None,
                ),
            ),
        ),
{
    let known = app.knowing_requester(request);
    let set = known.with_alarm_at(pages::label_of(request.label), t).remembering(request.id);
    assert(set.bridge().client_config() == app.bridge().client_config());
    let told = set.reporting(request.id, RequestStatus::Accepted, None);
    let after = app.after_request(request, Ok(t), now);
    assert(after.actions[set.actions.len() as int] == told.actions[set.actions.len() as int]);
}

/// A user who was invited and allowed may ask for alarms from then on.
pub proof fn allowed_invitee_may_ask(
    app: AppModel,
    invite_id: u64,
    k: int,
    id: Seq<char>,
    request: RemoteRequestModel,
    now: LocalDateTime,
)
    requires
        seqs::is_first(
            app.pending_companion_invites,
            |i: discord_bridge::InviteModel| i.id == invite_id,
            k,
        ),
        requesters::user_id_of(app.pending_companion_invites[k].invitee_id) == Some(id),
        request.requester_id == id,
        app.bridge().paired_discord_user_id == Some(request.target_id),
        !app.handled_bridge_request_ids.contains(request.id),
    ensures
        would_do(app.after_allowing(invite_id, now), request),
{
    let invite = app.pending_companion_invites[k];
    seqs::first_is_found(
        app.pending_companion_invites,
        |i: discord_bridge::InviteModel| i.id == invite_id,
        k,
    );
    requesters::added_user_is_allowed(
        request.target_id,
        app.bridge().allowed_requester_ids,
        invite.invitee_id,
        id,
        id,
    );
}

/// A user who was taken off the list sets no more alarms, unless it is the owner.
pub proof fn removed_user_sets_no_alarm(
    app: AppModel,
    user: Seq<char>,
    request: RemoteRequestModel,
    found: Result<LocalDateTime, AlarmTimeError>,
    now: LocalDateTime,
    later: LocalDateTime,
)
    requires
        requesters::user_id_of(user) == Some(request.requester_id),
        app.bridge().paired_discord_user_id != Some(request.requester_id),
    ensures
        ({
            let removed = app.after_removing_user(user, now);
            same_alarms(removed, removed.after_request(request, found, later))
        }),
{
    let removed = app.after_removing_user(user, now);
    if would_do(removed, request) {
        requesters::removed_user_is_not_allowed(
            request.target_id,
            app.bridge().allowed_requester_ids,
            user,
            request.requester_id,
            request.requester_id,
        );
    }
    refused_request_sets_no_alarm(removed, request, found, later);
}

proof fn lemma_handled_is_remembered(handled: Seq<u64>, id: u64)
    ensures
        app_model::handled_with(handled, id).contains(id),
{
    let after = app_model::handled_with(handled, id);
    if !handled.contains(id) {
        assert(after.last() == id);
        assert(after[after.len() - 1] == id);
    }
}

/// A request that comes again after it was done sets no second alarm, and is answered as done.
pub proof fn request_is_done_once(
    app: AppModel,
    request: RemoteRequestModel,
    t: LocalDateTime,
    now: LocalDateTime,
    found: Result<LocalDateTime, AlarmTimeError>,
    later: LocalDateTime,
)
    requires
        would_do(app, request),
    ensures
        ({
            let once = app.after_request(request, Ok(t), now);
            once.after_request(request, found, later) == once.reporting(
                request.id,
                RequestStatus::Accepted,
                Some("already handled"@),
            )
        }),
        ({
            let once = app.after_request(request, Ok(t), now);
            same_alarms(once, once.after_request(request, found, later))
        }),
{
    granted_request_sets_its_alarm(app, request, t, now);
}

/// A request of the owner, or of somebody on the list, that is for the paired user and is new,
/// sets the alarm that it asks for, with the sound and the choice about games of the user; it is
/// remembered as handled, and nobody's right to ask changes. Any other request sets none.
pub proof fn request_sets_the_alarm_it_asks_for(
    app: AppModel,
    request: RemoteRequestModel,
    t: LocalDateTime,
    now: LocalDateTime,
)
    ensures
        ({
            let after = app.after_request(request, Ok(t), now);
            let bridge = app.state.discord_bridge;
            let granted = !app.handled_bridge_request_ids.contains(request.id)
                && bridge.paired_discord_user_id == Some(request.target_id) && (
            request.requester_id == request.target_id || requesters::users_in(
                bridge.allowed_requester_ids,
            ).contains(request.requester_id));
            &&& granted ==> {
                &&& added_alarm(app, after, chosen_alarm(app.state, request.label, t))
                &&& after.handled_bridge_request_ids.contains(request.id)
                &&& saves_itself_last(after)
                &&& after.logs[after.logs.len() - 1].level == PersistedLogLevel::Info
            }
            &&& !granted ==> same_alarms(app, after) && after.handled_bridge_request_ids
                == app.handled_bridge_request_ids
            &&& same_settings(after.state, app.state)
            &&& after.state.discord_bridge.allowed_requester_ids == bridge.allowed_requester_ids
            &&& after.state.discord_bridge.paired_discord_user_id == bridge.paired_discord_user_id
            &&& same_popups(after, app)
        }),
{
    let granted = would_do(app, request);
    if granted {
        let label = pages::label_of(request.label);
        let known = app.knowing_requester(request);
        lemma_alarm_added(known, label, t);
        lemma_handled_is_remembered(app.handled_bridge_request_ids, request.id);
        let set = known.with_alarm_at(label, t);
        let remembered = set.remembering(request.id);
        let told = remembered.reporting(request.id, RequestStatus::Accepted, None);
        let words = "Accepted Discord alarm request #"@ + text::decimal(request.id as nat)
            + " for "@ + app_model::shown(t);
        logging_only_logs(told, PersistedLogLevel::Info, now, words);
        let after = app.after_request(request, Ok(t), now);
        let command = ActionModel::Send(
            CommandModel::Schedule {
                id: app.next_alarm_id,
                alarm: chosen_alarm(app.state, request.label, t),
            },
        );
        let at = known.actions.len() as int;
        assert(set.actions[at] == command);
        assert(told.actions[at] == command);
        assert(after.actions[at] == command);
    }
}

/// Every request that is not granted sets no alarm either when no time was found for it, and
/// whoever asked is told: a request that was done before is confirmed, any other is rejected.
pub proof fn every_request_is_answered(
    app: AppModel,
    request: RemoteRequestModel,
    found: Result<LocalDateTime, AlarmTimeError>,
    now: LocalDateTime,
)
    requires
        app.state.discord_bridge.client_config() is Ok,
    ensures
        ({
            let after = app.after_request(request, found, now);
            let bridge = app.state.discord_bridge;
            let done = app.handled_bridge_request_ids.contains(request.id);
            let granted = !done && found is Ok && bridge.paired_discord_user_id == Some(
                request.target_id,
            ) && (request.requester_id == request.target_id || requesters::users_in(
                bridge.allowed_requester_ids,
            ).contains(request.requester_id));
            exists|i: int|
                {
                    &&& app.actions.len() <= i < after.actions.len()
                    &&& (#[trigger] after.actions[i]) is Report
                    &&& after.actions[i]->Report_0.url == bridge.client_config()->Ok_0.bridge_url
                        + "/bridge/requests/"@ + text::decimal(request.id as nat) + "/status"@
                    &&& after.actions[i]->Report_0.bearer_token == Some(
                        bridge.client_config()->Ok_0.api_token,
                    )
                    &&& after.actions[i]->Report_0.body is RequestStatus
                    &&& after.actions[i]->Report_0.body->RequestStatus_status == if granted || done {
                        "accepted"@
                    } else {
                        "rejected"@
                    }
                }
        }),
        found is Err ==> same_alarms(app, app.after_request(request, found, now)),
{
    let after = app.after_request(request, found, now);
    if would_do(app, request) {
        let known = app.knowing_requester(request);
        assert(known.bridge().client_config() == app.bridge().client_config());
        match found {
            Ok(t) => {
                let set = known.with_alarm_at(pages::label_of(request.label), t).remembering(
                    request.id,
                );
                assert(set.bridge().client_config() == app.bridge().client_config());
                let told = set.reporting(request.id, RequestStatus::Accepted, None);
                assert(after.actions[set.actions.len() as int]
                    == told.actions[set.actions.len() as int]);
                assert(after.actions[set.actions.len() as int] is Report);
            },
            Err(error) => {
                assert(after.actions[known.actions.len() as int] is Report);
            },
        }
    } else {
        assert(after.actions[app.actions.len() as int] is Report);
    }
}

/// The requests of a poll are dealt with one after the other, in their order.
pub proof fn requests_are_dealt_with_in_turn(
    app: AppModel,
    requests: Seq<RemoteRequestModel>,
    found: Seq<Result<LocalDateTime, AlarmTimeError>>,
    request: RemoteRequestModel,
    time: Result<LocalDateTime, AlarmTimeError>,
    now: LocalDateTime,
)
    requires
        found.len() == requests.len(),
    ensures
        app.after_requests(Seq::empty(), Seq::empty(), now) == app,
        app.after_requests(requests.push(request), found.push(time), now) == app.after_requests(
            requests,
            found,
            now,
        ).after_request(request, time, now),
{
    assert(requests.push(request).drop_last() =~= requests);
    assert(found.push(time).drop_last() =~= found);
}

/// A request that is remembered is remembered with the others, as long as there are no more than
/// 500; then the oldest is forgotten.
pub proof fn handled_requests_are_remembered(handled: Seq<u64>, id: u64, other: u64)
    ensures
        app_model::handled_with(handled, id).contains(id),
        app_model::handled_with(handled, id).contains(other) ==> handled.contains(other) || other
            == id,
        handled.len() < 500 && handled.contains(other) ==> app_model::handled_with(
            handled,
            id,
        ).contains(other),
        handled.len() == 500 && handled.contains(other) && other != handled[0]
            ==> app_model::handled_with(handled, id).contains(other),
        handled.len() <= 500 ==> app_model::handled_with(handled, id).len() <= 500,
{
    let after = app_model::handled_with(handled, id);
    lemma_handled_is_remembered(handled, id);
    if after.contains(other) && !handled.contains(id) {
        let k = choose|k: int| 0 <= k < after.len() && after[k] == other;
        if other != id {
            let shift = handled.len() + 1 - after.len();
            assert(handled[k + shift] == other);
        }
    }
    if handled.contains(other) && !handled.contains(id) {
        let k = choose|k: int| 0 <= k < handled.len() && handled[k] == other;
        if handled.len() < 500 {
            assert(after[k] == other);
        } else if handled.len() == 500 && other != handled[0] {
            assert(after[k - 1] == other);
        }
    }
}

/// An alarm that goes off is shown until it is dismissed, with its reminder and its sound, and is
/// taken off the list of those to come; the others stay. The user is made aware of it, and the
/// list is saved.
pub proof fn fired_alarm_is_shown(
    app: AppModel,
    id: AlarmId,
    reminder: Seq<char>,
    delayed_by_game: bool,
    fired_at: LocalDateTime,
    sound: Option<SoundHandle>,
    now: LocalDateTime,
    x: PendingAlarmModel,
)
    ensures
        ({
            let after = app.after_event(
                MonitorEventModel::AlarmFired { id, reminder, delayed_by_game, fired_at, sound },
                now,
            );
            let n = app.actions.len() as int;
            &&& after.alarm_popups == app.alarm_popups.push(
                PopupModel {
                    id: app.next_alarm_popup_id,
                    reminder,
                    fired_at,
                    delayed_by_game,
                    missed: false,
                    sound,
                },
            )
            &&& after.snapshot.alarm.alarms.contains(x) <==> app.snapshot.alarm.alarms.contains(x)
                && x.id != id
            &&& after.snapshot.alarm.fired_at == Some(fired_at)
            &&& after.snapshot.alarm.last_fired_reminder == Some(reminder)
            &&& after.snapshot.game_status == app.snapshot.game_status
            &&& after.next_alarm_id == app.next_alarm_id
            &&& after.test_sound == app.test_sound
            &&& same_settings(after.state, app.state)
            &&& after.state.discord_bridge == app.state.discord_bridge
            &&& same_bridge_work(after, app)
            &&& after.actions == app.actions.push(ActionModel::Save(after.state)).push(
                ActionModel::RequestAttention,
            )
            &&& after.state.alarms == after.snapshot.alarm.alarms
            &&& after.logs[after.logs.len() - 1].level == PersistedLogLevel::Info
            &&& after.logs[after.logs.len() - 1].occurred_at == fired_at
        }),
{
    alarm::list_without_a_number(app.snapshot.alarm.alarms, id, x);
}

/// What the monitor sees is what the app shows. It is saved when the alarms are others than
/// before, and only then.
pub proof fn snapshot_of_the_monitor_is_shown(
    app: AppModel,
    snapshot: MonitorSnapshotModel,
    now: LocalDateTime,
    k: int,
)
    ensures
        ({
            let after = app.after_event(MonitorEventModel::Snapshot(snapshot), now);
            let before = app.snapshot.alarm.alarms;
            let next = snapshot.alarm.alarms;
            &&& after.snapshot == snapshot
            &&& after.logs == app.logs
            &&& same_popups(after, app)
            &&& same_bridge_work(after, app)
            &&& after.next_alarm_id == app.next_alarm_id
            &&& same_settings(after.state, app.state)
            &&& after.state.discord_bridge == app.state.discord_bridge
            &&& before == next ==> after.actions == app.actions
            &&& before.len() != next.len() ==> saves_itself_last(after)
            &&& 0 <= k < before.len() && k < next.len() && (before[k].id != next[k].id
                || before[k].status != next[k].status || before[k].delayed_by_game
                != next[k].delayed_by_game || before[k].alarm.reminder != next[k].alarm.reminder
                || before[k].alarm.delay_for_games != next[k].alarm.delay_for_games
                || before[k].alarm.sound_path != next[k].alarm.sound_path
                || before[k].alarm.scheduled_for.second() != next[k].alarm.scheduled_for.second())
                ==> after.actions == app.actions.push(ActionModel::Save(after.state))
                && after.state.alarms == next
            &&& after.actions == app.actions || after.actions == app.actions.push(
                ActionModel::Save(after.state),
            )
        }),
{
    let before = app.snapshot.alarm.alarms;
    let next = snapshot.alarm.alarms;
    if alarm::all_alike(before, next) && 0 <= k < before.len() {
        assert(alarm::alike(before[k], next[k]));
    }
    if before == next {
        assert forall|i: int| 0 <= i < before.len() implies alarm::alike(
            #[trigger] before[i],
            next[i],
        ) by {}
    }
}

/// What went wrong with a notification or a sound is logged as trouble; no alarm is lost over it.
pub proof fn trouble_of_the_monitor_is_logged(app: AppModel, words: Seq<char>, now: LocalDateTime)
    ensures
        app.after_event(MonitorEventModel::NotificationError(words), now) == app.logging(
            PersistedLogLevel::Error,
            now,
            words,
        ),
        app.after_event(MonitorEventModel::SoundError(words), now) == app.logging(
            PersistedLogLevel::Error,
            now,
            words,
        ),
{
}

/// An alarm that is shown for a test is shown like one that went off, but takes none off the
/// list. A sound that is played for a test replaces the one before, which is stopped.
pub proof fn tests_leave_the_alarms_alone(
    app: AppModel,
    reminder: Seq<char>,
    at: LocalDateTime,
    sound: Option<SoundHandle>,
    now: LocalDateTime,
)
    ensures
        ({
            let shown = app.after_event(
                MonitorEventModel::TestAlarmPopup { reminder, fired_at: at, sound },
                now,
            );
            &&& shown.alarm_popups == app.alarm_popups.push(
                PopupModel {
                    id: app.next_alarm_popup_id,
                    reminder,
                    fired_at: at,
                    delayed_by_game: false,
                    missed: false,
                    sound,
                },
            )
            &&& same_alarms(app, shown)
            &&& shown.actions.contains(ActionModel::RequestAttention)
        }),
        ({
            let played = app.after_event(
                MonitorEventModel::TestSoundStarted { sound, started_at: at },
                now,
            );
            &&& played.test_sound == sound
            &&& same_alarms(app, played)
            &&& played.alarm_popups == app.alarm_popups
            &&& app.test_sound matches Some(earlier) ==> played.actions[app.actions.len() as int]
                == ActionModel::StopSound(earlier)
        }),
        ({
            let stopped = app.test_sound_stopped();
            &&& stopped.test_sound is None
            &&& app.test_sound matches Some(earlier) ==> stopped.actions == app.actions.push(
                ActionModel::StopSound(earlier),
            )
            &&& app.test_sound is None ==> stopped == app
            &&& same_alarms(app, stopped)
            &&& stopped.alarm_popups == app.alarm_popups
            &&& stopped.state == app.state
        }),
{
    let shown = app.after_event(
        MonitorEventModel::TestAlarmPopup { reminder, fired_at: at, sound },
        now,
    );
    assert(shown.actions[shown.actions.len() - 1] == ActionModel::RequestAttention);
}

/// Cancelling an alarm takes it off the list that is shown, and no other, and tells the monitor to
/// forget the same one. Cancelling all leaves none.
pub proof fn cancelled_alarm_is_gone_everywhere(
    app: AppModel,
    id: AlarmId,
    label: Seq<char>,
    now: LocalDateTime,
    x: PendingAlarmModel,
)
    ensures
        ({
            let after = app.after_cancelling(id, label, now);
            &&& after.snapshot.alarm.alarms.contains(x) <==> app.snapshot.alarm.alarms.contains(x)
                && x.id != id
            &&& after.snapshot.alarm.fired_at == app.snapshot.alarm.fired_at
            &&& after.actions.len() == app.actions.len() + 2
            &&& after.actions[app.actions.len() as int] == ActionModel::Send(
                CommandModel::CancelAlarm(id),
            )
            &&& saves_itself_last(after)
            &&& same_settings(after.state, app.state)
            &&& same_popups(after, app)
            &&& same_bridge_work(after, app)
            &&& after.next_alarm_id == app.next_alarm_id
        }),
        ({
            let after = app.after_cancelling_all(now);
            &&& after.snapshot.alarm.alarms.len() == 0
            &&& after.snapshot.alarm.fired_at is None
            &&& after.actions.len() == app.actions.len() + 2
            &&& after.actions[app.actions.len() as int] == ActionModel::Send(CommandModel::Cancel)
            &&& saves_itself_last(after)
            &&& same_settings(after.state, app.state)
            &&& same_popups(after, app)
            &&& same_bridge_work(after, app)
            &&& after.next_alarm_id == app.next_alarm_id
        }),
{
    alarm::list_without_a_number(app.snapshot.alarm.alarms, id, x);
}

/// What the monitor is told, its engine does: an alarm that is cancelled is not in it any more,
/// the others are; one that is scheduled is in it as it was given; other commands leave the
/// alarms alone.
pub proof fn monitor_does_as_it_is_told(
    engine: EngineModel,
    id: AlarmId,
    alarm: AlarmModel,
    command: CommandModel,
    x: PendingAlarmModel,
)
    ensures
        worker::engine_after_command(engine, CommandModel::CancelAlarm(id)).alarms.contains(x)
            <==> engine.alarms.contains(x) && x.id != id,
        worker::engine_after_command(engine, CommandModel::Cancel).alarms.len() == 0,
        worker::engine_after_command(
            engine,
            CommandModel::Schedule { id, alarm },
        ).alarms.to_multiset() == engine.alarms.to_multiset().insert(
            PendingAlarmModel { id, alarm, status: AlarmStatus::Scheduled, delayed_by_game: false },
        ),
        !(command is Schedule) && !(command is CancelAlarm) && !(command is Cancel)
            ==> worker::engine_after_command(engine, command) == engine,
{
    alarm::cancelling_takes_off_one_number(engine, id, x);
    alarm::scheduled_alarm_is_there_as_given(engine, id, alarm);
}

/// Dismissing an alarm that is shown takes it away, and no other, and stops the sound that it
/// plays, and no other. Nothing else changes.
pub proof fn dismissing_stops_its_own_sound(app: AppModel, k: int, x: PopupModel)
    requires
        0 <= k < app.alarm_popups.len(),
        forall|j: int| 0 <= j < k ==> (#[trigger] app.alarm_popups[j]).id != app.alarm_popups[k].id,
    ensures
        ({
            let id = app.alarm_popups[k].id;
            let after = app.after_dismissing(id);
            &&& after.alarm_popups.contains(x) <==> app.alarm_popups.contains(x) && x.id != id
            &&& app.alarm_popups[k].sound matches Some(sound) ==> after.actions == app.actions.push(
                ActionModel::StopSound(sound),
            )
            &&& app.alarm_popups[k].sound is None ==> after.actions == app.actions
            &&& after.state == app.state
            &&& same_alarms(app, after)
            &&& after.logs == app.logs
            &&& after.test_sound == app.test_sound
        }),
{
    let id = app.alarm_popups[k].id;
    let after = app.after_dismissing(id);
    let pred = |p: PopupModel| p.id != id;
    seqs::first_is_found(app.alarm_popups, |p: PopupModel| p.id == id, k);
    if after.alarm_popups.contains(x) {
        let i = choose|i: int| 0 <= i < after.alarm_popups.len() && after.alarm_popups[i] == x;
        let m = seqs::filtered_was_there(app.alarm_popups, pred, i);
        assert(app.alarm_popups[m] == x);
    }
    if app.alarm_popups.contains(x) && x.id != id {
        let m = choose|m: int| 0 <= m < app.alarm_popups.len() && app.alarm_popups[m] == x;
        let i = seqs::passing_is_kept(app.alarm_popups, pred, m);
        assert(after.alarm_popups[i] == x);
    }
    assert(app.actions + Seq::empty() =~= app.actions);
    match app.alarm_popups[k].sound {
        Some(sound) => {
            assert(app.actions + seq![ActionModel::StopSound(sound)] =~= app.actions.push(
                ActionModel::StopSound(sound),
            ));
        },
        None => {},
    }
}

/// Whether two settings of the bridge say the same of the bridge itself, the companion and the
/// pairing.
pub open spec fn same_pairing(a: BridgeSettingsModel, b: BridgeSettingsModel) -> bool {
    &&& a.bridge_url == b.bridge_url
    &&& a.companion_id == b.companion_id
    &&& a.api_token == b.api_token
    &&& a.pairing_code == b.pairing_code
    &&& a.pairing_expires_at == b.pairing_expires_at
    &&& a.paired_discord_user_id == b.paired_discord_user_id
    &&& a.paired_discord_user_label == b.paired_discord_user_label
    &&& a.poll_enabled == b.poll_enabled
}

proof fn lemma_naming_text_is_not_blank(value: Seq<char>)
    requires
        requesters::user_id_of(value) is Some,
    ensures
        !text::is_blank(value),
{
    reveal_strlit("<@");
}

/// After the user allows a Discord user by hand, that user may ask for alarms, and nobody else's
/// right to do so changes. The field is empty again if the user was not on the list before.
/// Neither the alarms nor any other setting changes.
pub proof fn user_allowed_by_hand_may_ask(
    app: AppModel,
    owner: Seq<char>,
    id: Seq<char>,
    other: Seq<char>,
    now: LocalDateTime,
)
    requires
        requesters::user_id_of(app.new_allowed_requester_id) == Some(id),
    ensures
        ({
            let after = app.after_adding_user(now);
            let before_list = app.state.discord_bridge.allowed_requester_ids;
            let after_list = after.state.discord_bridge.allowed_requester_ids;
            let listed = requesters::users_in(before_list).contains(id);
            &&& requesters::is_allowed(owner, after_list, id)
            &&& other != id ==> requesters::is_allowed(owner, after_list, other)
                == requesters::is_allowed(owner, before_list, other)
            &&& other != id ==> requesters::users_in(after_list).contains(other)
                == requesters::users_in(before_list).contains(other)
            &&& requesters::users_in(after_list).contains(id)
            &&& !listed ==> after.new_allowed_requester_id.len() == 0
                && after.logs[after.logs.len() - 1].level == PersistedLogLevel::Info
            &&& listed ==> after.new_allowed_requester_id == app.new_allowed_requester_id
                && after.logs[after.logs.len() - 1].level == PersistedLogLevel::Error
            &&& same_alarms(app, after)
            &&& same_settings(after.state, app.state)
            &&& same_pairing(after.state.discord_bridge, app.state.discord_bridge)
            &&& same_popups(after, app)
            &&& after.handled_bridge_request_ids == app.handled_bridge_request_ids
            &&& after.pending_companion_invites == app.pending_companion_invites
            &&& saves_itself_last(after)
        }),
{
    let before_list = app.state.discord_bridge.allowed_requester_ids;
    lemma_naming_text_is_not_blank(app.new_allowed_requester_id);
    requesters::users_in_list_are_users(before_list);
    requesters::written_list_reads_back(requesters::users_in(before_list).insert(id));
}

/// A requester who was allowed by hand is among those whose names are shown, and no name that is
/// known changes over it.
pub proof fn user_allowed_by_hand_is_shown(
    app: AppModel,
    id: Seq<char>,
    x: RequesterModel,
    now: LocalDateTime,
)
    requires
        requesters::user_id_of(app.new_allowed_requester_id) == Some(id),
        !requesters::users_in(app.state.discord_bridge.allowed_requester_ids).contains(id),
    ensures
        ({
            let known = app.after_adding_user(now).state.discord_bridge.allowed_requesters;
            &&& app.state.discord_bridge.allowed_requesters.contains(x) ==> known.contains(x)
            &&& exists|i: int| 0 <= i < known.len() && (#[trigger] known[i]).discord_user_id == id
        }),
{
    lemma_naming_text_is_not_blank(app.new_allowed_requester_id);
    let known = app.state.discord_bridge.allowed_requesters;
    assert(text::trimmed(Seq::<char>::empty()).len() == 0);
    discord_bridge::remembering_changes_nobody_else(known, id, Seq::empty(), x);
    requesters::user_id_names_itself(id);
    let after = app.after_adding_user(now).state.discord_bridge.allowed_requesters;
    assert(after == discord_bridge::requesters_with(known, id, Seq::empty()));
}

/// What names no Discord user allows nobody: the list stays as it is, and so does what was typed
/// in.
pub proof fn nobody_is_allowed_without_a_number(app: AppModel, now: LocalDateTime)
    requires
        requesters::user_id_of(app.new_allowed_requester_id) is None,
    ensures
        ({
            let after = app.after_adding_user(now);
            &&& after.state.discord_bridge == app.state.discord_bridge
            &&& after.new_allowed_requester_id == app.new_allowed_requester_id
            &&& after.logs[after.logs.len() - 1].level == PersistedLogLevel::Error
            &&& same_alarms(app, after)
            &&& same_settings(after.state, app.state)
            &&& same_popups(after, app)
            &&& same_bridge_work(after, app)
        }),
{
}

/// After the user takes a Discord user off the list, that user may not ask for alarms any more,
/// unless it is the owner, and nobody else's right to do so changes. What names no user takes
/// nobody off.
pub proof fn user_taken_off_may_not_ask(
    app: AppModel,
    user: Seq<char>,
    owner: Seq<char>,
    other: Seq<char>,
    x: RequesterModel,
    now: LocalDateTime,
)
    ensures
        ({
            let after = app.after_removing_user(user, now);
            let before_list = app.state.discord_bridge.allowed_requester_ids;
            let after_list = after.state.discord_bridge.allowed_requester_ids;
            let named = requesters::user_id_of(user);
            &&& named == Some(other) ==> requesters::is_allowed(owner, after_list, other) == (other
                == owner)
            &&& named != Some(other) ==> requesters::is_allowed(owner, after_list, other)
                == requesters::is_allowed(owner, before_list, other)
            &&& after.state.discord_bridge.allowed_requesters.contains(x)
                <==> app.state.discord_bridge.allowed_requesters.contains(x) && named != Some(
                x.discord_user_id,
            )
            &&& same_alarms(app, after)
            &&& same_settings(after.state, app.state)
            &&& same_pairing(after.state.discord_bridge, app.state.discord_bridge)
            &&& same_popups(after, app)
            &&& same_bridge_work(after, app)
            &&& saves_itself_last(after)
            &&& after.logs[after.logs.len() - 1].level == PersistedLogLevel::Info
        }),
{
    let settings = app.state.discord_bridge;
    let before_list = settings.allowed_requester_ids;
    requesters::users_in_list_are_users(before_list);
    match requesters::user_id_of(user) {
        Some(id) => {
            requesters::written_list_reads_back(requesters::users_in(before_list).remove(id));
            discord_bridge::forgetting_keeps_the_others(settings, user, id, x);
        },
        None => {
            requesters::written_list_reads_back(requesters::users_in(before_list));
        },
    }
}

proof fn lemma_other_invites_stay(app: AppModel, invite_id: u64, x: discord_bridge::InviteModel)
    ensures
        app.without_invite(invite_id).pending_companion_invites.contains(x) <==> x.id != invite_id
            && app.pending_companion_invites.contains(x),
{
    let pred = |i: discord_bridge::InviteModel| i.id != invite_id;
    let before = app.pending_companion_invites;
    let after = app.without_invite(invite_id).pending_companion_invites;
    if after.contains(x) {
        let i = choose|i: int| 0 <= i < after.len() && after[i] == x;
        let k = seqs::filtered_was_there(before, pred, i);
        assert(before[k] == x);
    }
    if x.id != invite_id && before.contains(x) {
        let k = choose|k: int| 0 <= k < before.len() && before[k] == x;
        let i = seqs::passing_is_kept(before, pred, k);
        assert(after[i] == x);
    }
}

/// After the user allows an invitation, whom it is for may ask for alarms, and nobody else's
/// right to do so changes. The invitation is not shown any more, the others are, and the bridge
/// is told that this one was allowed.
pub proof fn allowed_invitation_counts_for_its_invitee(
    app: AppModel,
    k: int,
    owner: Seq<char>,
    other: Seq<char>,
    x: discord_bridge::InviteModel,
    now: LocalDateTime,
)
    requires
        0 <= k < app.pending_companion_invites.len(),
        forall|j: int|
            0 <= j < k ==> (#[trigger] app.pending_companion_invites[j]).id
                != app.pending_companion_invites[k].id,
    ensures
        ({
            let invite = app.pending_companion_invites[k];
            let after = app.after_allowing(invite.id, now);
            let before_list = app.state.discord_bridge.allowed_requester_ids;
            let after_list = after.state.discord_bridge.allowed_requester_ids;
            let named = requesters::user_id_of(invite.invitee_id);
            &&& named == Some(other) ==> requesters::is_allowed(owner, after_list, other)
            &&& named != Some(other) ==> requesters::is_allowed(owner, after_list, other)
                == requesters::is_allowed(owner, before_list, other)
            &&& after.pending_companion_invites.contains(x) <==> x.id != invite.id
                && app.pending_companion_invites.contains(x)
            &&& same_alarms(app, after)
            &&& same_settings(after.state, app.state)
            &&& same_pairing(after.state.discord_bridge, app.state.discord_bridge)
            &&& same_popups(after, app)
            &&& after.handled_bridge_request_ids == app.handled_bridge_request_ids
            &&& after.new_allowed_requester_id == app.new_allowed_requester_id
            &&& saves_itself_last(after)
            &&& after.logs[after.logs.len() - 1].level == PersistedLogLevel::Info
            &&& app.state.discord_bridge.client_config() matches Ok(config) ==> {
                let told = after.actions[app.actions.len() as int + 1];
                &&& told is Report
                &&& told->Report_0.url == config.bridge_url + "/bridge/invites/"@ + text::decimal(
                    invite.id as nat,
                ) + "/status"@
                &&& told->Report_0.bearer_token == Some(config.api_token)
                &&& told->Report_0.body is InviteStatus
                &&& told->Report_0.body->InviteStatus_status == "allowed"@
            }
        }),
{
    let invite = app.pending_companion_invites[k];
    let before_list = app.state.discord_bridge.allowed_requester_ids;
    seqs::first_is_found(
        app.pending_companion_invites,
        |i: discord_bridge::InviteModel| i.id == invite.id,
        k,
    );
    lemma_other_invites_stay(app, invite.id, x);
    requesters::users_in_list_are_users(before_list);
    match requesters::user_id_of(invite.invitee_id) {
        Some(id) => {
            requesters::written_list_reads_back(requesters::users_in(before_list).insert(id));
        },
        None => {
            requesters::written_list_reads_back(requesters::users_in(before_list));
        },
    }
}

/// After the user rejects an invitation, nobody's right to ask for alarms changes. The
/// invitation is not shown any more, the others are, and the bridge is told that this one was
/// rejected.
pub proof fn rejected_invitation_allows_nobody(
    app: AppModel,
    k: int,
    x: discord_bridge::InviteModel,
    now: LocalDateTime,
)
    requires
        0 <= k < app.pending_companion_invites.len(),
        forall|j: int|
            0 <= j < k ==> (#[trigger] app.pending_companion_invites[j]).id
                != app.pending_companion_invites[k].id,
    ensures
        ({
            let invite = app.pending_companion_invites[k];
            let after = app.after_rejecting(invite.id, now);
            &&& after.state.discord_bridge == app.state.discord_bridge
            &&& after.pending_companion_invites.contains(x) <==> x.id != invite.id
                && app.pending_companion_invites.contains(x)
            &&& same_alarms(app, after)
            &&& same_settings(after.state, app.state)
            &&& same_popups(after, app)
            &&& after.handled_bridge_request_ids == app.handled_bridge_request_ids
            &&& after.logs[after.logs.len() - 1].level == PersistedLogLevel::Info
            &&& app.state.discord_bridge.client_config() matches Ok(config) ==> {
                let told = after.actions[app.actions.len() as int];
                &&& told is Report
                &&& told->Report_0.url == config.bridge_url + "/bridge/invites/"@ + text::decimal(
                    invite.id as nat,
                ) + "/status"@
                &&& told->Report_0.bearer_token == Some(config.api_token)
                &&& told->Report_0.body is InviteStatus
                &&& told->Report_0.body->InviteStatus_status == "rejected"@
            }
        }),
{
    let invite = app.pending_companion_invites[k];
    seqs::first_is_found(
        app.pending_companion_invites,
        |i: discord_bridge::InviteModel| i.id == invite.id,
        k,
    );
    lemma_other_invites_stay(app, invite.id, x);
}

/// An invitation that is not there is neither allowed nor rejected: nothing happens.
pub proof fn unknown_invitation_changes_nothing(app: AppModel, invite_id: u64, now: LocalDateTime)
    requires
        forall|j: int|
            0 <= j < app.pending_companion_invites.len() ==> (
            #[trigger] app.pending_companion_invites[j]).id != invite_id,
    ensures
        app.after_allowing(invite_id, now) == app,
        app.after_rejecting(invite_id, now) == app,
{
    seqs::first_is_found(
        app.pending_companion_invites,
        |i: discord_bridge::InviteModel| i.id == invite_id,
        app.pending_companion_invites.len() as int,
    );
}

/// After the pairing was given up nobody can set an alarm, whatever they ask for.
pub proof fn cleared_pairing_refuses_everyone(
    app: AppModel,
    request: RemoteRequestModel,
    found: Result<LocalDateTime, AlarmTimeError>,
    now: LocalDateTime,
)
    ensures
        same_alarms(
            app.after_pairing_cleared(),
            app.after_pairing_cleared().after_request(request, found, now),
        ),
{
}

/// The app remembers no more requests than it is meant to.
pub proof fn handled_requests_are_bounded(handled: Seq<u64>, id: u64)
    requires
        handled.len() <= MAX_HANDLED_REQUESTS,
    ensures
        app_model::handled_with(handled, id).len() <= MAX_HANDLED_REQUESTS,
{
}

/// The log never grows beyond its limit, and the newest entry is always there.
pub proof fn log_is_bounded(
    app: AppModel,
    level: PersistedLogLevel,
    at: LocalDateTime,
    message: Seq<char>,
)
    ensures
        app.logging(level, at, message).logs.len() <= MAX_LOG_ENTRIES,
        app.logging(level, at, message).logs.last().message == message,
        app.logging(level, at, message).state.logs == app.logging(level, at, message).logs,
{
}

/// Where the monitor has the alarms that the app shows, it has them too after it was told of an
/// alarm that the app set.
pub proof fn monitor_follows_new_alarm(
    app: AppModel,
    engine: EngineModel,
    label: Seq<char>,
    t: LocalDateTime,
)
    requires
        engine.alarms == app.snapshot.alarm.alarms,
    ensures
        ({
            let after = app.with_alarm_at(label, t);
            let command = CommandModel::Schedule {
                id: app.next_alarm_id,
                alarm: app.alarm_for(label, t),
            };
            &&& after.actions == app.actions.push(ActionModel::Send(command))
            &&& worker::engine_after_command(engine, command).alarms
                == after.snapshot.alarm.alarms
            &&& worker::engine_after_command(engine, command).snapshot()
                == after.snapshot.alarm
        }),
{
}

/// Where the monitor has the alarms that the app shows, it has them too after it was told of an
/// alarm that the app cancelled.
pub proof fn monitor_follows_cancelled_alarm(
    app: AppModel,
    engine: EngineModel,
    id: AlarmId,
    label: Seq<char>,
    now: LocalDateTime,
)
    requires
        engine.alarms == app.snapshot.alarm.alarms,
    ensures
        ({
            let after = app.after_cancelling(id, label, now);
            let command = CommandModel::CancelAlarm(id);
            &&& after.actions[app.actions.len() as int] == ActionModel::Send(command)
            &&& worker::engine_after_command(engine, command).alarms
                == after.snapshot.alarm.alarms
        }),
{
}

/// After all alarms were cancelled, neither the app nor the monitor has any.
pub proof fn monitor_follows_cancelling_all(
    app: AppModel,
    engine: EngineModel,
    now: LocalDateTime,
)
    ensures
        ({
            let after = app.after_cancelling_all(now);
            let command = CommandModel::Cancel;
            &&& after.actions[app.actions.len() as int] == ActionModel::Send(command)
            &&& worker::engine_after_command(engine, command).alarms
                == after.snapshot.alarm.alarms
            &&& after.snapshot.alarm.alarms.len() == 0
        }),
{
}

/// The alarms that the app shows stay in order when one is set or cancelled.
pub proof fn alarms_stay_in_order(
    app: AppModel,
    label: Seq<char>,
    t: LocalDateTime,
    id: AlarmId,
    now: LocalDateTime,
)
    requires
        order::in_order(app.snapshot.alarm.alarms),
    ensures
        order::in_order(app.with_alarm_at(label, t).snapshot.alarm.alarms),
        order::in_order(app.after_cancelling(id, label, now).snapshot.alarm.alarms),
{
    let added = alarm::newly_scheduled(app.next_alarm_id, app.alarm_for(label, t));
    order::ordered_is_stable_order(app.snapshot.alarm.alarms.push(added));
    order::filter_keeps_order(app.snapshot.alarm.alarms, |p: PendingAlarmModel| p.id != id);
}

/// What the user has set, without the log, the alarms and what is known of crashes.
pub open spec fn settings_of(state: StateModel) -> StateModel {
    StateModel {
        logs: Seq::empty(),
        alarms: Seq::empty(),
        last_reported_crash_fingerprint: None,
        ..state
    }
}

/// The app that starts with what another one saved.
pub open spec fn restarted(
    app: AppModel,
    notice: Option<CrashNoticeModel>,
    load_error: Option<Seq<char>>,
    now: LocalDateTime,
) -> AppModel {
    app_model::started_app(app.saving().state, notice, load_error, now)
}

/// Whether the app has the same alarms and settings as before, and logged some entries.
spec fn only_says(before: AppModel, after: AppModel, said: Seq<LogEntryModel>) -> bool {
    &&& same_alarms(before, after)
    &&& settings_of(before.state) == settings_of(after.state)
    &&& after.logs == pages::last_entries(before.logs + said)
    &&& after.logs.len() <= MAX_LOG_ENTRIES
}

proof fn lemma_says_both(
    a: AppModel,
    b: AppModel,
    c: AppModel,
    first: Seq<LogEntryModel>,
    then: Seq<LogEntryModel>,
)
    requires
        only_says(a, b, first),
        only_says(b, c, then),
    ensures
        only_says(a, c, first + then),
{
    assert(c.logs =~= pages::last_entries(a.logs + (first + then)));
}

proof fn lemma_logging_says(
    app: AppModel,
    level: PersistedLogLevel,
    at: LocalDateTime,
    message: Seq<char>,
)
    ensures
        only_says(
            app,
            app.logging(level, at, message),
            seq![LogEntryModel { occurred_at: at, level, message }],
        ),
        app.logging(level, at, message).alarm_popups == app.alarm_popups,
{
    let entry = LogEntryModel { occurred_at: at, level, message };
    assert(app.logs.push(entry) =~= app.logs + seq![entry]);
}

/// The alarm that is shown for one that was missed.
spec fn shows_missed(popup: app_model::PopupModel, alarm: PendingAlarmModel) -> bool {
    &&& popup.missed
    &&& popup.reminder == alarm.alarm.reminder
    &&& popup.fired_at == alarm.alarm.scheduled_for
    &&& popup.delayed_by_game == alarm.delayed_by_game
    &&& popup.sound is None
}

proof fn lemma_missed_says(app: AppModel, alarms: Seq<PendingAlarmModel>, now: LocalDateTime) -> (
    said: Seq<LogEntryModel>)
    requires
        app.logs.len() <= MAX_LOG_ENTRIES,
    ensures
        only_says(app, app.showing_all_missed(alarms, now), said),
        said.len() == alarms.len(),
        ({
            let popups = app.showing_all_missed(alarms, now).alarm_popups;
            &&& popups.len() == app.alarm_popups.len() + alarms.len()
            &&& forall|k: int|
                0 <= k < alarms.len() ==> shows_missed(
                    #[trigger] popups[app.alarm_popups.len() + k],
                    alarms[k],
                )
        }),
    decreases alarms.len(),
{
    if alarms.len() == 0 {
        let said = Seq::<LogEntryModel>::empty();
        assert(app.logs + said =~= app.logs);
        said
    } else {
        let alarm = alarms.last();
        let before = app.showing_all_missed(alarms.drop_last(), now);
        let message = "Missed alarm from "@ + app_model::shown(alarm.alarm.scheduled_for)
            + " while the app was not running: "@ + alarm.alarm.reminder;
        let entry = LogEntryModel {
            occurred_at: now,
            level: PersistedLogLevel::Error,
            message,
        };
        let said = lemma_missed_says(app, alarms.drop_last(), now);
        lemma_logging_says(before, PersistedLogLevel::Error, now, message);
        let after = app.showing_all_missed(alarms, now);
        assert(after == before.showing_missed(alarm, now));
        assert(only_says(before, after, seq![entry]));
        lemma_says_both(app, before, after, said, seq![entry]);
        let popups = after.alarm_popups;
        let n = app.alarm_popups.len() as int;
        assert forall|k: int| 0 <= k < alarms.len() implies shows_missed(
            #[trigger] popups[n + k],
            alarms[k],
        ) by {
            if k < alarms.len() - 1 {
                assert(popups[n + k] == before.alarm_popups[n + k]);
                assert(alarms[k] == alarms.drop_last()[k]);
            }
        }
        said + seq![entry]
    }
}

/// What the app says at the start, and which missed alarms it shows.
proof fn lemma_start_says(
    state: StateModel,
    notice: Option<CrashNoticeModel>,
    load_error: Option<Seq<char>>,
    now: LocalDateTime,
) -> (said: Seq<LogEntryModel>)
    ensures
        only_says(
            app_model::starting_app(state, now),
            app_model::started_app(state, notice, load_error, now),
            said,
        ),
        said.len() <= 5 + pages::missed_alarms(state.alarms, now).len(),
        ({
            let missed = pages::missed_alarms(state.alarms, now);
            let popups = app_model::started_app(state, notice, load_error, now).alarm_popups;
            &&& popups.len() == missed.len()
            &&& forall|k: int|
                0 <= k < missed.len() ==> shows_missed(#[trigger] popups[k], missed[k])
        }),
{
    let missed = pages::missed_alarms(state.alarms, now);
    let count = pages::restored_alarms(state.alarms, now).len();
    let start = app_model::starting_app(state, now);
    pages::kept_entries_stay(state.logs);
    let ready = start.informing(now, "Ready"@);
    lemma_logging_says(start, PersistedLogLevel::Info, now, "Ready"@);
    let words = "Graphics backend setting: "@ + state.graphics_backend_preference.word();
    let graphics = ready.informing(now, words);
    let one = seq![
        LogEntryModel { occurred_at: now, level: PersistedLogLevel::Info, message: "Ready"@ },
    ];
    let two = lemma_maybe_says(
        start,
        ready,
        one,
        graphics,
        true,
        PersistedLogLevel::Info,
        now,
        words,
    );
    let told = graphics.telling_restored(count, now);
    let three = lemma_maybe_says(
        start,
        graphics,
        two,
        told,
        count != 0,
        PersistedLogLevel::Info,
        now,
        "Restored "@ + text::decimal(count) + " pending alarm(s)"@,
    );
    let shown = told.showing_all_missed(missed, now);
    let more = lemma_missed_says(told, missed, now);
    lemma_says_both(start, told, shown, three, more);
    let four = three + more;
    assert forall|k: int| 0 <= k < missed.len() implies shows_missed(
        #[trigger] shown.alarm_popups[k],
        missed[k],
    ) by {
        assert(shows_missed(shown.alarm_popups[told.alarm_popups.len() + k], missed[k]));
    }
    let warned = if app_model::is_news(state, notice) {
        shown.telling_crash(notice->0, now)
    } else {
        shown
    };
    let five = if app_model::is_news(state, notice) {
        let known = AppModel {
            state: StateModel {
                last_reported_crash_fingerprint: Some(notice->0.fingerprint),
                ..shown.state
            },
            ..shown
        };
        let message = "Previous crash recorded: "@ + notice->0.summary + ". Crash log: "@
            + notice->0.path;
        lemma_logging_says(known, PersistedLogLevel::Error, now, message);
        let entry = LogEntryModel {
            occurred_at: now,
            level: PersistedLogLevel::Error,
            message,
        };
        assert(only_says(shown, warned, seq![entry]));
        lemma_says_both(start, shown, warned, four, seq![entry]);
        four + seq![entry]
    } else {
        four
    };
    let after = app_model::started_app(state, notice, load_error, now);
    assert(after.alarm_popups == shown.alarm_popups);
    match load_error {
        Some(reason) => {
            let message = "Could not load saved state: "@ + reason;
            lemma_logging_says(warned, PersistedLogLevel::Error, now, message);
            let entry = LogEntryModel {
                occurred_at: now,
                level: PersistedLogLevel::Error,
                message,
            };
            lemma_says_both(start, warned, after, five, seq![entry]);
            five + seq![entry]
        },
        None => five,
    }
}

proof fn lemma_maybe_says(
    start: AppModel,
    before: AppModel,
    said: Seq<LogEntryModel>,
    after: AppModel,
    says: bool,
    level: PersistedLogLevel,
    at: LocalDateTime,
    message: Seq<char>,
) -> (all: Seq<LogEntryModel>)
    requires
        only_says(start, before, said),
        after == if says {
            before.logging(level, at, message)
        } else {
            before
        },
    ensures
        only_says(start, after, all),
        all.len() <= said.len() + 1,
        after.alarm_popups == before.alarm_popups,
{
    if says {
        let entry = LogEntryModel { occurred_at: at, level, message };
        lemma_logging_says(before, level, at, message);
        lemma_says_both(start, before, after, said, seq![entry]);
        said + seq![entry]
    } else {
        said
    }
}

/// The alarms that the app shows are in order from the start.
pub proof fn alarms_start_in_order(
    state: StateModel,
    notice: Option<CrashNoticeModel>,
    load_error: Option<Seq<char>>,
    now: LocalDateTime,
)
    ensures
        order::in_order(
            app_model::started_app(state, notice, load_error, now).snapshot.alarm.alarms,
        ),
{
    let restored = pages::restored_alarms(state.alarms, now);
    order::ordered_is_stable_order(restored.filter(|p: PendingAlarmModel| !(p.status is Fired)));
    let said = lemma_start_says(state, notice, load_error, now);
}

/// The alarms that the app saves and that are still to come, it has again after a restart, in
/// order, whatever else is known then.
pub proof fn saved_alarms_survive_a_restart(
    app: AppModel,
    notice: Option<CrashNoticeModel>,
    load_error: Option<Seq<char>>,
    now: LocalDateTime,
)
    requires
        order::in_order(app.snapshot.alarm.alarms),
        forall|i: int|
            0 <= i < app.snapshot.alarm.alarms.len() ==> {
                &&& !((#[trigger] app.snapshot.alarm.alarms[i]).status is Fired)
                &&& now.is_before(app.snapshot.alarm.alarms[i].alarm.scheduled_for)
            },
    ensures
        restarted(app, notice, load_error, now).snapshot.alarm.alarms
            == app.snapshot.alarm.alarms,
        restarted(app, notice, load_error, now).alarm_popups.len() == 0,
{
    let alarms = app.snapshot.alarm.alarms;
    let to_come = |p: PendingAlarmModel|
        now.is_before(p.alarm.scheduled_for) && !(p.status is Fired);
    let passed = |p: PendingAlarmModel| !now.is_before(p.alarm.scheduled_for);
    let alive = |p: PendingAlarmModel| !(p.status is Fired);
    seqs::filter_of_passing(alarms, to_come);
    seqs::filter_of_failing(alarms, passed);
    order::order_of_ordered(alarms);
    order::order_keeps_members(alarms.filter(passed));
    seqs::filter_of_passing(alarms, alive);
    let said = lemma_start_says(app.saving().state, notice, load_error, now);
}

/// An alarm that the app saved and whose time has passed is shown after a restart, as missed.
pub proof fn missed_alarm_is_shown_after_a_restart(
    app: AppModel,
    notice: Option<CrashNoticeModel>,
    load_error: Option<Seq<char>>,
    now: LocalDateTime,
    k: int,
) -> (i: int)
    requires
        0 <= k < app.snapshot.alarm.alarms.len(),
        !now.is_before(app.snapshot.alarm.alarms[k].alarm.scheduled_for),
    ensures
        0 <= i < restarted(app, notice, load_error, now).alarm_popups.len(),
        ({
            let popup = restarted(app, notice, load_error, now).alarm_popups[i];
            let alarm = app.snapshot.alarm.alarms[k].alarm;
            &&& popup.missed
            &&& popup.reminder == alarm.reminder
            &&& popup.fired_at == alarm.scheduled_for
            &&& popup.delayed_by_game == app.snapshot.alarm.alarms[k].delayed_by_game
            &&& popup.sound is None
        }),
{
    let alarms = app.snapshot.alarm.alarms;
    let passed = |p: PendingAlarmModel| !now.is_before(p.alarm.scheduled_for);
    let missed = pages::missed_alarms(alarms, now);
    let m = seqs::passing_is_kept(alarms, passed, k);
    order::order_keeps_members(alarms.filter(passed));
    assert(alarms.filter(passed).contains(alarms[k]));
    assert(missed.contains(alarms[k]));
    let i = choose|i: int| 0 <= i < missed.len() && missed[i] == alarms[k];
    let said = lemma_start_says(app.saving().state, notice, load_error, now);
    assert(shows_missed(restarted(app, notice, load_error, now).alarm_popups[i], missed[i]));
    i
}

/// What the user has set, the app has again after a restart.
pub proof fn settings_survive_a_restart(
    app: AppModel,
    notice: Option<CrashNoticeModel>,
    load_error: Option<Seq<char>>,
    now: LocalDateTime,
)
    ensures
        settings_of(restarted(app, notice, load_error, now).state) == settings_of(app.state),
{
    let said = lemma_start_says(app.saving().state, notice, load_error, now);
}

/// The log goes on after a restart: behind what was there stand a few new entries, at most one
/// for each missed alarm and five more, and the last entries of both are kept.
pub proof fn log_survives_a_restart(
    app: AppModel,
    notice: Option<CrashNoticeModel>,
    load_error: Option<Seq<char>>,
    now: LocalDateTime,
) -> (said: Seq<LogEntryModel>)
    ensures
        said.len() <= 5 + pages::missed_alarms(app.snapshot.alarm.alarms, now).len(),
        restarted(app, notice, load_error, now).logs == pages::last_entries(app.logs + said),
{
    let said = lemma_start_says(app.saving().state, notice, load_error, now);
    pages::kept_entries_stay(app.logs);
    assert(pages::last_entries(pages::last_entries(app.logs) + said) =~= pages::last_entries(
        app.logs + said,
    ));
    said
}

/// An alarm that the app sets after a restart has a number that none of the saved alarms has,
/// unless numbers have run out.
pub proof fn numbers_are_fresh_after_a_restart(
    app: AppModel,
    notice: Option<CrashNoticeModel>,
    load_error: Option<Seq<char>>,
    now: LocalDateTime,
    k: int,
)
    requires
        0 <= k < app.snapshot.alarm.alarms.len(),
    ensures
        ({
            let next = restarted(app, notice, load_error, now).next_alarm_id;
            app.snapshot.alarm.alarms[k].id < next || next == u64::MAX
        }),
{
    alarm::next_id_is_fresh(app.snapshot.alarm.alarms, k);
    let said = lemma_start_says(app.saving().state, notice, load_error, now);
}

/// A crash is reported once: after a restart that told of it, the next one does not count it as
/// news.
pub proof fn crash_is_reported_once(
    app: AppModel,
    notice: CrashNoticeModel,
    load_error: Option<Seq<char>>,
    now: LocalDateTime,
)
    requires
        app_model::is_news(app.saving().state, Some(notice)),
    ensures
        !app_model::is_news(
            restarted(app, Some(notice), load_error, now).saving().state,
            Some(notice),
        ),
{
}

/// After a pairing code was registered the app asks for requests at once, by itself.
pub proof fn polling_starts_after_registration(
    app: AppModel,
    code: Seq<char>,
    expires_at: Option<LocalDateTime>,
    now: LocalDateTime,
    clock: u64,
    later: u64,
)
    requires
        app.bridge().can_poll(),
        app.bridge().client_config() is Ok,
        !app.polling,
        clock <= later,
    ensures
        ({
            let registered = app.after_registration(code, expires_at, now, clock);
            let next = registered.after_poll_check(later);
            &&& next.polling
            &&& next.actions == registered.actions.push(
                ActionModel::Poll(
                    discord_bridge::poll_message(app.bridge().client_config()->Ok_0),
                ),
            )
        }),
{
}

/// A pairing code is not shown once the companion is paired or the code has expired, and what is
/// not shown is dropped.
pub proof fn inactive_code_is_hidden_and_dropped(app: AppModel, now: LocalDateTime)
    requires
        pages::is_paired(app.bridge()) || (app.bridge().pairing_expires_at matches Some(t)
            && !now.is_before(t)),
    ensures
        pages::visible_code(app.bridge(), now) is None,
        !app.registering ==> app.without_inactive_code(now).bridge().pairing_expires_at is None,
        !app.registering ==> pages::visible_code(
            app.without_inactive_code(now).bridge(),
            now,
        ) is None,
{
}

/// An invitation that was not there before brings the user to the page for Discord.
pub proof fn new_invite_is_surfaced(
    app: AppModel,
    invites: Seq<discord_bridge::InviteModel>,
    now: LocalDateTime,
    k: int,
)
    requires
        0 <= k < invites.len(),
        !pages::is_known_invite(app.pending_companion_invites, invites[k].id),
    ensures
        app.with_invites(invites, now).current_page is Discord,
        app.with_invites(invites, now).actions.contains(ActionModel::RequestAttention),
        app.with_invites(invites, now).pending_companion_invites == invites,
{
    let is_new = |i: discord_bridge::InviteModel|
        !pages::is_known_invite(app.pending_companion_invites, i.id);
    let i = seqs::passing_is_kept(invites, is_new, k);
    assert(pages::new_invite_words(app.pending_companion_invites, invites).len() > 0);
    let after = app.with_invites(invites, now);
    assert(after.actions[app.actions.len() as int] == ActionModel::RequestAttention);
}

/// An alarm that was dismissed is not shown any more.
pub proof fn dismissed_alarm_is_gone(app: AppModel, id: u64, k: int)
    requires
        0 <= k < app.after_dismissing(id).alarm_popups.len(),
    ensures
        app.after_dismissing(id).alarm_popups[k].id != id,
{
    let m = seqs::filtered_was_there(
        app.alarm_popups,
        |p: app_model::PopupModel| p.id != id,
        k,
    );
}

/// When all shown alarms are dismissed, every sound that they play is stopped.
pub proof fn dismissing_all_silences_all(app: AppModel, k: int)
    requires
        0 <= k < app.alarm_popups.len(),
        app.alarm_popups[k].sound is Some,
    ensures
        app.after_dismissing_all().actions.contains(
            ActionModel::StopSound(app.alarm_popups[k].sound->0),
        ),
        app.after_dismissing_all().alarm_popups.len() == 0,
{
    let stops = app_model::stops_of(app.alarm_popups);
    let stop = ActionModel::StopSound(app.alarm_popups[k].sound->0);
    lemma_stop_is_among(app.alarm_popups, k);
    let i = choose|i: int| 0 <= i < stops.len() && stops[i] == stop;
    assert((app.actions + stops)[app.actions.len() + i] == stop);
}

proof fn lemma_stop_is_among(popups: Seq<app_model::PopupModel>, k: int)
    requires
        0 <= k < popups.len(),
        popups[k].sound is Some,
    ensures
        app_model::stops_of(popups).contains(ActionModel::StopSound(popups[k].sound->0)),
    decreases popups.len(),
{
    let front = app_model::stops_of(popups.drop_last());
    let back = app_model::stop_of(popups.last());
    let stop = ActionModel::StopSound(popups[k].sound->0);
    if k < popups.len() - 1 {
        lemma_stop_is_among(popups.drop_last(), k);
        assert(front.contains(stop));
        let i = choose|i: int| 0 <= i < front.len() && front[i] == stop;
        assert((front + back)[i] == stop);
    } else {
        assert(back[0] == stop);
        assert((front + back)[front.len() as int] == stop);
    }
}

/// What the monitor reports is dealt with in the order in which it was reported.
pub proof fn events_are_dealt_with_in_turn(
    app: AppModel,
    events: Seq<MonitorEventModel>,
    event: MonitorEventModel,
    now: LocalDateTime,
)
    ensures
        app.after_events(Seq::empty(), now) == app,
        app.after_events(events.push(event), now) == app.after_events(events, now).after_event(
            event,
            now,
        ),
{
    assert(events.push(event).drop_last() =~= events);
}

/// Every alarm that is shown has a number of its own: the next one is always another one, and as
/// long as numbers last they grow.
pub proof fn shown_alarms_are_numbered(
    app: AppModel,
    reminder: Seq<char>,
    at: LocalDateTime,
    delayed_by_game: bool,
    missed: bool,
    sound: Option<SoundHandle>,
    k: int,
)
    requires
        forall|j: int|
            0 <= j < app.alarm_popups.len() ==> (#[trigger] app.alarm_popups[j]).id
                < app.next_alarm_popup_id,
        app.next_alarm_popup_id < u64::MAX,
    ensures
        ({
            let after = app.showing(reminder, at, delayed_by_game, missed, sound);
            &&& after.alarm_popups.len() == app.alarm_popups.len() + 1
            &&& 0 <= k < after.alarm_popups.len() ==> after.alarm_popups[k].id
                < after.next_alarm_popup_id
            &&& 0 <= k < app.alarm_popups.len() ==> after.alarm_popups[k] == app.alarm_popups[k]
                && after.alarm_popups[k].id != after.alarm_popups[app.alarm_popups.len() as int].id
            &&& after.alarm_popups[app.alarm_popups.len() as int].reminder == reminder
            &&& after.alarm_popups[app.alarm_popups.len() as int].fired_at == at
            &&& after.alarm_popups[app.alarm_popups.len() as int].sound == sound
        }),
{
}

/// That the state could not be saved is logged as trouble, and not saved in turn. Nothing else
/// changes.
pub proof fn failed_save_is_only_logged(app: AppModel, reason: Seq<char>, now: LocalDateTime)
    ensures
        ({
            let after = app.save_failed(now, reason);
            &&& after.actions == app.actions
            &&& after.state == app.state
            &&& same_alarms(app, after)
            &&& same_popups(after, app)
            &&& same_bridge_work(after, app)
            &&& after.logs[after.logs.len() - 1].level == PersistedLogLevel::Error
            &&& after.logs[after.logs.len() - 1].occurred_at == now
            &&& app.logs.len() < 500 ==> after.logs.len() == app.logs.len() + 1
                && after.logs.drop_last() == app.logs
        }),
{
    if app.logs.len() < 500 {
        assert(app.save_failed(now, reason).logs.drop_last() =~= app.logs);
    }
}

/// When the settings are saved, the monitor is told of the port and of the path of the lockfile
/// as they were typed in, without white space around it; where none was typed in, it is told so.
pub proof fn saved_settings_reach_the_monitor(app: AppModel)
    ensures
        ({
            let after = app.saving_settings();
            let told = after.actions[app.actions.len() as int];
            let path = text::trimmed(app.state.lockfile_path);
            &&& after.actions.len() == app.actions.len() + 2
            &&& told is Send
            &&& told->Send_0 is SetGameDetectionConfig
            &&& told->Send_0->SetGameDetectionConfig_0.counter_strike_2_gsi_port
                == app.state.counter_strike_2_gsi_port
            &&& path.len() == 0
                ==> told->Send_0->SetGameDetectionConfig_0.league_lockfile_override is None
            &&& path.len() > 0
                ==> told->Send_0->SetGameDetectionConfig_0.league_lockfile_override == Some(path)
            &&& saves_itself_last(after)
            &&& same_settings(after.state, app.state)
            &&& after.state.discord_bridge == app.state.discord_bridge
            &&& same_alarms(app, after)
            &&& same_popups(after, app)
            &&& same_bridge_work(after, app)
            &&& after.logs == app.logs
        }),
{
}

/// A test of the sound stops the test before, and then has the monitor do what is asked for. No
/// alarm and no setting changes.
pub proof fn test_is_handed_to_the_monitor(
    app: AppModel,
    message: Seq<char>,
    command: CommandModel,
    now: LocalDateTime,
)
    ensures
        ({
            let after = app.testing(now, message, command);
            &&& after.actions[after.actions.len() - 1] == ActionModel::Send(command)
            &&& after.test_sound is None
            &&& app.test_sound matches Some(sound) ==> after.actions[app.actions.len() as int]
                == ActionModel::StopSound(sound)
            &&& same_alarms(app, after)
            &&& after.alarm_popups == app.alarm_popups
            &&& same_settings(after.state, app.state)
            &&& after.state.discord_bridge == app.state.discord_bridge
            &&& same_bridge_work(after, app)
        }),
{
}

/// Once the configuration of the game was written, the settings are handed to the monitor; where
/// it could not be written, that is logged as trouble and the monitor is told nothing.
pub proof fn installed_config_reaches_the_monitor(
    app: AppModel,
    path: Seq<char>,
    now: LocalDateTime,
)
    ensures
        ({
            let after = app.after_gsi_install(path, true, now);
            &&& after.actions[app.actions.len() as int]
                == app.saving_settings().actions[app.actions.len() as int]
            &&& after.logs[after.logs.len() - 1].level == PersistedLogLevel::Info
            &&& same_alarms(app, after)
            &&& same_settings(after.state, app.state)
            &&& after.state.discord_bridge == app.state.discord_bridge
        }),
        ({
            let after = app.after_gsi_install(path, false, now);
            &&& after.actions == app.actions.push(ActionModel::Save(after.state))
            &&& after.logs[after.logs.len() - 1].level == PersistedLogLevel::Error
            &&& same_alarms(app, after)
            &&& same_settings(after.state, app.state)
            &&& after.state.discord_bridge == app.state.discord_bridge
        }),
{
}

/// Whether two settings of the bridge name the same users who may ask.
pub open spec fn same_requesters(a: BridgeSettingsModel, b: BridgeSettingsModel) -> bool {
    a.allowed_requester_ids == b.allowed_requester_ids && a.allowed_requesters
        == b.allowed_requesters
}

/// A companion that is neither paired nor about to be registers the code that was made up, as
/// itself, at the address that was typed in. Credentials that it had are kept. Nobody's right to
/// ask for alarms changes, and no alarm does.
pub proof fn pairing_registers_the_code(
    app: AppModel,
    new_id: Seq<char>,
    new_token: Seq<char>,
    code: Seq<char>,
    now: LocalDateTime,
)
    requires
        !app.registering,
        app.state.discord_bridge.paired_discord_user_id matches Some(id) ==> text::trimmed(
            id,
        ).len() == 0,
        text::trimmed(app.state.discord_bridge.bridge_url).len() > 0,
    ensures
        ({
            let before = app.state.discord_bridge;
            let after = app.after_pairing_started(new_id, new_token, code, now);
            let settings = after.state.discord_bridge;
            &&& settings.pairing_code == code
            &&& settings.pairing_expires_at is None
            &&& settings.poll_enabled
            &&& settings.bridge_url == before.bridge_url
            &&& settings.companion_id == if text::trimmed(before.companion_id).len() == 0 {
                new_id
            } else {
                before.companion_id
            }
            &&& settings.api_token == if text::trimmed(before.api_token).len() == 0 {
                new_token
            } else {
                before.api_token
            }
            &&& settings.paired_discord_user_id == before.paired_discord_user_id
            &&& settings.paired_discord_user_label == before.paired_discord_user_label
            &&& same_requesters(settings, before)
            &&& same_alarms(app, after)
            &&& same_settings(after.state, app.state)
            &&& same_popups(after, app)
            &&& after.handled_bridge_request_ids == app.handled_bridge_request_ids
            &&& settings.client_config() matches Ok(config) ==> {
                let told = after.actions[after.actions.len() - 1];
                &&& after.registering
                &&& told is Register
                &&& told->Register_0.url == config.bridge_url + "/bridge/pairings"@
                &&& told->Register_0.body == (BridgeBodyModel::Registration {
                    companion_id: config.companion_id,
                    api_token: config.api_token,
                    pairing_code: code,
                })
                &&& after.actions[after.actions.len() - 2] == ActionModel::Save(after.state)
            }
            &&& settings.client_config() is Err ==> !after.registering
                && after.logs[after.logs.len() - 1].level == PersistedLogLevel::Error
        }),
{
}

/// A pairing is not begun while another one is, nor by a companion that is paired, nor without an
/// address of the bridge: then the settings stay as they are and nothing is sent.
pub proof fn pairing_is_not_begun_out_of_turn(
    app: AppModel,
    new_id: Seq<char>,
    new_token: Seq<char>,
    code: Seq<char>,
    now: LocalDateTime,
    i: int,
)
    requires
        app.registering || text::trimmed(app.state.discord_bridge.bridge_url).len() == 0 || (
        app.state.discord_bridge.paired_discord_user_id matches Some(id) && text::trimmed(id).len()
            > 0),
    ensures
        ({
            let after = app.after_pairing_started(new_id, new_token, code, now);
            &&& after.state.discord_bridge == app.state.discord_bridge
            &&& after.registering == app.registering
            &&& app.actions.len() <= i < after.actions.len() ==> after.actions[i] is Save
            &&& same_alarms(app, after)
            &&& same_settings(after.state, app.state)
        }),
{
}

/// After the pairing was given up, the companion has no credentials, no code, no paired user and
/// nobody who may ask; requests and invitations of before are forgotten. The address of the
/// bridge, the other settings and the alarms stay.
pub proof fn clearing_forgets_the_pairing(app: AppModel)
    ensures
        ({
            let after = app.after_pairing_cleared();
            let settings = after.state.discord_bridge;
            &&& settings.bridge_url == app.state.discord_bridge.bridge_url
            &&& settings.companion_id.len() == 0
            &&& settings.api_token.len() == 0
            &&& settings.pairing_code.len() == 0
            &&& settings.pairing_expires_at is None
            &&& settings.paired_discord_user_id is None
            &&& settings.paired_discord_user_label is None
            &&& settings.allowed_requester_ids.len() == 0
            &&& settings.allowed_requesters.len() == 0
            &&& !settings.poll_enabled
            &&& after.handled_bridge_request_ids.len() == 0
            &&& after.pending_companion_invites.len() == 0
            &&& same_alarms(app, after)
            &&& same_settings(after.state, app.state)
            &&& same_popups(after, app)
            &&& after.actions == app.actions.push(ActionModel::Save(after.state))
            &&& after.logs == app.logs
        }),
{
}

/// The code that the bridge registered is the one that is shown from then on, until the time that
/// the bridge gave. A code that it did not register is dropped. Either way another pairing can be
/// begun, and all else stays.
pub proof fn registration_settles_the_code(
    app: AppModel,
    code: Seq<char>,
    expires_at: LocalDateTime,
    reason: Seq<char>,
    now: LocalDateTime,
    clock: u64,
)
    ensures
        ({
            let after = app.after_registration(code, Some(expires_at), now, clock);
            let settings = after.state.discord_bridge;
            let unpaired = !(app.state.discord_bridge.paired_discord_user_id matches Some(id)
                && text::trimmed(id).len() > 0);
            &&& settings.pairing_code == code
            &&& settings.pairing_expires_at == Some(expires_at)
            &&& unpaired && now.is_before(expires_at) && text::trimmed(code).len() > 0
                ==> pages::visible_code(settings, now) == Some(text::trimmed(code))
            &&& !after.registering
            &&& after.next_bridge_poll_at == clock
            &&& settings.bridge_url == app.state.discord_bridge.bridge_url
            &&& settings.companion_id == app.state.discord_bridge.companion_id
            &&& settings.api_token == app.state.discord_bridge.api_token
            &&& settings.paired_discord_user_id
                == app.state.discord_bridge.paired_discord_user_id
            &&& settings.poll_enabled == app.state.discord_bridge.poll_enabled
            &&& same_requesters(settings, app.state.discord_bridge)
            &&& same_alarms(app, after)
            &&& same_settings(after.state, app.state)
            &&& saves_itself_last(after)
            &&& after.logs[after.logs.len() - 1].level == PersistedLogLevel::Info
        }),
        ({
            let after = app.after_failed_registration(reason, now);
            let settings = after.state.discord_bridge;
            &&& settings.pairing_code.len() == 0
            &&& settings.pairing_expires_at is None
            &&& !after.registering
            &&& settings.bridge_url == app.state.discord_bridge.bridge_url
            &&& settings.companion_id == app.state.discord_bridge.companion_id
            &&& settings.api_token == app.state.discord_bridge.api_token
            &&& settings.paired_discord_user_id
                == app.state.discord_bridge.paired_discord_user_id
            &&& settings.poll_enabled == app.state.discord_bridge.poll_enabled
            &&& same_requesters(settings, app.state.discord_bridge)
            &&& same_alarms(app, after)
            &&& same_settings(after.state, app.state)
            &&& saves_itself_last(after)
            &&& after.logs[after.logs.len() - 1].level == PersistedLogLevel::Error
        }),
{
}

/// A pairing code is shown, without white space around it, as long as its time has not come and
/// the companion is not paired. A code that is not shown is dropped, unless it is just being
/// registered; one that is shown is kept.
pub proof fn code_is_shown_until_it_expires(app: AppModel, now: LocalDateTime)
    ensures
        ({
            let before = app.state.discord_bridge;
            let code = text::trimmed(before.pairing_code);
            let paired = before.paired_discord_user_id matches Some(id) && text::trimmed(id).len()
                > 0;
            let fresh = before.pairing_expires_at matches Some(t) && now.is_before(t);
            let visible = code.len() > 0 && !paired && fresh;
            let after = app.without_inactive_code(now);
            let settings = after.state.discord_bridge;
            &&& visible ==> pages::visible_code(before, now) == Some(code)
            &&& !visible ==> pages::visible_code(before, now) is None
            &&& visible || app.registering ==> after == app
            &&& !visible && !app.registering ==> {
                &&& text::trimmed(settings.pairing_code).len() == 0
                &&& settings.pairing_expires_at is None
            }
            &&& code.len() == 0 && before.pairing_expires_at is None ==> after == app
            &&& settings.bridge_url == before.bridge_url
            &&& settings.companion_id == before.companion_id
            &&& settings.api_token == before.api_token
            &&& settings.paired_discord_user_id == before.paired_discord_user_id
            &&& settings.paired_discord_user_label == before.paired_discord_user_label
            &&& settings.poll_enabled == before.poll_enabled
            &&& same_requesters(settings, before)
            &&& same_alarms(app, after)
            &&& same_settings(after.state, app.state)
        }),
{
    assert(text::trimmed(Seq::<char>::empty()).len() == 0);
}

/// The bridge is asked for requests when it is time to, all that is needed is there, and neither
/// a poll nor a registration is under way; then, and only then. The next time is five seconds
/// later.
pub proof fn bridge_is_polled_in_time(app: AppModel, clock: u64)
    ensures
        ({
            let settings = app.state.discord_bridge;
            let after = app.after_poll_check(clock);
            let asks = text::trimmed(settings.bridge_url).len() > 0 && text::trimmed(
                settings.companion_id,
            ).len() > 0 && text::trimmed(settings.api_token).len() > 0 && !app.polling
                && !app.registering && app.next_bridge_poll_at <= clock
                && settings.client_config() is Ok;
            &&& asks ==> {
                let told = after.actions[app.actions.len() as int];
                &&& after.polling
                &&& after.actions.len() == app.actions.len() + 1
                &&& told is Poll
                &&& told->Poll_0.url == settings.client_config()->Ok_0.bridge_url
                    + "/bridge/requests"@
                &&& told->Poll_0.bearer_token == Some(settings.client_config()->Ok_0.api_token)
                &&& clock <= u64::MAX - 5000 ==> after.next_bridge_poll_at == clock + 5000
            }
            &&& !asks ==> {
                &&& after.actions == app.actions
                &&& after.polling == app.polling
                &&& after.next_bridge_poll_at == app.next_bridge_poll_at
            }
            &&& after.registering == app.registering
            &&& after.state == app.state
            &&& after.logs == app.logs
            &&& same_alarms(app, after)
            &&& same_popups(after, app)
            &&& after.handled_bridge_request_ids == app.handled_bridge_request_ids
            &&& after.pending_companion_invites == app.pending_companion_invites
        }),
{
}

/// A bridge that was polled is not polled again before the reply came and five seconds passed.
pub proof fn polls_do_not_overlap(app: AppModel, clock: u64, later: u64)
    requires
        app.after_poll_check(clock).polling,
        clock <= u64::MAX - 5000,
        later < clock + 5000,
    ensures
        app.after_poll_check(clock).after_poll_check(later).actions == app.after_poll_check(
            clock,
        ).actions,
        !app.polling ==> ({
            let replied = AppModel { polling: false, ..app.after_poll_check(clock) };
            replied.after_poll_check(later).actions == replied.actions
        }),
{
}

/// The reply of a bridge to which the companion is not paired unpairs it, and nothing else: no
/// alarm is set, nobody's right to ask changes, and the credentials stay.
pub proof fn unpaired_reply_only_unpairs(
    app: AppModel,
    response: PollModel,
    found: Seq<Result<LocalDateTime, AlarmTimeError>>,
    now: LocalDateTime,
)
    requires
        !response.paired,
    ensures
        ({
            let before = app.state.discord_bridge;
            let after = app.after_poll(response, found, now);
            let settings = after.state.discord_bridge;
            &&& settings.paired_discord_user_id is None
            &&& settings.paired_discord_user_label is None
            &&& after.pending_companion_invites.len() == 0
            &&& settings.bridge_url == before.bridge_url
            &&& settings.companion_id == before.companion_id
            &&& settings.api_token == before.api_token
            &&& settings.pairing_code == before.pairing_code
            &&& settings.pairing_expires_at == before.pairing_expires_at
            &&& settings.poll_enabled == before.poll_enabled
            &&& same_requesters(settings, before)
            &&& same_alarms(app, after)
            &&& same_settings(after.state, app.state)
            &&& same_popups(after, app)
            &&& after.handled_bridge_request_ids == app.handled_bridge_request_ids
            &&& after.actions == app.actions.push(ActionModel::Save(after.state))
        }),
{
}

/// The companion takes over from a reply with whom it is paired, before it deals with the
/// requests. Nothing else that the requests depend on changes.
pub proof fn reply_tells_who_is_paired(app: AppModel, response: PollModel, now: LocalDateTime)
    ensures
        ({
            let before = app.state.discord_bridge;
            let known = app.knowing_pairing(response, now);
            let settings = known.state.discord_bridge;
            &&& settings.paired_discord_user_id == response.paired_discord_user_id
            &&& settings.paired_discord_user_label == response.paired_discord_user_label
            &&& settings.bridge_url == before.bridge_url
            &&& settings.companion_id == before.companion_id
            &&& settings.api_token == before.api_token
            &&& settings.poll_enabled == before.poll_enabled
            &&& same_requesters(settings, before)
            &&& (response.paired_discord_user_id matches Some(id) && text::trimmed(id).len() > 0)
                ==> text::trimmed(settings.pairing_code).len() == 0
                && settings.pairing_expires_at is None
            &&& same_alarms(app, known)
            &&& same_settings(known.state, app.state)
            &&& same_popups(known, app)
            &&& same_bridge_work(known, app)
            &&& known.logs == app.logs
            &&& known.actions == app.actions || known.actions == app.actions.push(
                ActionModel::Save(known.state),
            )
            &&& settings != before ==> known.actions.len() > app.actions.len()
        }),
{
    assert(text::trimmed(Seq::<char>::empty()).len() == 0);
}

/// What the requests of a reply do, they do to the app that knows with whom it is paired; the
/// invitations of the reply are then the ones that are shown, and set no alarm.
pub proof fn reply_is_dealt_with(
    app: AppModel,
    response: PollModel,
    found: Seq<Result<LocalDateTime, AlarmTimeError>>,
    now: LocalDateTime,
)
    requires
        response.paired,
    ensures
        ({
            let done = app.knowing_pairing(response, now).after_requests(
                response.requests,
                found,
                now,
            );
            let after = app.after_poll(response, found, now);
            &&& after.pending_companion_invites == response.invites
            &&& same_alarms(done, after)
            &&& after.state.discord_bridge == done.state.discord_bridge
            &&& same_settings(after.state, done.state)
            &&& same_popups(after, done)
            &&& after.handled_bridge_request_ids == done.handled_bridge_request_ids
            &&& after.actions.len() >= done.actions.len()
            &&& after.actions.take(done.actions.len() as int) == done.actions
        }),
{
    let done = app.knowing_pairing(response, now).after_requests(response.requests, found, now);
    let after = app.after_poll(response, found, now);
    assert(after.actions.take(done.actions.len() as int) =~= done.actions);
}

/// Requests change neither the settings nor who is paired nor who may ask, however many there
/// are. The alarms that were there stay.
pub proof fn requests_take_no_alarm_away(
    app: AppModel,
    requests: Seq<RemoteRequestModel>,
    found: Seq<Result<LocalDateTime, AlarmTimeError>>,
    now: LocalDateTime,
    x: PendingAlarmModel,
)
    requires
        found.len() == requests.len(),
    ensures
        ({
            let after = app.after_requests(requests, found, now);
            &&& app.snapshot.alarm.alarms.contains(x) ==> after.snapshot.alarm.alarms.contains(x)
            &&& same_settings(after.state, app.state)
            &&& same_popups(after, app)
            &&& after.state.discord_bridge.allowed_requester_ids
                == app.state.discord_bridge.allowed_requester_ids
            &&& after.state.discord_bridge.paired_discord_user_id
                == app.state.discord_bridge.paired_discord_user_id
            &&& after.snapshot.alarm.alarms.len() <= app.snapshot.alarm.alarms.len()
                + requests.len()
        }),
    decreases requests.len(),
{
    if requests.len() > 0 {
        let before = app.after_requests(requests.drop_last(), found.drop_last(), now);
        let request = requests.last();
        requests_take_no_alarm_away(app, requests.drop_last(), found.drop_last(), now, x);
        match found.last() {
            Ok(t) => {
                request_sets_the_alarm_it_asks_for(before, request, t, now);
                let after = before.after_request(request, Ok(t), now);
                let kept = before.snapshot.alarm.alarms;
                let next = after.snapshot.alarm.alarms;
                vstd::seq_lib::to_multiset_len(kept);
                vstd::seq_lib::to_multiset_len(next);
                vstd::seq_lib::to_multiset_contains(kept, x);
                vstd::seq_lib::to_multiset_contains(next, x);
            },
            Err(error) => {},
        }
    }
}

/// Where a reply brings no invitation that was not there before, the user is left alone: the page
/// stays and nothing is logged.
pub proof fn known_invites_are_not_surfaced(
    app: AppModel,
    invites: Seq<discord_bridge::InviteModel>,
    now: LocalDateTime,
)
    requires
        forall|k: int|
            0 <= k < invites.len() ==> exists|j: int|
                0 <= j < app.pending_companion_invites.len() && (
                #[trigger] app.pending_companion_invites[j]).id == (#[trigger] invites[k]).id,
    ensures
        app.with_invites(invites, now) == (AppModel { pending_companion_invites: invites, ..app }),
{
    let is_new = |i: discord_bridge::InviteModel|
        !pages::is_known_invite(app.pending_companion_invites, i.id);
    assert forall|k: int| 0 <= k < invites.len() implies !is_new(#[trigger] invites[k]) by {
        let j = choose|j: int|
            0 <= j < app.pending_companion_invites.len() && (
            #[trigger] app.pending_companion_invites[j]).id == invites[k].id;
        assert(app.pending_companion_invites[j].id == invites[k].id);
    }
    seqs::filter_of_failing(invites, is_new);
}

/// At the start the app has the saved alarms that have not gone off and are still to come, and no
/// others; whatever was going on with the bridge is over.
pub proof fn start_takes_up_what_was_saved(
    state: StateModel,
    notice: Option<CrashNoticeModel>,
    load_error: Option<Seq<char>>,
    now: LocalDateTime,
    x: PendingAlarmModel,
)
    ensures
        ({
            let app = app_model::started_app(state, notice, load_error, now);
            &&& app.snapshot.alarm.alarms.contains(x) <==> state.alarms.contains(x)
                && now.is_before(x.alarm.scheduled_for) && x.status != AlarmStatus::Fired
            &&& same_settings(app.state, state)
            &&& app.state.discord_bridge == state.discord_bridge
            &&& app.snapshot.alarm.fired_at is None
        }),
{
    let said = lemma_start_says(state, notice, load_error, now);
    let app = app_model::started_app(state, notice, load_error, now);
    assert(settings_of(app.state) == settings_of(app_model::starting_app(state, now).state));
    assert(settings_of(app.state).discord_bridge == settings_of(state).discord_bridge);
    assert(same_settings(settings_of(app.state), settings_of(state)));
    let to_come = |p: PendingAlarmModel|
        now.is_before(p.alarm.scheduled_for) && !(p.status is Fired);
    let alive = |p: PendingAlarmModel| !(p.status is Fired);
    let left = state.alarms.filter(to_come);
    let restored = pages::restored_alarms(state.alarms, now);
    order::order_keeps_members(left);
    order::order_keeps_members(restored.filter(alive));
    if state.alarms.contains(x) && to_come(x) {
        let k = choose|k: int| 0 <= k < state.alarms.len() && state.alarms[k] == x;
        let i = seqs::passing_is_kept(state.alarms, to_come, k);
        assert(left.contains(x));
        assert(restored.contains(x));
        let j = choose|j: int| 0 <= j < restored.len() && restored[j] == x;
        let m = seqs::passing_is_kept(restored, alive, j);
        assert(restored.filter(alive).contains(x));
    }
    if app.snapshot.alarm.alarms.contains(x) {
        let living = restored.filter(alive);
        assert(living.contains(x));
        let m = choose|m: int| 0 <= m < living.len() && living[m] == x;
        let j = seqs::filtered_was_there(restored, alive, m);
        assert(restored.contains(x));
        assert(left.contains(x));
        let i = choose|i: int| 0 <= i < left.len() && left[i] == x;
        let k = seqs::filtered_was_there(state.alarms, to_come, i);
        assert(state.alarms[k] == x);
    }
}

/// A crash that was not told of before is remembered as told; else what is remembered stays.
pub proof fn crash_is_remembered(
    state: StateModel,
    notice: Option<CrashNoticeModel>,
    load_error: Option<Seq<char>>,
    now: LocalDateTime,
)
    ensures
        app_model::started_app(
            state,
            notice,
            load_error,
            now,
        ).state.last_reported_crash_fingerprint == match notice {
            Some(n) => Some(n.fingerprint),
            None => state.last_reported_crash_fingerprint,
        },
{
    let ready = app_model::starting_app(state, now).informing(now, "Ready"@).informing(
        now,
        "Graphics backend setting: "@ + state.graphics_backend_preference.word(),
    ).telling_restored(pages::restored_alarms(state.alarms, now).len(), now);
    lemma_missed_remember_no_crash(ready, pages::missed_alarms(state.alarms, now), now);
}

proof fn lemma_missed_remember_no_crash(
    app: AppModel,
    alarms: Seq<PendingAlarmModel>,
    now: LocalDateTime,
)
    ensures
        app.showing_all_missed(alarms, now).state.last_reported_crash_fingerprint
            == app.state.last_reported_crash_fingerprint,
    decreases alarms.len(),
{
    if alarms.len() > 0 {
        lemma_missed_remember_no_crash(app, alarms.drop_last(), now);
    }
}

/// What is shown of several alarms in one line is their number and what would be shown of the
/// first of them alone; of one alarm, its reminder and its time. Without alarms, the last one
/// that went off is shown.
pub proof fn summary_tells_of_the_next_alarm(app: AppModel)
    ensures
        ({
            let alarms = app.snapshot.alarm.alarms;
            let first = app.seeing(
                AlarmSnapshotModel { alarms: alarms.take(1), ..app.snapshot.alarm },
            );
            &&& alarms.len() > 1 ==> app.summary() == text::decimal(alarms.len())
                + " alarms scheduled, next: "@ + first.summary()
            &&& alarms.len() == 1 ==> app.summary() == alarms[0].alarm.reminder + " at "@
                + alarms[0].alarm.scheduled_for.text_for(time::DATE_TIME_PATTERN@)
        }),
{
    let alarms = app.snapshot.alarm.alarms;
    if alarms.len() > 0 {
        assert(alarms.take(1)[0] == alarms[0]);
    }
}

/// The alarm that a granted request sets is for the hour and the minute of the request, on the
/// wall clock of today or of tomorrow, and for a point in time at which a minute begins. Where no
/// such time can be had, no alarm is set.
pub proof fn granted_request_is_for_its_time(
    before: AppModel,
    request: RemoteRequestModel,
    after: AppModel,
    now: LocalDateTime,
) -> (found: Result<LocalDateTime, AlarmTimeError>)
    requires
        app::may_answer_request(before, request, after, now),
        !before.handled_bridge_request_ids.contains(request.id),
        before.state.discord_bridge.paired_discord_user_id == Some(request.target_id),
        request.requester_id == request.target_id || requesters::users_in(
            before.state.discord_bridge.allowed_requester_ids,
        ).contains(request.requester_id),
        request.hour < 24,
        request.minute < 60,
    ensures
        match found {
            Ok(t) => {
                &&& added_alarm(before, after, chosen_alarm(before.state, request.label, t))
                &&& t.wall_second() % 86400 == request.hour * 3600 + request.minute * 60
                &&& t.wall_day() == now.wall_day() || t.wall_day() == now.wall_day() + 1
                &&& t.nanosecond() == 0
            },
            Err(_) => same_alarms(before, after),
        },
{
    let found = choose|found: Result<LocalDateTime, AlarmTimeError>|
        {
            &&& #[trigger] alarm::may_be_next_alarm_time(found, request.time_text(), now)
            &&& after == before.after_request(request, found, now)
        };
    let (zone, next_zone) = choose|zone: Seq<char>, next_zone: Seq<char>| #[trigger]
        alarm::is_next_alarm_time_for(found, request.time_text(), now, zone, next_zone);
    discord_bridge::request_time_reads_back(request);
    let hour = request.hour as nat;
    let minute = request.minute as nat;
    match found {
        Ok(t) => {
            request_sets_the_alarm_it_asks_for(before, request, t, now);
            alarm::alarm_time_shows_the_time_asked_for(
                t,
                hour,
                minute,
                now,
                time::zone_offsets(zone, alarm::wall_second_at(now.wall_day(), hour, minute)),
                time::zone_offsets(
                    next_zone,
                    alarm::wall_second_at(now.wall_day() + 1, hour, minute),
                ),
            );
        },
        Err(_) => {},
    }
    found
}

proof fn lemma_requests_keep_polling(
    app: AppModel,
    requests: Seq<RemoteRequestModel>,
    found: Seq<Result<LocalDateTime, AlarmTimeError>>,
    now: LocalDateTime,
)
    ensures
        app.after_requests(requests, found, now).polling == app.polling,
        app.after_requests(requests, found, now).registering == app.registering,
        app.after_requests(requests, found, now).next_bridge_poll_at == app.next_bridge_poll_at,
    decreases requests.len(),
{
    if requests.len() > 0 {
        lemma_requests_keep_polling(app, requests.drop_last(), found.drop_last(), now);
    }
}

proof fn lemma_poll_keeps_the_clock(
    app: AppModel,
    response: PollModel,
    found: Seq<Result<LocalDateTime, AlarmTimeError>>,
    now: LocalDateTime,
)
    ensures
        ({
            let after = app.after_poll(response, found, now);
            &&& after.polling == app.polling
            &&& after.registering == app.registering
            &&& after.next_bridge_poll_at == app.next_bridge_poll_at
            &&& !response.paired ==> after.state.discord_bridge.paired_discord_user_id is None
            &&& response.paired ==> after.pending_companion_invites == response.invites
        }),
{
    if response.paired {
        let known = app.knowing_pairing(response, now);
        assert(known.polling == app.polling && known.registering == app.registering
            && known.next_bridge_poll_at == app.next_bridge_poll_at);
        let done = known.after_requests(response.requests, found, now);
        lemma_requests_keep_polling(known, response.requests, found, now);
        let shown = done.with_invites(response.invites, now);
        assert(shown.polling == done.polling && shown.registering == done.registering
            && shown.next_bridge_poll_at == done.next_bridge_poll_at);
        assert(shown.pending_companion_invites == response.invites);
    }
}

proof fn lemma_applied_poll_keeps_the_clock(
    app: AppModel,
    response: PollModel,
    after: AppModel,
    now: LocalDateTime,
)
    requires
        app::may_apply_poll(app, response, after, now),
    ensures
        after.polling == app.polling,
        after.registering == app.registering,
        after.next_bridge_poll_at == app.next_bridge_poll_at,
        !response.paired ==> after.state.discord_bridge.paired_discord_user_id is None,
        response.paired ==> after.pending_companion_invites == response.invites,
{
    let found = choose|found: Seq<Result<LocalDateTime, AlarmTimeError>>|
        {
            &&& #[trigger] app::may_be_times(found, response.requests, now)
            &&& after == app.after_poll(response, found, now)
        };
    lemma_poll_keeps_the_clock(app, response, found, now);
}

/// However a poll ends, another one can be begun afterwards, not before the time for it. One that
/// failed changes nothing but what is shown of the bridge.
#[verifier::spinoff_prover]
#[verifier::rlimit(40)]
pub proof fn poll_ends_either_way(
    before: AppModel,
    outcome: Result<PollRequestsResponse, String>,
    after: AppModel,
    now: LocalDateTime,
)
    requires
        app::may_finish_poll(before, outcome, after, now),
    ensures
        !after.polling,
        after.registering == before.registering,
        after.next_bridge_poll_at == before.next_bridge_poll_at,
        outcome is Err ==> {
            &&& same_alarms(before, after)
            &&& same_popups(after, before)
            &&& after.state == before.state
            &&& after.logs == before.logs
            &&& after.actions == before.actions
            &&& after.handled_bridge_request_ids == before.handled_bridge_request_ids
            &&& after.pending_companion_invites == before.pending_companion_invites
        },
        outcome matches Ok(response) ==> !response.paired
            ==> after.state.discord_bridge.paired_discord_user_id is None,
        outcome matches Ok(response) ==> response.paired ==> after.pending_companion_invites
            == response.invites.deep_view(),
{
    let idle = AppModel { polling: false, ..before };
    match outcome {
        Ok(response) => {
            let model = response.deep_view();
            lemma_applied_poll_keeps_the_clock(idle, model, after, now);
        },
        Err(_) => {},
    }
}

/// However a registration ends, another one can be begun afterwards. The code that the bridge
/// registered is kept, with the second of UTC at which the bridge lets it expire; after a failure
/// there is none.
pub proof fn registration_ends_either_way(
    before: AppModel,
    outcome: Result<PairingRegistrationResponse, String>,
    after: AppModel,
    now: LocalDateTime,
    clock: u64,
)
    requires
        app::may_finish_registration(before, outcome, after, now, clock),
    ensures
        !after.registering,
        after.polling == before.polling,
        same_alarms(before, after),
        same_settings(after.state, before.state),
        same_requesters(after.state.discord_bridge, before.state.discord_bridge),
        outcome matches Ok(response) ==> {
            let settings = after.state.discord_bridge;
            &&& settings.pairing_code == response.pairing_code@
            &&& settings.pairing_expires_at matches Some(t) ==> t.second()
                == response.expires_at_unix
            &&& time::FIRST_SECOND <= response.expires_at_unix <= time::LAST_SECOND
                ==> settings.pairing_expires_at is Some
            &&& after.next_bridge_poll_at == clock
        },
        outcome is Err ==> {
            &&& after.state.discord_bridge.pairing_code.len() == 0
            &&& after.state.discord_bridge.pairing_expires_at is None
            &&& after.next_bridge_poll_at == before.next_bridge_poll_at
        },
{
}

/// While the tasks for the bridge run, nothing changes. A task that was lost counts as failed: it
/// does not run any more, and neither an alarm nor a setting changes over it.
pub proof fn lost_task_counts_as_failed(
    before: AppModel,
    after: AppModel,
    now: LocalDateTime,
    clock: u64,
)
    ensures
        app::may_take_registration(before, TaskReport::Running, after, now, clock) ==> after
            == before,
        app::may_take_poll(before, TaskReport::Running, after, now) ==> after == before,
        app::may_take_registration(before, TaskReport::Lost, after, now, clock) ==> {
            &&& !after.registering
            &&& after.state.discord_bridge.pairing_code.len() == 0
            &&& same_alarms(before, after)
            &&& same_settings(after.state, before.state)
            &&& same_requesters(after.state.discord_bridge, before.state.discord_bridge)
        },
        app::may_take_poll(before, TaskReport::Lost, after, now) ==> {
            &&& !after.polling
            &&& after.state == before.state
            &&& after.actions == before.actions
            &&& same_alarms(before, after)
        },
{
}

/// The sound that is tested, alone or with an alarm that is shown, is the one that was typed in,
/// without white space around it; where none was, no sound is tested. Stopping the test stops
/// that sound.
pub proof fn typed_sound_is_tested(app: AppModel, now: LocalDateTime)
    ensures
        ({
            let path = text::trimmed(app.state.sound_path);
            let tested: Option<Seq<char>> = if path.len() == 0 {
                None
            } else {
                Some(path)
            };
            let heard = app.after_sound_test(now);
            let shown = app.after_popup_test(now);
            &&& heard.actions[heard.actions.len() - 1] == ActionModel::Send(
                CommandModel::TestSound(tested),
            )
            &&& shown.actions[shown.actions.len() - 1] == ActionModel::Send(
                CommandModel::TestAlarmPopup(tested),
            )
            &&& heard.test_sound is None
            &&& shown.test_sound is None
            &&& same_alarms(app, heard)
            &&& same_alarms(app, shown)
            &&& heard.alarm_popups == app.alarm_popups
            &&& shown.alarm_popups == app.alarm_popups
        }),
        ({
            let stopped = app.after_stopping_test(now);
            &&& stopped.test_sound is None
            &&& app.test_sound matches Some(sound) ==> stopped.actions[app.actions.len() as int]
                == ActionModel::StopSound(sound)
            &&& same_alarms(app, stopped)
            &&& stopped.alarm_popups == app.alarm_popups
        }),
{
}

/// Emptying the log empties what is shown and what is saved of it, and nothing else.
pub proof fn emptied_log_is_empty(app: AppModel)
    ensures
        ({
            let after = app.without_logs();
            &&& after.logs.len() == 0
            &&& after.state.logs.len() == 0
            &&& after.actions == app.actions.push(ActionModel::Save(after.state))
            &&& same_alarms(app, after)
            &&& same_settings(after.state, app.state)
            &&& after.state.discord_bridge == app.state.discord_bridge
            &&& same_popups(after, app)
            &&& same_bridge_work(after, app)
        }),
{
}

/// Whether the log ends with what happened at a time.
pub open spec fn log_ends_with(app: AppModel, at: LocalDateTime, message: Seq<char>) -> bool {
    app.logs.len() > 0 && app.logs[app.logs.len() - 1].message == message && app.logs[app.logs.len()
        - 1].occurred_at == at
}

/// The log tells of every alarm that is set, cancelled, missed or goes off, by its own reminder or
/// time.
pub proof fn log_tells_of_the_alarm(
    app: AppModel,
    id: AlarmId,
    reminder: Seq<char>,
    delayed_by_game: bool,
    t: LocalDateTime,
    sound: Option<SoundHandle>,
    missed: PendingAlarmModel,
    now: LocalDateTime,
)
    ensures
        log_ends_with(
            app.after_event(
                MonitorEventModel::AlarmFired { id, reminder, delayed_by_game, fired_at: t, sound },
                now,
            ),
            t,
            "Alarm fired at "@ + t.text_for(time::DATE_TIME_PATTERN@) + (if delayed_by_game {
                " after the game ended"@
            } else {
                Seq::empty()
            }) + ": "@ + reminder,
        ),
        log_ends_with(
            app.after_scheduling(Ok(t), now),
            now,
            "Alarm added for "@ + t.text_for(time::DATE_TIME_PATTERN@),
        ),
        log_ends_with(app.after_cancelling(id, reminder, now), now, "Alarm cancelled: "@ + reminder),
        log_ends_with(app.after_cancelling_all(now), now, "All alarms cancelled"@),
        log_ends_with(
            app.showing_missed(missed, now),
            now,
            "Missed alarm from "@ + missed.alarm.scheduled_for.text_for(time::DATE_TIME_PATTERN@)
                + " while the app was not running: "@ + missed.alarm.reminder,
        ),
{
}

/// The log tells of every Discord user who was let in or turned away, by number or label, and of
/// every request, by its number.
pub proof fn log_tells_of_the_user(
    app: AppModel,
    request: RemoteRequestModel,
    user: Seq<char>,
    id: Seq<char>,
    t: LocalDateTime,
    now: LocalDateTime,
)
    ensures
        log_ends_with(
            app.after_removing_user(user, now),
            now,
            "Removed Discord user "@ + user + " from allowed users"@,
        ),
        requesters::user_id_of(app.new_allowed_requester_id) == Some(id) && !requesters::users_in(
            app.state.discord_bridge.allowed_requester_ids,
        ).contains(id) ==> log_ends_with(
            app.after_adding_user(now),
            now,
            "Allowed Discord user "@ + id + " to request alarms"@,
        ),
        would_do(app, request) ==> log_ends_with(
            app.after_request(request, Ok(t), now),
            now,
            "Accepted Discord alarm request #"@ + text::decimal(request.id as nat) + " for "@
                + t.text_for(time::DATE_TIME_PATTERN@),
        ),
        !app.handled_bridge_request_ids.contains(request.id)
            && app.state.discord_bridge.paired_discord_user_id == Some(request.target_id)
            && request.requester_id != request.target_id && !requesters::users_in(
            app.state.discord_bridge.allowed_requester_ids,
        ).contains(request.requester_id) ==> log_ends_with(
            app.after_request(request, Ok(t), now),
            now,
            "Rejected Discord alarm request #"@ + text::decimal(request.id as nat) + " from "@
                + request.requester_id,
        ),
{
    if requesters::user_id_of(app.new_allowed_requester_id) is Some {
        lemma_naming_text_is_not_blank(app.new_allowed_requester_id);
    }
}

/// An invitation that the user decided on is logged by how the invited user is shown.
pub proof fn log_tells_of_the_invitation(app: AppModel, k: int, now: LocalDateTime)
    requires
        0 <= k < app.pending_companion_invites.len(),
        forall|j: int|
            0 <= j < k ==> (#[trigger] app.pending_companion_invites[j]).id
                != app.pending_companion_invites[k].id,
    ensures
        ({
            let invite = app.pending_companion_invites[k];
            &&& log_ends_with(
                app.after_allowing(invite.id, now),
                now,
                "Allowed "@ + invite.user_words() + " to request alarms"@,
            )
            &&& log_ends_with(
                app.after_rejecting(invite.id, now),
                now,
                "Rejected Discord access invite for "@ + invite.user_words(),
            )
        }),
{
    let invite = app.pending_companion_invites[k];
    seqs::first_is_found(
        app.pending_companion_invites,
        |i: discord_bridge::InviteModel| i.id == invite.id,
        k,
    );
}

/// What went wrong before or at the start is the last thing that the log tells of it: that the
/// state could not be loaded, or else a crash that was not told of before.
pub proof fn start_tells_what_went_wrong(
    state: StateModel,
    notice: Option<CrashNoticeModel>,
    reason: Seq<char>,
    now: LocalDateTime,
)
    ensures
        log_ends_with(
            app_model::started_app(state, notice, Some(reason), now),
            now,
            "Could not load saved state: "@ + reason,
        ),
        notice matches Some(n) ==> state.last_reported_crash_fingerprint != Some(n.fingerprint)
            ==> log_ends_with(
            app_model::started_app(state, notice, None, now),
            now,
            "Previous crash recorded: "@ + n.summary + ". Crash log: "@ + n.path,
        ),
{
}

/// What is shown of the bridge says how far the pairing has come and how the last poll went.
pub proof fn status_of_the_bridge_is_shown(
    app: AppModel,
    code: Seq<char>,
    expires_at: Option<LocalDateTime>,
    reason: Seq<char>,
    response: PollModel,
    found: Seq<Result<LocalDateTime, AlarmTimeError>>,
    now: LocalDateTime,
    clock: u64,
)
    ensures
        app.after_pairing_cleared().bridge_status == "Disconnected"@,
        app.after_registration(code, expires_at, now, clock).bridge_status
            == "Waiting for /companion pair"@,
        app.after_failed_registration(reason, now).bridge_status == "Pairing failed"@,
        !response.paired ==> app.after_poll(response, found, now).bridge_status
            == "Waiting for /companion pair"@,
        response.paired && response.requests.len() == 0 && response.invites.len() == 0
            ==> app.after_poll(response, found, now).bridge_status == "Connected"@,
        response.paired && response.requests.len() + response.invites.len() > 0 ==> app.after_poll(
            response,
            found,
            now,
        ).bridge_status == "Connected; processed "@ + text::decimal(response.requests.len())
            + " request(s), "@ + text::decimal(response.invites.len()) + " invite(s) pending"@,
{
}

/// A request that cannot be granted because of its time is answered with the reason, which says
/// what is wrong with the time; one that was granted before is answered as such, and one that is
/// granted now needs no reason.
pub proof fn answer_gives_its_reason(
    app: AppModel,
    request: RemoteRequestModel,
    error: AlarmTimeError,
    t: LocalDateTime,
    now: LocalDateTime,
) -> (i: int)
    requires
        app.state.discord_bridge.client_config() is Ok,
    ensures
        app.handled_bridge_request_ids.contains(request.id) ==> {
            let told = app.after_request(request, Ok(t), now).actions;
            &&& told.len() == app.actions.len() + 1
            &&& told[told.len() - 1] is Report
            &&& told[told.len() - 1]->Report_0.body == (BridgeBodyModel::RequestStatus {
                status: "accepted"@,
                reason: Some("already handled"@),
            })
        },
        would_do(app, request) ==> {
            let refused = app.after_request(request, Err(error), now).actions;
            &&& refused[refused.len() - 1] is Report
            &&& refused[refused.len() - 1]->Report_0.body == (BridgeBodyModel::RequestStatus {
                status: "rejected"@,
                reason: Some(error.words()),
            })
        },
        would_do(app, request) ==> {
            let granted = app.after_request(request, Ok(t), now).actions;
            &&& 0 <= i < granted.len()
            &&& granted[i] is Report
            &&& granted[i]->Report_0.body == (BridgeBodyModel::RequestStatus {
                status: "accepted"@,
                reason: None::<Seq<char>>,
            })
        },
{
    let known = app.knowing_requester(request);
    assert(known.bridge().client_config() == app.bridge().client_config());
    let set = known.with_alarm_at(pages::label_of(request.label), t).remembering(request.id);
    assert(set.bridge().client_config() == app.bridge().client_config());
    let told = set.reporting(request.id, RequestStatus::Accepted, None);
    if would_do(app, request) {
        let granted = app.after_request(request, Ok(t), now).actions;
        assert(granted[set.actions.len() as int] == told.actions[set.actions.len() as int]);
    }
    set.actions.len() as int
}

} // verus!
