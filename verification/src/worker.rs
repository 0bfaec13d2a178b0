//! The monitor: takes commands, watches the clock and the games, and reports what happens.
use vstd::prelude::*;

use crate::alarm;
use crate::alarm::{
    Alarm, AlarmEngine, AlarmEventModel, AlarmId, AlarmModel, AlarmSnapshot, AlarmSnapshotModel,
    AlarmStatus, EngineModel, GameActivity, PendingAlarmSnapshot,
};
use crate::game;
use crate::game::{
    DetectionConfigModel, GameDetectionConfig, GameDetector, GameMonitor, GameMonitorStatus,
    GameStatusModel,
};
use crate::notifier;
use crate::notifier::{NotificationError, Notifier};
use crate::sound;
use crate::sound::{
    SoundError, SoundErrorModel, SoundHandle, SoundPlaybackSettings, SoundPlayer,
};
use crate::time::LocalDateTime;

verus! {

/// The milliseconds between two looks at the clock.
pub const ROUND_INTERVAL_MILLIS: u64 = 750;

/// What the monitor is told to do.
#[derive(Debug)]
pub enum MonitorCommand {
    Schedule { id: AlarmId, alarm: Alarm },
    CancelAlarm(AlarmId),
    Cancel,
    SetGameDetectionConfig(GameDetectionConfig),
    TestSound(Option<String>),
    TestAlarmPopup(Option<String>),
    Shutdown,
}

/// The model of a command.
#[verifier::ext_equal]
pub enum CommandModel {
    Schedule { id: AlarmId, alarm: AlarmModel },
    CancelAlarm(AlarmId),
    Cancel,
    SetGameDetectionConfig(DetectionConfigModel),
    TestSound(Option<Seq<char>>),
    TestAlarmPopup(Option<Seq<char>>),
    Shutdown,
}

impl DeepView for MonitorCommand {
    type V = CommandModel;

    open spec fn deep_view(&self) -> CommandModel {
        match *self {
            MonitorCommand::Schedule { id, alarm } => CommandModel::Schedule {
                id,
                alarm: alarm.deep_view(),
            },
            MonitorCommand::CancelAlarm(id) => CommandModel::CancelAlarm(id),
            MonitorCommand::Cancel => CommandModel::Cancel,
            MonitorCommand::SetGameDetectionConfig(config) =>
                CommandModel::SetGameDetectionConfig(config.deep_view()),
            MonitorCommand::TestSound(path) => CommandModel::TestSound(path.deep_view()),
            MonitorCommand::TestAlarmPopup(path) => CommandModel::TestAlarmPopup(
                path.deep_view(),
            ),
            MonitorCommand::Shutdown => CommandModel::Shutdown,
        }
    }
}

/// What the monitor sees.
#[derive(Debug)]
pub struct MonitorSnapshot {
    pub alarm: AlarmSnapshot,
    pub game_status: GameMonitorStatus,
    pub last_checked: LocalDateTime,
}

/// The model of what the monitor sees.
#[verifier::ext_equal]
pub struct MonitorSnapshotModel {
    pub alarm: AlarmSnapshotModel,
    pub game_status: Seq<GameStatusModel>,
    pub last_checked: LocalDateTime,
}

impl DeepView for MonitorSnapshot {
    type V = MonitorSnapshotModel;

    open spec fn deep_view(&self) -> MonitorSnapshotModel {
        MonitorSnapshotModel {
            alarm: self.alarm.deep_view(),
            game_status: self.game_status.deep_view(),
            last_checked: self.last_checked,
        }
    }
}

/// What the monitor reports.
#[derive(Debug)]
pub enum MonitorEvent {
    Snapshot(MonitorSnapshot),
    AlarmFired {
        id: AlarmId,
        reminder: String,
        delayed_by_game: bool,
        fired_at: LocalDateTime,
        sound: Option<SoundHandle>,
    },
    TestSoundStarted { sound: Option<SoundHandle>, started_at: LocalDateTime },
    TestAlarmPopup { reminder: String, fired_at: LocalDateTime, sound: Option<SoundHandle> },
    NotificationError(String),
    SoundError(String),
}

/// The model of what the monitor reports.
#[verifier::ext_equal]
pub enum MonitorEventModel {
    Snapshot(MonitorSnapshotModel),
    AlarmFired {
        id: AlarmId,
        reminder: Seq<char>,
        delayed_by_game: bool,
        fired_at: LocalDateTime,
        sound: Option<SoundHandle>,
    },
    TestSoundStarted { sound: Option<SoundHandle>, started_at: LocalDateTime },
    TestAlarmPopup { reminder: Seq<char>, fired_at: LocalDateTime, sound: Option<SoundHandle> },
    NotificationError(Seq<char>),
    SoundError(Seq<char>),
}

impl DeepView for MonitorEvent {
    type V = MonitorEventModel;

    open spec fn deep_view(&self) -> MonitorEventModel {
        match *self {
            MonitorEvent::Snapshot(snapshot) => MonitorEventModel::Snapshot(snapshot.deep_view()),
            MonitorEvent::AlarmFired { id, reminder, delayed_by_game, fired_at, sound } =>
                MonitorEventModel::AlarmFired {
                id,
                reminder: reminder@,
                delayed_by_game,
                fired_at,
                sound,
            },
            MonitorEvent::TestSoundStarted { sound, started_at } =>
                MonitorEventModel::TestSoundStarted { sound, started_at },
            MonitorEvent::TestAlarmPopup { reminder, fired_at, sound } =>
                MonitorEventModel::TestAlarmPopup { reminder: reminder@, fired_at, sound },
            MonitorEvent::NotificationError(error) => MonitorEventModel::NotificationError(error@),
            MonitorEvent::SoundError(error) => MonitorEventModel::SoundError(error@),
        }
    }
}

/// What came of playing a sound.
pub type SoundOutcome = Result<Option<SoundHandle>, SoundErrorModel>;

/// The sound that is being played, if any.
pub open spec fn sound_of(outcome: SoundOutcome) -> Option<SoundHandle> {
    match outcome {
        Ok(sound) => sound,
        Err(_) => None,
    }
}

/// What is reported when a sound could not be played.
pub open spec fn sound_trouble(outcome: SoundOutcome) -> Seq<MonitorEventModel> {
    match outcome {
        Ok(_) => Seq::empty(),
        Err(error) => seq![MonitorEventModel::SoundError(error.words())],
    }
}

/// What is reported when a notification could not be shown.
pub open spec fn notification_trouble(outcome: Result<(), Seq<char>>) -> Seq<MonitorEventModel> {
    match outcome {
        Ok(_) => Seq::empty(),
        Err(reason) => seq![
            MonitorEventModel::NotificationError(notifier::notification_error_words(reason)),
        ],
    }
}

/// What is reported of an alarm that went off, given what came of the notification and of the
/// sound: trouble first, then the alarm.
pub open spec fn reports_of(
    event: AlarmEventModel,
    notified: Result<(), Seq<char>>,
    played: SoundOutcome,
) -> Seq<MonitorEventModel> {
    (notification_trouble(notified) + sound_trouble(played)).push(
        MonitorEventModel::AlarmFired {
            id: event.id,
            reminder: event.reminder,
            delayed_by_game: event.delayed_by_game,
            fired_at: event.fired_at,
            sound: sound_of(played),
        },
    )
}

/// What is reported of all alarms that went off, in their order.
pub open spec fn reports_of_all(
    events: Seq<AlarmEventModel>,
    notified: Seq<Result<(), Seq<char>>>,
    played: Seq<SoundOutcome>,
) -> Seq<MonitorEventModel>
    decreases events.len(),
{
    if events.len() == 0 {
        Seq::empty()
    } else {
        reports_of_all(events.drop_last(), notified.drop_last(), played.drop_last()) + reports_of(
            events.last(),
            notified.last(),
            played.last(),
        )
    }
}

/// Whether a notifier and a player may answer the alarms that went off in this way.
pub open spec fn may_answer<N: Notifier, P: SoundPlayer>(
    notifier: N,
    player: P,
    events: Seq<AlarmEventModel>,
    notified: Seq<Result<(), Seq<char>>>,
    played: Seq<SoundOutcome>,
) -> bool {
    &&& notified.len() == events.len()
    &&& played.len() == events.len()
    &&& forall|i: int|
        #![trigger events[i]]
        0 <= i < events.len() ==> notifier.may_notify(events[i].reminder, notified[i])
            && player.may_play(events[i].sound_path, sound::full_volume(), played[i])
}

/// The sound that is being played, after a report where it could not be played.
pub fn note_sound(
    outcome: Result<Option<SoundHandle>, SoundError>,
    events: &mut Vec<MonitorEvent>,
) -> (sound: Option<SoundHandle>)
    ensures
        sound == sound_of(sound::sound_outcome(outcome)),
        final(events).deep_view() == old(events).deep_view() + sound_trouble(
            sound::sound_outcome(outcome),
        ),
{
    let ghost before = events.deep_view();
    match outcome {
        Ok(sound) => {
            assert(before + Seq::empty() =~= before);
            sound
        },
        Err(error) => {
            let ghost words = error.deep_view().words();
            events.push(MonitorEvent::SoundError(error.message()));
            assert(events.deep_view() =~= before + seq![MonitorEventModel::SoundError(words)]);
            None
        },
    }
}

/// Whether a player may answer the sound of an alarm so that `sound` is being played and the
/// reports go from `before` to `after`.
pub open spec fn may_sound<P: SoundPlayer>(
    player: P,
    sound_path: Option<Seq<char>>,
    sound: Option<SoundHandle>,
    before: Seq<MonitorEventModel>,
    after: Seq<MonitorEventModel>,
) -> bool {
    exists|outcome: SoundOutcome|
        {
            &&& #[trigger] player.may_play(sound_path, sound::full_volume(), outcome)
            &&& sound == sound_of(outcome)
            &&& after == before + sound_trouble(outcome)
        }
}

/// Plays the sound of an alarm. Where that fails, there is no sound but a report.
pub fn play_alarm_sound<P: SoundPlayer>(
    sound_path: Option<String>,
    events: &mut Vec<MonitorEvent>,
    player: &P,
) -> (sound: Option<SoundHandle>)
    ensures
        may_sound(
            *player,
            sound_path.deep_view(),
            sound,
            old(events).deep_view(),
            final(events).deep_view(),
        ),
{
    let outcome = player.play(sound_path, SoundPlaybackSettings::default());
    note_sound(outcome, events)
}

/// What came of a command: what there is to report, and whether to stop.
#[derive(Debug)]
pub struct CommandOutcome {
    pub events: Vec<MonitorEvent>,
    pub shutdown: bool,
}

/// What a command makes of the alarms.
pub open spec fn engine_after_command(engine: EngineModel, command: CommandModel) -> EngineModel {
    match command {
        CommandModel::Schedule { id, alarm } => engine.with_alarm(id, alarm),
        CommandModel::CancelAlarm(id) => engine.without_alarm(id),
        CommandModel::Cancel => engine.without_alarms(),
        _ => engine,
    }
}

/// Whether a player may answer a command so that `events` is reported.
pub open spec fn may_report_after_command<P: SoundPlayer>(
    player: P,
    command: CommandModel,
    now: LocalDateTime,
    events: Seq<MonitorEventModel>,
) -> bool {
    match command {
        CommandModel::TestSound(path) => exists|outcome: SoundOutcome|
            {
                &&& #[trigger] player.may_play(path, sound::full_volume(), outcome)
                &&& events == test_sound_reports(outcome, now)
            },
        CommandModel::TestAlarmPopup(path) => exists|outcome: SoundOutcome|
            {
                &&& #[trigger] player.may_play(path, sound::full_volume(), outcome)
                &&& events == test_popup_reports(outcome, now)
            },
        _ => events == Seq::<MonitorEventModel>::empty(),
    }
}

/// What is reported of a sound that was played for a test.
pub open spec fn test_sound_reports(outcome: SoundOutcome, now: LocalDateTime) -> Seq<
    MonitorEventModel,
> {
    match outcome {
        Ok(sound) => seq![MonitorEventModel::TestSoundStarted { sound, started_at: now }],
        Err(_) => sound_trouble(outcome),
    }
}

/// What is reported of an alarm that was shown for a test.
pub open spec fn test_popup_reports(outcome: SoundOutcome, now: LocalDateTime) -> Seq<
    MonitorEventModel,
> {
    sound_trouble(outcome).push(
        MonitorEventModel::TestAlarmPopup {
            reminder: "Test alarm notification"@,
            fired_at: now,
            sound: sound_of(outcome),
        },
    )
}

/// Keeps the alarms, and does what there is to do for them.
pub struct AlarmMonitor {
    engine: AlarmEngine,
}

impl AlarmMonitor {
    /// The alarms, as the engine has them.
    pub closed spec fn engine(&self) -> EngineModel {
        self.engine.deep_view()
    }

    /// A monitor for the alarms that were kept from before.
    pub fn new(restored_alarms: Vec<PendingAlarmSnapshot>) -> (monitor: AlarmMonitor)
        ensures
            monitor.engine() == alarm::restored_engine(restored_alarms.deep_view()),
            monitor.engine().consistent(),
    {
        AlarmMonitor { engine: AlarmEngine::from_pending_alarms(restored_alarms) }
    }

    /// Does what a command says.
    pub fn handle_command<D: GameDetector, P: SoundPlayer>(
        &mut self,
        command: MonitorCommand,
        now: LocalDateTime,
        game_monitor: &mut GameMonitor<D>,
        player: &P,
    ) -> (outcome: CommandOutcome)
        ensures
            final(self).engine() == engine_after_command(
                old(self).engine(),
                command.deep_view(),
            ),
            may_report_after_command(
                *player,
                command.deep_view(),
                now,
                outcome.events.deep_view(),
            ),
            final(self).engine().consistent(),
            outcome.shutdown == (command is Shutdown),
            command matches MonitorCommand::SetGameDetectionConfig(config) ==> game::all_may_take(
                old(game_monitor).detectors(),
                config.deep_view(),
                final(game_monitor).detectors(),
            ),
            !(command is SetGameDetectionConfig) ==> final(game_monitor).detectors() == old(
                game_monitor,
            ).detectors(),
    {
        proof {
            use_type_invariant(&self.engine);
        }
        let mut events: Vec<MonitorEvent> = Vec::new();
        let mut shutdown: bool = false;
        assert(events.deep_view() =~= Seq::empty());
        match command {
            MonitorCommand::Schedule { id, alarm } => {
                self.engine.schedule_with_id(id, alarm);
            },
            MonitorCommand::CancelAlarm(id) => {
                self.engine.cancel_alarm(id);
            },
            MonitorCommand::Cancel => {
                self.engine.cancel();
            },
            MonitorCommand::SetGameDetectionConfig(config) => {
                game_monitor.apply_config(&config);
            },
            MonitorCommand::TestSound(path) => {
                let played = player.play(path, SoundPlaybackSettings::default());
                let ghost outcome = sound::sound_outcome(played);
                assert(player.may_play(path.deep_view(), sound::full_volume(), outcome));
                match played {
                    Ok(sound) => {
                        events.push(MonitorEvent::TestSoundStarted { sound, started_at: now });
                    },
                    Err(error) => {
                        events.push(MonitorEvent::SoundError(error.message()));
                    },
                }
                assert(events.deep_view() =~= test_sound_reports(outcome, now));
            },
            MonitorCommand::TestAlarmPopup(path) => {
                let played = player.play(path, SoundPlaybackSettings::default());
                let ghost outcome = sound::sound_outcome(played);
                assert(player.may_play(path.deep_view(), sound::full_volume(), outcome));
                let sound = note_sound(played, &mut events);
                events.push(
                    MonitorEvent::TestAlarmPopup {
                        reminder: "Test alarm notification".to_owned(),
                        fired_at: now,
                        sound,
                    },
                );
                assert(events.deep_view() =~= test_popup_reports(outcome, now));
            },
            MonitorCommand::Shutdown => {
                shutdown = true;
            },
        }
        CommandOutcome { events, shutdown }
    }

    /// Looks at the clock, lets the alarms go off whose turn it is, and reports: first what
    /// became of those alarms, then what there is to see.
    pub fn run_round<N: Notifier, P: SoundPlayer>(
        &mut self,
        now: LocalDateTime,
        game_status: GameMonitorStatus,
        notifier: &N,
        player: &P,
    ) -> (events: Vec<MonitorEvent>)
        ensures
            is_round(
                old(self).engine(),
                final(self).engine(),
                now,
                game_status.deep_view(),
                *notifier,
                *player,
                events.deep_view(),
            ),
            final(self).engine().consistent(),
    {
        let activity: GameActivity = game_status.activity();
        let fired = self.engine.tick(now, activity);
        let ghost all = fired.deep_view();
        let ghost firing = fired@;
        let ghost mut notified: Seq<Result<(), Seq<char>>> = Seq::empty();
        let ghost mut played: Seq<SoundOutcome> = Seq::empty();
        let mut events: Vec<MonitorEvent> = Vec::new();
        assert(events.deep_view() =~= reports_of_all(all.take(0), notified, played));
        for event in iter: fired
            invariant
                iter.seq() == firing,
                all.len() == firing.len(),
                forall|i: int| 0 <= i < firing.len() ==> all[i] == (#[trigger] firing[i]).deep_view(),
                may_answer(*notifier, *player, all.take(iter.index()), notified, played),
                events.deep_view() == reports_of_all(all.take(iter.index()), notified, played),
        {
            let ghost done = iter.index();
            let ghost model = event.deep_view();
            let ghost before = events.deep_view();
            let notice = notifier.alarm(event.reminder.as_str());
            let ghost notice_model = notifier::notice_outcome(notice);
            assert(notifier.may_notify(model.reminder, notice_model));
            match notice {
                Ok(_) => {
                    assert(before + Seq::empty() =~= before);
                },
                Err(error) => {
                    let ghost words = notifier::notification_error_words(error.deep_view());
                    events.push(MonitorEvent::NotificationError(error.message()));
                    assert(events.deep_view() =~= before + seq![
                        MonitorEventModel::NotificationError(words),
                    ]);
                },
            }
            let ghost after_notice = events.deep_view();
            assert(after_notice == before + notification_trouble(notice_model));
            let outcome = player.play(event.sound_path, SoundPlaybackSettings::default());
            let ghost outcome_model = sound::sound_outcome(outcome);
            assert(player.may_play(model.sound_path, sound::full_volume(), outcome_model));
            let sound = note_sound(outcome, &mut events);
            let ghost after_sound = events.deep_view();
            let ghost report = reports_of(model, notice_model, outcome_model).last();
            events.push(
                MonitorEvent::AlarmFired {
                    id: event.id,
                    reminder: event.reminder,
                    delayed_by_game: event.delayed_by_game,
                    fired_at: event.fired_at,
                    sound,
                },
            );
            proof {
                let earlier_notified = notified;
                let earlier_played = played;
                notified = notified.push(notice_model);
                played = played.push(outcome_model);
                assert(notified.drop_last() =~= earlier_notified);
                assert(played.drop_last() =~= earlier_played);
                assert(all.take(done + 1).drop_last() =~= all.take(done));
                assert(all.take(done + 1).last() == model);
                assert(events.deep_view() =~= after_sound.push(report));
                assert(events.deep_view() =~= before + reports_of(
                    model,
                    notice_model,
                    outcome_model,
                ));
                assert forall|i: int|
                    #![trigger all.take(done + 1)[i]]
                    0 <= i < done + 1 implies notifier.may_notify(
                    all.take(done + 1)[i].reminder,
                    notified[i],
                ) && player.may_play(
                    all.take(done + 1)[i].sound_path,
                    sound::full_volume(),
                    played[i],
                ) by {
                    if i < done {
                        assert(all.take(done)[i] == all.take(done + 1)[i]);
                    }
                }
            }
        }
        assert(all.take(firing.len() as int) =~= all);
        let ghost reported = events.deep_view();
        let ghost seen = MonitorSnapshotModel {
            alarm: self.engine().snapshot(),
            game_status: game_status.deep_view(),
            last_checked: now,
        };
        events.push(
            MonitorEvent::Snapshot(
                MonitorSnapshot { alarm: self.engine.snapshot(), game_status, last_checked: now },
            ),
        );
        assert(events.deep_view() =~= reported.push(MonitorEventModel::Snapshot(seen)));
        assert(may_answer(*notifier, *player, all, notified, played));
        events
    }

    /// Asks the detectors, and does a round.
    pub fn check<D: GameDetector, N: Notifier, P: SoundPlayer>(
        &mut self,
        now: LocalDateTime,
        game_monitor: &mut GameMonitor<D>,
        notifier: &N,
        player: &P,
    ) -> (events: Vec<MonitorEvent>)
        ensures
            may_check(
                old(self).engine(),
                final(self).engine(),
                now,
                old(game_monitor).detectors(),
                final(game_monitor).detectors(),
                *notifier,
                *player,
                events.deep_view(),
            ),
            final(self).engine().consistent(),
    {
        let game_status = game_monitor.status();
        self.run_round(now, game_status, notifier, player)
    }
}

/// Whether a round may take the engine from `before` to `after` and report `events`, when the
/// games are as `statuses` says.
pub open spec fn is_round<N: Notifier, P: SoundPlayer>(
    before: EngineModel,
    after: EngineModel,
    now: LocalDateTime,
    statuses: Seq<GameStatusModel>,
    notifier: N,
    player: P,
    events: Seq<MonitorEventModel>,
) -> bool {
    let activity = game::overall_activity(statuses);
    let fired = alarm::alarms_fired(before.alarms, now, activity);
    &&& after == before.after_tick(now, activity)
    &&& exists|notified: Seq<Result<(), Seq<char>>>, played: Seq<SoundOutcome>|
        {
            &&& #[trigger] may_answer(notifier, player, fired, notified, played)
            &&& events == reports_of_all(fired, notified, played).push(
                MonitorEventModel::Snapshot(
                    MonitorSnapshotModel {
                        alarm: after.snapshot(),
                        game_status: statuses,
                        last_checked: now,
                    },
                ),
            )
        }
}

/// Whether a round may take the engine from `before` to `after` and report `events`, when the
/// detectors are each asked once for what is known of the games.
pub open spec fn may_check<D: GameDetector, N: Notifier, P: SoundPlayer>(
    before: EngineModel,
    after: EngineModel,
    now: LocalDateTime,
    detectors: Seq<D>,
    detectors_after: Seq<D>,
    notifier: N,
    player: P,
    events: Seq<MonitorEventModel>,
) -> bool {
    exists|statuses: Seq<GameStatusModel>|
        {
            &&& game::all_may_report(detectors, statuses, detectors_after)
            &&& #[trigger] is_round(before, after, now, statuses, notifier, player, events)
        }
}

/// Trouble with notifications or sounds keeps no alarm from being reported: each alarm that
/// goes off is reported.
pub proof fn every_fired_alarm_is_reported(
    fired: Seq<AlarmEventModel>,
    notified: Seq<Result<(), Seq<char>>>,
    played: Seq<SoundOutcome>,
    i: int,
)
    requires
        notified.len() == fired.len(),
        played.len() == fired.len(),
        0 <= i < fired.len(),
    ensures
        reports_of_all(fired, notified, played).contains(
            MonitorEventModel::AlarmFired {
                id: fired[i].id,
                reminder: fired[i].reminder,
                delayed_by_game: fired[i].delayed_by_game,
                fired_at: fired[i].fired_at,
                sound: sound_of(played[i]),
            },
        ),
    decreases fired.len(),
{
    let front = reports_of_all(fired.drop_last(), notified.drop_last(), played.drop_last());
    let back = reports_of(fired.last(), notified.last(), played.last());
    let report = MonitorEventModel::AlarmFired {
        id: fired[i].id,
        reminder: fired[i].reminder,
        delayed_by_game: fired[i].delayed_by_game,
        fired_at: fired[i].fired_at,
        sound: sound_of(played[i]),
    };
    if i < fired.len() - 1 {
        every_fired_alarm_is_reported(
            fired.drop_last(),
            notified.drop_last(),
            played.drop_last(),
            i,
        );
        assert(front.contains(report));
        let k = choose|k: int| 0 <= k < front.len() && front[k] == report;
        assert((front + back)[k] == report);
    } else {
        assert(back.last() == report);
        assert((front + back)[front.len() + back.len() - 1] == report);
    }
}

/// An alarm whose time has come, and for which no game has to end first, goes off in a round: the
/// user is notified with its reminder, its own sound is played at full volume from the start, and
/// it is reported by its number, as it was set, with the sound that is being played.
pub proof fn alarm_that_is_due_rings_in_a_round<N: Notifier, P: SoundPlayer>(
    before: EngineModel,
    after: EngineModel,
    now: LocalDateTime,
    statuses: Seq<GameStatusModel>,
    notifier: N,
    player: P,
    events: Seq<MonitorEventModel>,
    k: int,
) -> (answer: (Result<(), Seq<char>>, SoundOutcome))
    requires
        is_round(before, after, now, statuses, notifier, player, events),
        0 <= k < before.alarms.len(),
        ({
            let p = before.alarms[k];
            let playing = exists|i: int| 0 <= i < statuses.len() && (#[trigger] statuses[i]) is Active;
            ||| p.status == AlarmStatus::Scheduled && !now.is_before(p.alarm.scheduled_for) && (
            !p.alarm.delay_for_games || !playing)
            ||| p.status == AlarmStatus::WaitingForGameEnd && !playing
        }),
    ensures
        ({
            let p = before.alarms[k];
            let (notified, played) = answer;
            &&& notifier.may_notify(p.alarm.reminder, notified)
            &&& player.may_play(
                p.alarm.sound_path,
                (SoundPlaybackSettings { volume_percent: 100, fade_in: false }),
                played,
            )
            &&& events.contains(
                MonitorEventModel::AlarmFired {
                    id: p.id,
                    reminder: p.alarm.reminder,
                    delayed_by_game: p.delayed_by_game,
                    fired_at: now,
                    sound: match played {
                        Ok(sound) => sound,
                        Err(_) => None,
                    },
                },
            )
            &&& played matches Err(error) ==> events.contains(
                MonitorEventModel::SoundError(error.words()),
            )
        }),
{
    let p = before.alarms[k];
    let activity = game::overall_activity(statuses);
    let fired = alarm::alarms_fired(before.alarms, now, activity);
    let (notified, played) = choose|
        notified: Seq<Result<(), Seq<char>>>,
        played: Seq<SoundOutcome>,
    |
        {
            &&& #[trigger] may_answer(notifier, player, fired, notified, played)
            &&& events == reports_of_all(fired, notified, played).push(
                MonitorEventModel::Snapshot(
                    MonitorSnapshotModel {
                        alarm: after.snapshot(),
                        game_status: statuses,
                        last_checked: now,
                    },
                ),
            )
        };
    game::detectors_decide_together(statuses);
    let i = alarm::tick_deals_with_every_alarm(before, now, activity, k);
    every_fired_alarm_is_reported(fired, notified, played, i);
    let reports = reports_of_all(fired, notified, played);
    let report = MonitorEventModel::AlarmFired {
        id: p.id,
        reminder: p.alarm.reminder,
        delayed_by_game: p.delayed_by_game,
        fired_at: now,
        sound: sound_of(played[i]),
    };
    assert(reports.contains(report));
    let m = choose|m: int| 0 <= m < reports.len() && reports[m] == report;
    assert(events[m] == report);
    match played[i] {
        Err(error) => {
            lemma_sound_trouble_is_reported(fired, notified, played, i);
            let trouble = MonitorEventModel::SoundError(error.words());
            let t = choose|t: int| 0 <= t < reports.len() && reports[t] == trouble;
            assert(events[t] == trouble);
        },
        Ok(_) => {},
    }
    assert(fired[i].reminder == p.alarm.reminder);
    (notified[i], played[i])
}

proof fn lemma_sound_trouble_is_reported(
    fired: Seq<AlarmEventModel>,
    notified: Seq<Result<(), Seq<char>>>,
    played: Seq<SoundOutcome>,
    i: int,
)
    requires
        notified.len() == fired.len(),
        played.len() == fired.len(),
        0 <= i < fired.len(),
        played[i] is Err,
    ensures
        reports_of_all(fired, notified, played).contains(
            MonitorEventModel::SoundError(played[i]->Err_0.words()),
        ),
    decreases fired.len(),
{
    let front = reports_of_all(fired.drop_last(), notified.drop_last(), played.drop_last());
    let back = reports_of(fired.last(), notified.last(), played.last());
    let trouble = MonitorEventModel::SoundError(played[i]->Err_0.words());
    if i < fired.len() - 1 {
        lemma_sound_trouble_is_reported(
            fired.drop_last(),
            notified.drop_last(),
            played.drop_last(),
            i,
        );
        assert(front.contains(trouble));
        let k = choose|k: int| 0 <= k < front.len() && front[k] == trouble;
        assert((front + back)[k] == trouble);
    } else {
        let at = notification_trouble(notified.last()).len() as int;
        assert(back[at] == trouble);
        assert((front + back)[front.len() + at] == trouble);
    }
}

/// A round reports no alarm but those that it had and that are due, and none that waits for a
/// game while one is being played.
pub proof fn round_reports_no_other_alarm<N: Notifier, P: SoundPlayer>(
    before: EngineModel,
    after: EngineModel,
    now: LocalDateTime,
    statuses: Seq<GameStatusModel>,
    notifier: N,
    player: P,
    events: Seq<MonitorEventModel>,
    m: int,
) -> (k: int)
    requires
        is_round(before, after, now, statuses, notifier, player, events),
        0 <= m < events.len(),
        events[m] is AlarmFired,
    ensures
        0 <= k < before.alarms.len(),
        ({
            let p = before.alarms[k];
            let playing = exists|i: int| 0 <= i < statuses.len() && (#[trigger] statuses[i]) is Active;
            &&& events[m]->AlarmFired_id == p.id
            &&& events[m]->AlarmFired_reminder == p.alarm.reminder
            &&& events[m]->AlarmFired_delayed_by_game == p.delayed_by_game
            &&& events[m]->AlarmFired_fired_at == now
            &&& p.status == AlarmStatus::Scheduled && !now.is_before(p.alarm.scheduled_for)
                || p.status == AlarmStatus::WaitingForGameEnd
            &&& playing ==> !p.alarm.delay_for_games && p.status == AlarmStatus::Scheduled
        }),
{
    let activity = game::overall_activity(statuses);
    let fired = alarm::alarms_fired(before.alarms, now, activity);
    let (notified, played) = choose|
        notified: Seq<Result<(), Seq<char>>>,
        played: Seq<SoundOutcome>,
    |
        {
            &&& #[trigger] may_answer(notifier, player, fired, notified, played)
            &&& events == reports_of_all(fired, notified, played).push(
                MonitorEventModel::Snapshot(
                    MonitorSnapshotModel {
                        alarm: after.snapshot(),
                        game_status: statuses,
                        last_checked: now,
                    },
                ),
            )
        };
    game::detectors_decide_together(statuses);
    let i = lemma_report_is_of_an_event(fired, notified, played, m);
    alarm::event_is_that_of_an_alarm(before, now, activity, i)
}

proof fn lemma_report_is_of_an_event(
    fired: Seq<AlarmEventModel>,
    notified: Seq<Result<(), Seq<char>>>,
    played: Seq<SoundOutcome>,
    m: int,
) -> (i: int)
    requires
        notified.len() == fired.len(),
        played.len() == fired.len(),
        0 <= m < reports_of_all(fired, notified, played).len(),
        reports_of_all(fired, notified, played)[m] is AlarmFired,
    ensures
        0 <= i < fired.len(),
        ({
            let report = reports_of_all(fired, notified, played)[m];
            &&& report->AlarmFired_id == fired[i].id
            &&& report->AlarmFired_reminder == fired[i].reminder
            &&& report->AlarmFired_delayed_by_game == fired[i].delayed_by_game
            &&& report->AlarmFired_fired_at == fired[i].fired_at
        }),
    decreases fired.len(),
{
    let front = reports_of_all(fired.drop_last(), notified.drop_last(), played.drop_last());
    let back = reports_of(fired.last(), notified.last(), played.last());
    if m < front.len() {
        lemma_report_is_of_an_event(fired.drop_last(), notified.drop_last(), played.drop_last(), m)
    } else {
        assert((front + back)[m] == back[m - front.len()]);
        fired.len() - 1
    }
}

/// A round ends with a report of what there is to see then: the alarms that are left, what was
/// found of the games, and the time.
pub proof fn round_ends_with_what_there_is_to_see<N: Notifier, P: SoundPlayer>(
    before: EngineModel,
    after: EngineModel,
    now: LocalDateTime,
    statuses: Seq<GameStatusModel>,
    notifier: N,
    player: P,
    events: Seq<MonitorEventModel>,
)
    requires
        is_round(before, after, now, statuses, notifier, player, events),
    ensures
        events.len() > 0,
        events.last() is Snapshot,
        events.last()->Snapshot_0.alarm.alarms == after.alarms,
        events.last()->Snapshot_0.alarm.fired_at == after.fired_at,
        events.last()->Snapshot_0.game_status == statuses,
        events.last()->Snapshot_0.last_checked == now,
{
}

/// A sound that is to be tested is played at full volume from the start, and the report says
/// which sound is playing, or what went wrong. An alarm that is to be shown for a test is shown
/// whatever became of its sound. Any other command is not reported on.
pub proof fn tests_are_reported<P: SoundPlayer>(
    player: P,
    command: CommandModel,
    now: LocalDateTime,
    events: Seq<MonitorEventModel>,
) -> (outcome: SoundOutcome)
    requires
        may_report_after_command(player, command, now, events),
    ensures
        command matches CommandModel::TestSound(path) ==> {
            &&& player.may_play(
                path,
                (SoundPlaybackSettings { volume_percent: 100, fade_in: false }),
                outcome,
            )
            &&& events.len() == 1
            &&& outcome matches Ok(sound) ==> events[0]->TestSoundStarted_sound == sound
                && events[0] is TestSoundStarted && events[0]->TestSoundStarted_started_at == now
            &&& outcome matches Err(error) ==> events[0] == MonitorEventModel::SoundError(
                error.words(),
            )
        },
        command matches CommandModel::TestAlarmPopup(path) ==> {
            &&& player.may_play(
                path,
                (SoundPlaybackSettings { volume_percent: 100, fade_in: false }),
                outcome,
            )
            &&& events.len() > 0
            &&& events.last() is TestAlarmPopup
            &&& events.last()->TestAlarmPopup_fired_at == now
            &&& events.last()->TestAlarmPopup_sound == match outcome {
                Ok(sound) => sound,
                Err(_) => None,
            }
            &&& outcome is Ok ==> events.len() == 1
            &&& outcome matches Err(error) ==> events.len() == 2 && events[0]
                == MonitorEventModel::SoundError(error.words())
        },
        !(command is TestSound) && !(command is TestAlarmPopup) ==> events.len() == 0,
{
    match command {
        CommandModel::TestSound(path) => choose|outcome: SoundOutcome|
            {
                &&& #[trigger] player.may_play(path, sound::full_volume(), outcome)
                &&& events == test_sound_reports(outcome, now)
            },
        CommandModel::TestAlarmPopup(path) => choose|outcome: SoundOutcome|
            {
                &&& #[trigger] player.may_play(path, sound::full_volume(), outcome)
                &&& events == test_popup_reports(outcome, now)
            },
        _ => Ok(None),
    }
}

} // verus!
