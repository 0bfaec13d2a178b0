use std::sync::{Arc, Mutex};

use alarm_at_game_end::alarm::{Alarm, AlarmStatus, PendingAlarmSnapshot};
use alarm_at_game_end::game::{
    GameDetectionConfig, GameDetector, GameMonitor, GameMonitorStatus, GameStatus,
};
use alarm_at_game_end::notifier::{NotificationError, Notifier};
use alarm_at_game_end::sound::{SoundError, SoundHandle, SoundPlaybackSettings, SoundPlayer};
use alarm_at_game_end::time::LocalDateTime;
use alarm_at_game_end::worker::{
    note_sound, play_alarm_sound, AlarmMonitor, MonitorCommand, MonitorEvent, ROUND_INTERVAL_MILLIS,
};

#[derive(Clone, Default)]
struct RecordingSoundPlayer {
    paths: Arc<Mutex<Vec<Option<String>>>>,
    settings: Arc<Mutex<Vec<SoundPlaybackSettings>>>,
    stopped_paths: Arc<Mutex<Vec<String>>>,
}

impl RecordingSoundPlayer {
    fn paths(&self) -> Vec<Option<String>> {
        self.paths.lock().expect("paths lock").clone()
    }

    fn stopped_paths(&self) -> Vec<String> {
        self.stopped_paths
            .lock()
            .expect("stopped paths lock")
            .clone()
    }

    fn settings(&self) -> Vec<SoundPlaybackSettings> {
        self.settings.lock().expect("settings lock").clone()
    }

    /// Stops the sound that was started under a handle: the handle numbers the calls.
    fn stop(&self, sound: SoundHandle) {
        let path = self.paths()[sound.id as usize].clone().expect("a path");
        self.stopped_paths
            .lock()
            .expect("stopped paths lock")
            .push(path);
    }
}

impl SoundPlayer for RecordingSoundPlayer {
    fn play(
        &self,
        sound_path: Option<String>,
        settings: SoundPlaybackSettings,
    ) -> Result<Option<SoundHandle>, SoundError> {
        let mut paths = self.paths.lock().expect("paths lock");
        let id = paths.len() as u64;
        paths.push(sound_path.clone());
        self.settings.lock().expect("settings lock").push(settings);

        Ok(sound_path.map(|_path| SoundHandle { id }))
    }
}

struct BrokenSoundPlayer;

impl SoundPlayer for BrokenSoundPlayer {
    fn play(
        &self,
        _sound_path: Option<String>,
        _settings: SoundPlaybackSettings,
    ) -> Result<Option<SoundHandle>, SoundError> {
        Err(SoundError::OutputDevice("no device".to_owned()))
    }
}

#[derive(Clone, Default)]
struct RecordingNotifier {
    messages: Arc<Mutex<Vec<String>>>,
}

impl RecordingNotifier {
    fn messages(&self) -> Vec<String> {
        self.messages.lock().expect("messages lock").clone()
    }
}

impl Notifier for RecordingNotifier {
    fn alarm(&self, label: &str) -> Result<(), NotificationError> {
        self.messages
            .lock()
            .expect("messages lock")
            .push(label.to_owned());
        Ok(())
    }
}

struct BrokenNotifier;

impl Notifier for BrokenNotifier {
    fn alarm(&self, _label: &str) -> Result<(), NotificationError> {
        Err(NotificationError::Show("no bus".to_owned()))
    }
}

struct Game {
    active: bool,
    port: u16,
}

impl GameDetector for Game {
    fn status(&mut self) -> GameStatus {
        if self.active {
            GameStatus::active("Game", None)
        } else {
            GameStatus::inactive("Game", Some(format!("port {}", self.port)))
        }
    }

    fn apply_config(&mut self, config: &GameDetectionConfig) {
        self.port = config.counter_strike_2_gsi_port;
    }
}

fn game(active: bool) -> GameMonitor<Game> {
    GameMonitor::new(vec![Game { active, port: 1 }])
}

fn at(unix_seconds: i64) -> LocalDateTime {
    LocalDateTime::from_parts(unix_seconds, 0, 0).expect("a time of the calendar")
}

fn schedule(monitor: &mut AlarmMonitor, id: u64, reminder: &str, time: i64) {
    let outcome = monitor.handle_command(
        MonitorCommand::Schedule {
            id,
            alarm: Alarm::with_sound(reminder, at(time), true, Some(format!("{reminder}.mp3"))),
        },
        at(0),
        &mut game(false),
        &RecordingSoundPlayer::default(),
    );

    assert!(outcome.events.is_empty());
    assert!(!outcome.shutdown);
}

#[test]
fn play_alarm_sound_forwards_configured_path() {
    let player = RecordingSoundPlayer::default();
    let mut events = vec![];
    let sound_path = "C:/sounds/alarm.mp3".to_owned();

    let sound = play_alarm_sound(Some(sound_path.clone()), &mut events, &player);

    assert_eq!(player.paths(), vec![Some(sound_path)]);
    assert!(sound.is_some());
}

#[test]
fn returned_sound_handle_stops_playback() {
    let player = RecordingSoundPlayer::default();
    let mut events = vec![];
    let sound_path = "C:/sounds/alarm.mp3".to_owned();

    let sound =
        play_alarm_sound(Some(sound_path.clone()), &mut events, &player).expect("sound handle");
    player.stop(sound);

    assert_eq!(player.stopped_paths(), vec![sound_path]);
}

#[test]
fn sounds_are_played_in_full() {
    let player = RecordingSoundPlayer::default();
    let mut events = vec![];

    assert!(play_alarm_sound(None, &mut events, &player).is_none());
    assert!(events.is_empty());
    assert_eq!(player.settings(), vec![SoundPlaybackSettings::default()]);
}

#[test]
fn sound_that_fails_is_reported() {
    let mut events = vec![];

    assert!(play_alarm_sound(Some("a.mp3".to_owned()), &mut events, &BrokenSoundPlayer).is_none());
    assert!(note_sound(Err(SoundError::Decode("bad".to_owned())), &mut events).is_none());
    assert_eq!(
        note_sound(Ok(Some(SoundHandle { id: 4 })), &mut events),
        Some(SoundHandle { id: 4 })
    );

    let messages: Vec<String> = events
        .into_iter()
        .map(|event| match event {
            MonitorEvent::SoundError(message) => message,
            other => panic!("not a sound error: {other:?}"),
        })
        .collect();
    assert_eq!(
        messages,
        vec![
            "could not open default audio output: no device".to_owned(),
            "could not decode alarm sound file: bad".to_owned(),
        ]
    );
}

#[test]
fn round_reports_alarms_and_then_the_snapshot() {
    let player = RecordingSoundPlayer::default();
    let notifier = RecordingNotifier::default();
    let mut monitor = AlarmMonitor::new(vec![]);
    schedule(&mut monitor, 3, "Later", 300);
    schedule(&mut monitor, 4, "Now", 100);

    let mut events = monitor.check(at(200), &mut game(false), &notifier, &player);

    assert_eq!(events.len(), 2);
    assert_eq!(notifier.messages(), vec!["Now".to_owned()]);
    assert_eq!(player.paths(), vec![Some("Now.mp3".to_owned())]);
    match events.remove(0) {
        MonitorEvent::AlarmFired {
            id,
            reminder,
            delayed_by_game,
            fired_at,
            sound,
        } => {
            assert_eq!(id, 4);
            assert_eq!(reminder, "Now");
            assert!(!delayed_by_game);
            assert_eq!(fired_at, at(200));
            assert_eq!(sound, Some(SoundHandle { id: 0 }));
        }
        other => panic!("not an alarm: {other:?}"),
    }
    match events.remove(0) {
        MonitorEvent::Snapshot(snapshot) => {
            assert_eq!(snapshot.alarm.alarms.len(), 1);
            assert_eq!(snapshot.alarm.alarms[0].id, 3);
            assert_eq!(snapshot.alarm.fired_at, Some(at(200)));
            assert_eq!(snapshot.last_checked, at(200));
            assert_eq!(snapshot.game_status.label(), "Game: port 1");
        }
        other => panic!("not a snapshot: {other:?}"),
    }
}

#[test]
fn game_holds_alarms_back() {
    let player = RecordingSoundPlayer::default();
    let notifier = RecordingNotifier::default();
    let mut monitor = AlarmMonitor::new(vec![]);
    schedule(&mut monitor, 1, "Wait", 100);

    assert_eq!(
        monitor
            .check(at(200), &mut game(true), &notifier, &player)
            .len(),
        1
    );
    assert!(notifier.messages().is_empty());

    let events = monitor.check(at(300), &mut game(false), &notifier, &player);
    assert!(matches!(
        events[0],
        MonitorEvent::AlarmFired {
            delayed_by_game: true,
            ..
        }
    ));
}

#[test]
fn failed_notice_and_sound_come_before_the_alarm() {
    let mut monitor = AlarmMonitor::new(vec![PendingAlarmSnapshot {
        id: 9,
        alarm: Alarm::new("Old", at(50), false),
        status: AlarmStatus::Scheduled,
        delayed_by_game: false,
    }]);

    let events = monitor.run_round(
        at(100),
        GameMonitorStatus::default(),
        &BrokenNotifier,
        &BrokenSoundPlayer,
    );

    assert_eq!(events.len(), 4);
    assert!(
        matches!(&events[0], MonitorEvent::NotificationError(m) if m == "could not show system notification: no bus")
    );
    assert!(matches!(&events[1], MonitorEvent::SoundError(_)));
    assert!(matches!(
        &events[2],
        MonitorEvent::AlarmFired {
            id: 9,
            sound: None,
            ..
        }
    ));
    assert!(matches!(&events[3], MonitorEvent::Snapshot(_)));
}

#[test]
fn commands_change_the_alarms() {
    let player = RecordingSoundPlayer::default();
    let notifier = RecordingNotifier::default();
    let mut games = game(false);
    let mut monitor = AlarmMonitor::new(vec![]);
    schedule(&mut monitor, 1, "a", 100);
    schedule(&mut monitor, 2, "b", 100);

    monitor.handle_command(MonitorCommand::CancelAlarm(1), at(0), &mut games, &player);
    let events = monitor.check(at(50), &mut games, &notifier, &player);
    assert!(
        matches!(&events[0], MonitorEvent::Snapshot(snapshot) if snapshot.alarm.alarms.len() == 1)
    );

    monitor.handle_command(MonitorCommand::Cancel, at(0), &mut games, &player);
    let events = monitor.check(at(200), &mut games, &notifier, &player);
    assert!(
        matches!(&events[0], MonitorEvent::Snapshot(snapshot) if snapshot.alarm.status == AlarmStatus::Idle)
    );
    assert!(notifier.messages().is_empty());

    monitor.handle_command(
        MonitorCommand::SetGameDetectionConfig(GameDetectionConfig {
            league_lockfile_override: None,
            counter_strike_2_gsi_port: 77,
        }),
        at(0),
        &mut games,
        &player,
    );
    assert_eq!(games.status().label(), "Game: port 77");

    let outcome = monitor.handle_command(MonitorCommand::Shutdown, at(0), &mut games, &player);
    assert!(outcome.shutdown);
    assert!(outcome.events.is_empty());
    assert_eq!(ROUND_INTERVAL_MILLIS, 750);
}

#[test]
fn tests_of_sound_and_popup() {
    let player = RecordingSoundPlayer::default();
    let mut games = game(false);
    let mut monitor = AlarmMonitor::new(vec![]);

    let outcome = monitor.handle_command(
        MonitorCommand::TestSound(Some("t.mp3".to_owned())),
        at(7),
        &mut games,
        &player,
    );
    assert!(!outcome.shutdown);
    match &outcome.events[..] {
        [MonitorEvent::TestSoundStarted { sound, started_at }] => {
            assert_eq!(*sound, Some(SoundHandle { id: 0 }));
            assert_eq!(*started_at, at(7));
        }
        other => panic!("not a test sound: {other:?}"),
    }

    let outcome =
        monitor.handle_command(MonitorCommand::TestAlarmPopup(None), at(8), &mut games, &player);
    match &outcome.events[..] {
        [MonitorEvent::TestAlarmPopup {
            reminder,
            fired_at,
            sound,
        }] => {
            assert_eq!(reminder, "Test alarm notification");
            assert_eq!(*fired_at, at(8));
            assert_eq!(*sound, None);
        }
        other => panic!("not a test popup: {other:?}"),
    }

    let outcome = monitor.handle_command(
        MonitorCommand::TestSound(None),
        at(9),
        &mut games,
        &BrokenSoundPlayer,
    );
    assert!(matches!(
        &outcome.events[..],
        [MonitorEvent::SoundError(_)]
    ));

    let outcome = monitor.handle_command(
        MonitorCommand::TestAlarmPopup(None),
        at(9),
        &mut games,
        &BrokenSoundPlayer,
    );
    assert!(matches!(
        &outcome.events[..],
        [
            MonitorEvent::SoundError(_),
            MonitorEvent::TestAlarmPopup { sound: None, .. }
        ]
    ));
}

#[test]
fn alarms_of_a_monitor_stay_in_order() {
    let player = RecordingSoundPlayer::default();
    let notifier = RecordingNotifier::default();
    let mut games = game(false);
    let mut monitor = AlarmMonitor::new(vec![]);
    schedule(&mut monitor, 3, "late", 300);
    schedule(&mut monitor, 2, "early", 100);
    schedule(&mut monitor, 1, "between", 200);
    let mut seen = |now: i64| -> Vec<u64> {
        let events = monitor.check(at(now), &mut games, &notifier, &player);
        match events.last() {
            Some(MonitorEvent::Snapshot(snapshot)) => {
                snapshot.alarm.alarms.iter().map(|alarm| alarm.id).collect()
            }
            _ => panic!("a snapshot comes last"),
        }
    };

    assert_eq!(seen(0), vec![2, 1, 3]);
    assert_eq!(seen(100), vec![1, 3]);
    assert_eq!(seen(300), Vec::<u64>::new());
}
