use alarm_at_game_end::alarm::GameActivity;
use alarm_at_game_end::game::{
    GameDetectionConfig, GameDetector, GameMonitor, GameMonitorStatus, GameStatus,
    StaticUnavailableDetector,
};

struct StaticDetector(GameStatus);

impl GameDetector for StaticDetector {
    fn status(&mut self) -> GameStatus {
        self.0.clone()
    }

    fn apply_config(&mut self, _config: &GameDetectionConfig) {}
}

#[test]
fn monitor_reports_active_when_any_game_is_active() {
    let mut monitor = GameMonitor::new(vec![
        StaticDetector(GameStatus::inactive("League of Legends", None)),
        StaticDetector(GameStatus::active(
            "Another Game",
            Some("running".to_owned()),
        )),
    ]);

    let status = monitor.status();

    assert_eq!(status.activity(), GameActivity::Active);
    assert_eq!(status.label(), "Another Game active: running");
}

#[test]
fn monitor_does_not_block_alarm_when_detector_is_unavailable() {
    let mut monitor = GameMonitor::new(vec![StaticDetector(GameStatus::unavailable(
        "League of Legends",
        "not reachable",
    ))]);

    assert_eq!(monitor.status().activity(), GameActivity::Unavailable);
}

struct PortDetector(u16);

impl GameDetector for PortDetector {
    fn status(&mut self) -> GameStatus {
        GameStatus::inactive("Port", Some(format!("{}", self.0)))
    }

    fn apply_config(&mut self, config: &GameDetectionConfig) {
        self.0 = config.counter_strike_2_gsi_port;
    }
}

#[test]
fn config_reaches_every_detector() {
    let mut monitor = GameMonitor::new(vec![PortDetector(1), PortDetector(2)]);
    assert_eq!(
        monitor.status().statuses,
        vec![
            GameStatus::inactive("Port", Some("1".to_owned())),
            GameStatus::inactive("Port", Some("2".to_owned())),
        ]
    );

    monitor.apply_config(&GameDetectionConfig {
        league_lockfile_override: None,
        counter_strike_2_gsi_port: 9,
    });
    assert_eq!(
        monitor.status().statuses,
        vec![
            GameStatus::inactive("Port", Some("9".to_owned())),
            GameStatus::inactive("Port", Some("9".to_owned())),
        ]
    );
}

#[test]
fn detector_that_cannot_work() {
    let mut monitor = GameMonitor::new(vec![StaticUnavailableDetector {
        game: "League of Legends",
        message: "no client".to_owned(),
    }]);
    monitor.apply_config(&GameDetectionConfig::default());

    assert_eq!(
        monitor.status().statuses,
        vec![GameStatus::unavailable("League of Legends", "no client")]
    );
}

#[test]
fn status_of_one_game() {
    let active = GameStatus::active("Chess", None);
    let inactive = GameStatus::inactive("Chess", Some("lobby".to_owned()));
    let unavailable = GameStatus::unavailable("Chess", "no client");

    assert!(active.is_active() && !active.is_unavailable());
    assert!(!inactive.is_active() && !inactive.is_unavailable());
    assert!(!unavailable.is_active() && unavailable.is_unavailable());
    assert_eq!(active.activity(), GameActivity::Active);
    assert_eq!(inactive.activity(), GameActivity::Inactive);
    assert_eq!(unavailable.activity(), GameActivity::Unavailable);
    assert_eq!(active.label(), "Chess active");
    assert_eq!(inactive.label(), "Chess: lobby");
    assert_eq!(unavailable.label(), "Chess unavailable: no client");
}

#[test]
fn status_of_all_games() {
    let status = |statuses: Vec<GameStatus>| GameMonitorStatus { statuses };
    let inactive = GameStatus::inactive("Chess", None);
    let unavailable = GameStatus::unavailable("Go", "gone");

    assert_eq!(GameMonitorStatus::default().statuses, vec![]);
    assert_eq!(
        status(vec![inactive.clone(), unavailable.clone()]).activity(),
        GameActivity::Unavailable
    );
    assert_eq!(status(vec![inactive.clone()]).activity(), GameActivity::Inactive);
    assert_eq!(status(vec![]).activity(), GameActivity::Inactive);
    assert_eq!(status(vec![]).label(), "No game detectors configured");
    assert_eq!(status(vec![inactive.clone()]).label(), "Chess inactive");
    assert_eq!(
        status(vec![unavailable.clone(), unavailable.clone()]).label(),
        "Game detection unavailable"
    );
    assert_eq!(
        status(vec![inactive.clone(), unavailable.clone()])
            .clone()
            .label(),
        "No tracked game active (1 detector unavailable)"
    );
    assert_eq!(
        status(vec![inactive.clone(), inactive.clone()]).label(),
        "No tracked game active"
    );

    let active = GameStatus::active("Shogi", Some("mate".to_owned()));
    assert_eq!(
        status(vec![active.clone(), unavailable, inactive, active.clone(), active]).label(),
        "Shogi active: mate (+2 more)"
    );
}

#[test]
fn config_starts_without_a_port() {
    let config = GameDetectionConfig::default();

    assert_eq!(config.league_lockfile_override, None);
    assert_eq!(config.counter_strike_2_gsi_port, 0);
}

struct CountingDetector {
    name: &'static str,
    asked: usize,
    told: usize,
}

impl GameDetector for CountingDetector {
    fn status(&mut self) -> GameStatus {
        self.asked += 1;
        GameStatus::inactive(self.name, Some(format!("{} {}", self.asked, self.told)))
    }

    fn apply_config(&mut self, _config: &GameDetectionConfig) {
        self.told += 1;
    }
}

#[test]
fn detectors_are_asked_and_told_once_in_their_places() {
    let counting = |name: &'static str| CountingDetector {
        name,
        asked: 0,
        told: 0,
    };
    let mut monitor = GameMonitor::new(vec![counting("one"), counting("two")]);

    monitor.apply_config(&GameDetectionConfig {
        league_lockfile_override: None,
        counter_strike_2_gsi_port: 9,
    });
    assert_eq!(
        monitor.status().statuses,
        vec![
            GameStatus::inactive("one", Some("1 1".to_owned())),
            GameStatus::inactive("two", Some("1 1".to_owned())),
        ]
    );
    assert_eq!(
        monitor.status().statuses,
        vec![
            GameStatus::inactive("one", Some("2 1".to_owned())),
            GameStatus::inactive("two", Some("2 1".to_owned())),
        ]
    );
}
