//! Games, what is known of them, and the monitor that asks all detectors.
use vstd::prelude::*;

use crate::alarm::GameActivity;
use crate::seqs;
use crate::text;

verus! {

/// How games are detected.
#[derive(Debug, PartialEq, Eq)]
pub struct GameDetectionConfig {
    pub league_lockfile_override: Option<String>,
    pub counter_strike_2_gsi_port: u16,
}

/// The model of a detection configuration.
#[verifier::ext_equal]
pub struct DetectionConfigModel {
    pub league_lockfile_override: Option<Seq<char>>,
    pub counter_strike_2_gsi_port: u16,
}

impl DeepView for GameDetectionConfig {
    type V = DetectionConfigModel;

    open spec fn deep_view(&self) -> DetectionConfigModel {
        DetectionConfigModel {
            league_lockfile_override: self.league_lockfile_override.deep_view(),
            counter_strike_2_gsi_port: self.counter_strike_2_gsi_port,
        }
    }
}

impl Clone for GameDetectionConfig {
    fn clone(&self) -> (copy: GameDetectionConfig)
        ensures
            copy == *self,
    {
        GameDetectionConfig {
            league_lockfile_override: self.league_lockfile_override.clone(),
            counter_strike_2_gsi_port: self.counter_strike_2_gsi_port,
        }
    }
}

impl Default for GameDetectionConfig {
    fn default() -> (config: GameDetectionConfig)
        ensures
            config.deep_view() == (DetectionConfigModel {
                league_lockfile_override: None,
                counter_strike_2_gsi_port: 0,
            }),
    {
        GameDetectionConfig { league_lockfile_override: None, counter_strike_2_gsi_port: 0 }
    }
}

/// What is known of one game.
#[derive(Debug, PartialEq)]
pub enum GameStatus {
    Active { game: &'static str, detail: Option<String> },
    Inactive { game: &'static str, detail: Option<String> },
    Unavailable { game: &'static str, message: String },
}

/// The model of what is known of one game.
#[verifier::ext_equal]
pub enum GameStatusModel {
    Active { game: Seq<char>, detail: Option<Seq<char>> },
    Inactive { game: Seq<char>, detail: Option<Seq<char>> },
    Unavailable { game: Seq<char>, message: Seq<char> },
}

impl DeepView for GameStatus {
    type V = GameStatusModel;

    open spec fn deep_view(&self) -> GameStatusModel {
        match *self {
            GameStatus::Active { game, detail } => GameStatusModel::Active {
                game: game@,
                detail: detail.deep_view(),
            },
            GameStatus::Inactive { game, detail } => GameStatusModel::Inactive {
                game: game@,
                detail: detail.deep_view(),
            },
            GameStatus::Unavailable { game, message } => GameStatusModel::Unavailable {
                game: game@,
                message: message@,
            },
        }
    }
}

impl Clone for GameStatus {
    fn clone(&self) -> (copy: GameStatus)
        ensures
            copy == *self,
    {
        match self {
            GameStatus::Active { game, detail } => GameStatus::Active {
                game,
                detail: detail.clone(),
            },
            GameStatus::Inactive { game, detail } => GameStatus::Inactive {
                game,
                detail: detail.clone(),
            },
            GameStatus::Unavailable { game, message } => GameStatus::Unavailable {
                game,
                message: message.clone(),
            },
        }
    }
}

impl GameStatusModel {
    /// What this says of games as a whole.
    pub open spec fn activity(self) -> GameActivity {
        match self {
            GameStatusModel::Active { .. } => GameActivity::Active,
            GameStatusModel::Inactive { .. } => GameActivity::Inactive,
            GameStatusModel::Unavailable { .. } => GameActivity::Unavailable,
        }
    }

    /// What the user is shown.
    pub open spec fn label(self) -> Seq<char> {
        match self {
            GameStatusModel::Active { game, detail } => match detail {
                Some(d) => game + " active: "@ + d,
                None => game + " active"@,
            },
            GameStatusModel::Inactive { game, detail } => match detail {
                Some(d) => game + ": "@ + d,
                None => game + " inactive"@,
            },
            GameStatusModel::Unavailable { game, message } => game + " unavailable: "@ + message,
        }
    }
}

fn two_texts(first: &str, second: &str) -> (whole: String)
    ensures
        whole@ == first@ + second@,
{
    let mut whole = first.to_owned();
    whole.append(second);
    whole
}

fn three_texts(first: &str, second: &str, third: &str) -> (whole: String)
    ensures
        whole@ == first@ + second@ + third@,
{
    let mut whole = first.to_owned();
    whole.append(second);
    whole.append(third);
    whole
}

impl GameStatus {
    /// A game that is being played.
    pub fn active(game: &'static str, detail: Option<String>) -> (status: GameStatus)
        ensures
            status.deep_view() == (GameStatusModel::Active {
                game: game@,
                detail: detail.deep_view(),
            }),
    {
        GameStatus::Active { game, detail }
    }

    /// A game that is not being played.
    pub fn inactive(game: &'static str, detail: Option<String>) -> (status: GameStatus)
        ensures
            status.deep_view() == (GameStatusModel::Inactive {
                game: game@,
                detail: detail.deep_view(),
            }),
    {
        GameStatus::Inactive { game, detail }
    }

    /// A game of which nothing can be said.
    pub fn unavailable(game: &'static str, message: &str) -> (status: GameStatus)
        ensures
            status.deep_view() == (GameStatusModel::Unavailable {
                game: game@,
                message: message@,
            }),
    {
        GameStatus::Unavailable { game, message: message.to_owned() }
    }

    /// Whether the game is being played.
    pub fn is_active(&self) -> (active: bool)
        ensures
            active == (self.deep_view() is Active),
    {
        matches!(self, GameStatus::Active { .. })
    }

    /// Whether nothing can be said of the game.
    pub fn is_unavailable(&self) -> (unavailable: bool)
        ensures
            unavailable == (self.deep_view() is Unavailable),
    {
        matches!(self, GameStatus::Unavailable { .. })
    }

    /// What this says of games as a whole.
    pub fn activity(&self) -> (activity: GameActivity)
        ensures
            activity == self.deep_view().activity(),
    {
        if self.is_active() {
            GameActivity::Active
        } else if self.is_unavailable() {
            GameActivity::Unavailable
        } else {
            GameActivity::Inactive
        }
    }

    /// What the user is shown.
    pub fn label(&self) -> (label: String)
        ensures
            label@ == self.deep_view().label(),
    {
        match self {
            GameStatus::Active { game, detail } => match detail {
                Some(detail) => three_texts(game, " active: ", detail.as_str()),
                None => two_texts(game, " active"),
            },
            GameStatus::Inactive { game, detail } => match detail {
                Some(detail) => three_texts(game, ": ", detail.as_str()),
                None => two_texts(game, " inactive"),
            },
            GameStatus::Unavailable { game, message } => {
                three_texts(game, " unavailable: ", message.as_str())
            },
        }
    }
}

/// What is known of all games.
#[derive(Debug, PartialEq)]
pub struct GameMonitorStatus {
    pub statuses: Vec<GameStatus>,
}

impl DeepView for GameMonitorStatus {
    type V = Seq<GameStatusModel>;

    open spec fn deep_view(&self) -> Seq<GameStatusModel> {
        self.statuses.deep_view()
    }
}

impl Clone for GameMonitorStatus {
    fn clone(&self) -> (copy: GameMonitorStatus)
        ensures
            copy.deep_view() == self.deep_view(),
    {
        let statuses = self.statuses.clone();
        assert(statuses.deep_view() =~= self.statuses.deep_view());
        GameMonitorStatus { statuses }
    }
}

impl Default for GameMonitorStatus {
    fn default() -> (status: GameMonitorStatus)
        ensures
            status.deep_view() == Seq::<GameStatusModel>::empty(),
    {
        let statuses: Vec<GameStatus> = Vec::new();
        assert(statuses.deep_view() =~= Seq::empty());
        GameMonitorStatus { statuses }
    }
}

/// The games among `statuses` that are being played.
pub open spec fn active_games(statuses: Seq<GameStatusModel>) -> Seq<GameStatusModel> {
    statuses.filter(|s: GameStatusModel| s is Active)
}

/// The games among `statuses` of which nothing can be said.
pub open spec fn unavailable_games(statuses: Seq<GameStatusModel>) -> Seq<GameStatusModel> {
    statuses.filter(|s: GameStatusModel| s is Unavailable)
}

/// What is known of games as a whole: one is being played, or something cannot be said, or no
/// game is being played.
pub open spec fn overall_activity(statuses: Seq<GameStatusModel>) -> GameActivity {
    if active_games(statuses).len() > 0 {
        GameActivity::Active
    } else if unavailable_games(statuses).len() > 0 {
        GameActivity::Unavailable
    } else {
        GameActivity::Inactive
    }
}

/// What the user is shown of games as a whole.
pub open spec fn overall_label(statuses: Seq<GameStatusModel>) -> Seq<char> {
    let active = active_games(statuses);
    let unavailable = unavailable_games(statuses);
    if active.len() == 1 {
        active[0].label()
    } else if active.len() > 1 {
        active[0].label() + " (+"@ + text::decimal((active.len() - 1) as nat) + " more)"@
    } else if statuses.len() == 0 {
        "No game detectors configured"@
    } else if statuses.len() == 1 {
        statuses[0].label()
    } else if unavailable.len() == statuses.len() {
        "Game detection unavailable"@
    } else if unavailable.len() > 0 {
        "No tracked game active ("@ + text::decimal(unavailable.len()) + " detector unavailable)"@
    } else {
        "No tracked game active"@
    }
}

impl GameMonitorStatus {
    /// How many games are being played, how many are unavailable, and the first that is being
    /// played.
    fn counts(&self) -> (counts: (usize, usize, usize))
        ensures
            counts.0 == active_games(self.deep_view()).len(),
            counts.1 == unavailable_games(self.deep_view()).len(),
            counts.0 > 0 ==> counts.2 < self.statuses@.len() && self.deep_view()[counts.2 as int]
                == active_games(self.deep_view())[0],
    {
        let ghost all = self.deep_view();
        let ghost is_active = |s: GameStatusModel| s is Active;
        let ghost is_unavailable = |s: GameStatusModel| s is Unavailable;
        let mut active: usize = 0;
        let mut unavailable: usize = 0;
        let mut first: usize = 0;
        let mut i: usize = 0;
        proof {
            reveal(Seq::filter);
        }
        while i < self.statuses.len()
            invariant
                i <= self.statuses.len(),
                all == self.deep_view(),
                is_active == (|s: GameStatusModel| s is Active),
                is_unavailable == (|s: GameStatusModel| s is Unavailable),
                active == all.take(i as int).filter(is_active).len(),
                unavailable == all.take(i as int).filter(is_unavailable).len(),
                active <= i,
                unavailable <= i,
                active > 0 ==> first < i && all[first as int] == all.take(i as int).filter(
                    is_active,
                )[0],
            decreases self.statuses@.len() - i,
        {
            assert(all[i as int] == self.statuses@[i as int].deep_view());
            proof {
                all.take(i as int).lemma_filter_push(all[i as int], is_active);
                all.take(i as int).lemma_filter_push(all[i as int], is_unavailable);
                assert(all.take(i as int).push(all[i as int]) == all.take(i + 1));
            }
            if self.statuses[i].is_active() {
                if active == 0 {
                    first = i;
                }
                active = active + 1;
            }
            if self.statuses[i].is_unavailable() {
                unavailable = unavailable + 1;
            }
            i = i + 1;
        }
        assert(all.take(i as int) == all);
        (active, unavailable, first)
    }

    /// What is known of games as a whole.
    pub fn activity(&self) -> (activity: GameActivity)
        ensures
            activity == overall_activity(self.deep_view()),
    {
        let (active, unavailable, _) = self.counts();
        if active > 0 {
            GameActivity::Active
        } else if unavailable > 0 {
            GameActivity::Unavailable
        } else {
            GameActivity::Inactive
        }
    }

    /// What the user is shown of games as a whole.
    pub fn label(&self) -> (label: String)
        ensures
            label@ == overall_label(self.deep_view()),
    {
        let (active, unavailable, first) = self.counts();
        if active > 0 {
            assert(self.deep_view()[first as int] == self.statuses@[first as int].deep_view());
            let mut label = self.statuses[first].label();
            if active > 1 {
                label.append(" (+");
                text::push_decimal(&mut label, (active - 1) as u128);
                label.append(" more)");
            }
            return label;
        }
        if self.statuses.len() == 0 {
            "No game detectors configured".to_owned()
        } else if self.statuses.len() == 1 {
            assert(self.deep_view()[0] == self.statuses@[0].deep_view());
            self.statuses[0].label()
        } else if unavailable == self.statuses.len() {
            "Game detection unavailable".to_owned()
        } else if unavailable > 0 {
            let mut label = "No tracked game active (".to_owned();
            text::push_decimal(&mut label, unavailable as u128);
            label.append(" detector unavailable)");
            label
        } else {
            "No tracked game active".to_owned()
        }
    }
}

/// One game that is being played is enough to hold alarms back, whatever is known of the
/// others.
pub proof fn one_active_game_is_enough(statuses: Seq<GameStatusModel>)
    ensures
        overall_activity(statuses) is Active <==> exists|i: int|
            0 <= i < statuses.len() && #[trigger] statuses[i] is Active,
{
    let is_active = |s: GameStatusModel| s is Active;
    if active_games(statuses).len() > 0 {
        let k = seqs::filtered_was_there(statuses, is_active, 0);
        assert(statuses[k] is Active);
    }
    if exists|i: int| 0 <= i < statuses.len() && #[trigger] statuses[i] is Active {
        let k = choose|i: int| 0 <= i < statuses.len() && #[trigger] statuses[i] is Active;
        let i = seqs::passing_is_kept(statuses, is_active, k);
    }
}

/// Games as a whole are active when one is being played, unavailable when none is and of one
/// nothing can be said, and inactive when every detector says that none is.
pub proof fn detectors_decide_together(statuses: Seq<GameStatusModel>)
    ensures
        ({
            let playing = exists|i: int|
                0 <= i < statuses.len() && #[trigger] statuses[i] is Active;
            let unknown = exists|i: int|
                0 <= i < statuses.len() && #[trigger] statuses[i] is Unavailable;
            &&& overall_activity(statuses) == GameActivity::Active <==> playing
            &&& overall_activity(statuses) == GameActivity::Unavailable <==> !playing && unknown
            &&& overall_activity(statuses) == GameActivity::Inactive <==> !playing && !unknown
        }),
{
    one_active_game_is_enough(statuses);
    let is_unavailable = |s: GameStatusModel| s is Unavailable;
    if unavailable_games(statuses).len() > 0 {
        let k = seqs::filtered_was_there(statuses, is_unavailable, 0);
        assert(statuses[k] is Unavailable);
    }
    if exists|i: int| 0 <= i < statuses.len() && #[trigger] statuses[i] is Unavailable {
        let k = choose|i: int| 0 <= i < statuses.len() && #[trigger] statuses[i] is Unavailable;
        let i = seqs::passing_is_kept(statuses, is_unavailable, k);
    }
}

/// What is known of one game says the same of games as a whole.
pub proof fn one_detector_decides_alone(status: GameStatusModel)
    ensures
        overall_activity(seq![status]) == status.activity(),
        status.activity() == GameActivity::Active <==> status is Active,
        status.activity() == GameActivity::Unavailable <==> status is Unavailable,
{
    let all = seq![status];
    assert(all[0] == status);
    detectors_decide_together(all);
}

/// Something that knows whether a game is being played.
pub trait GameDetector: Send + Sized {
    /// Whether the detector, asked once, may report `status` and be `after` from then on;
    /// anything, unless a detector says more.
    open spec fn may_report(self, status: GameStatusModel, after: Self) -> bool {
        true
    }

    /// Whether the detector, told once to go by `config`, may be `after` from then on; anything,
    /// unless a detector says more.
    open spec fn may_take(self, config: DetectionConfigModel, after: Self) -> bool {
        true
    }

    /// What is known of the game now.
    fn status(&mut self) -> (status: GameStatus)
        ensures
            old(self).may_report(status.deep_view(), *final(self)),
    ;

    /// Goes by another configuration from now on.
    fn apply_config(&mut self, config: &GameDetectionConfig)
        ensures
            old(self).may_take(config.deep_view(), *final(self)),
    ;
}

/// A detector that could not be set up.
#[derive(Debug)]
pub struct StaticUnavailableDetector {
    pub game: &'static str,
    pub message: String,
}

impl GameDetector for StaticUnavailableDetector {
    open spec fn may_report(self, status: GameStatusModel, after: Self) -> bool {
        &&& status == (GameStatusModel::Unavailable { game: self.game@, message: self.message@ })
        &&& after == self
    }

    open spec fn may_take(self, config: DetectionConfigModel, after: Self) -> bool {
        after == self
    }

    fn status(&mut self) -> (status: GameStatus) {
        GameStatus::unavailable(self.game, self.message.as_str())
    }

    fn apply_config(&mut self, config: &GameDetectionConfig) {
    }
}

/// Whether detectors, each told once to go by `config`, may be `after` from then on, each in its
/// place.
pub open spec fn all_may_take<D: GameDetector>(
    before: Seq<D>,
    config: DetectionConfigModel,
    after: Seq<D>,
) -> bool {
    &&& after.len() == before.len()
    &&& forall|i: int|
        0 <= i < before.len() ==> (#[trigger] before[i]).may_take(config, after[i])
}

/// Whether detectors, each asked once, may report `statuses` and be `after` from then on, each in
/// its place.
pub open spec fn all_may_report<D: GameDetector>(
    before: Seq<D>,
    statuses: Seq<GameStatusModel>,
    after: Seq<D>,
) -> bool {
    &&& statuses.len() == before.len()
    &&& after.len() == before.len()
    &&& forall|i: int|
        0 <= i < before.len() ==> (#[trigger] before[i]).may_report(statuses[i], after[i])
}

/// Asks all detectors.
pub struct GameMonitor<D: GameDetector> {
    detectors: Vec<D>,
}

impl<D: GameDetector> GameMonitor<D> {
    /// The detectors that are asked, in order.
    pub closed spec fn detectors(&self) -> Seq<D> {
        self.detectors@
    }

    /// A monitor that asks the given detectors.
    pub fn new(detectors: Vec<D>) -> (monitor: GameMonitor<D>)
        ensures
            monitor.detectors() == detectors@,
    {
        GameMonitor { detectors }
    }

    /// Lets every detector go by another configuration: each is told once, and stays in its
    /// place.
    pub fn apply_config(&mut self, config: &GameDetectionConfig)
        ensures
            all_may_take(old(self).detectors(), config.deep_view(), final(self).detectors()),
    {
        let mut i: usize = 0;
        while i < self.detectors.len()
            invariant
                i <= self.detectors@.len(),
                self.detectors@.len() == old(self).detectors@.len(),
                forall|k: int|
                    i <= k < self.detectors@.len() ==> self.detectors@[k] == old(
                        self,
                    ).detectors@[k],
                forall|k: int|
                    0 <= k < i ==> (#[trigger] old(self).detectors@[k]).may_take(
                        config.deep_view(),
                        self.detectors@[k],
                    ),
            decreases self.detectors@.len() - i,
        {
            self.detectors[i].apply_config(config);
            i = i + 1;
        }
    }

    /// What all detectors report, in their order: each is asked once, and stays in its place.
    pub fn status(&mut self) -> (status: GameMonitorStatus)
        ensures
            all_may_report(old(self).detectors(), status.deep_view(), final(self).detectors()),
    {
        let mut statuses: Vec<GameStatus> = Vec::new();
        let mut i: usize = 0;
        while i < self.detectors.len()
            invariant
                i <= self.detectors@.len(),
                self.detectors@.len() == old(self).detectors@.len(),
                statuses@.len() == i,
                forall|k: int|
                    i <= k < self.detectors@.len() ==> self.detectors@[k] == old(
                        self,
                    ).detectors@[k],
                forall|k: int|
                    0 <= k < i ==> (#[trigger] old(self).detectors@[k]).may_report(
                        statuses@[k].deep_view(),
                        self.detectors@[k],
                    ),
            decreases self.detectors@.len() - i,
        {
            let status = self.detectors[i].status();
            statuses.push(status);
            i = i + 1;
        }
        GameMonitorStatus { statuses }
    }
}

/// What is shown of games as a whole is what is shown of the one that is being played; of several
/// that are, the first and how many more there are; of a single detector, what it says.
pub proof fn label_tells_of_the_game_that_is_on(statuses: Seq<GameStatusModel>, k: int)
    requires
        0 <= k < statuses.len(),
        statuses[k] is Active,
        forall|j: int| 0 <= j < k ==> !(#[trigger] statuses[j] is Active),
    ensures
        (forall|j: int| k < j < statuses.len() ==> !(#[trigger] statuses[j] is Active))
            ==> overall_label(statuses) == statuses[k].label(),
        text::begins_with(overall_label(statuses), statuses[k].label()),
{
    let is_active = |s: GameStatusModel| s is Active;
    let front = statuses.take(k);
    let back = statuses.skip(k + 1);
    seqs::filter_of_failing(front, is_active);
    lemma_filter_parts(front, seq![statuses[k]] + back, is_active);
    lemma_filter_parts(seq![statuses[k]], back, is_active);
    seqs::filter_of_passing(seq![statuses[k]], is_active);
    assert(statuses =~= front + (seq![statuses[k]] + back));
    let active = active_games(statuses);
    assert(active =~= seq![statuses[k]] + back.filter(is_active));
    assert(active[0] == statuses[k]);
    if forall|j: int| k < j < statuses.len() ==> !(#[trigger] statuses[j] is Active) {
        assert forall|i: int| 0 <= i < back.len() implies !is_active(#[trigger] back[i]) by {
            assert(back[i] == statuses[k + 1 + i]);
        }
        seqs::filter_of_failing(back, is_active);
    }
    let label = statuses[k].label();
    assert(overall_label(statuses).subrange(0, label.len() as int) =~= label);
}

proof fn lemma_filter_parts<T>(a: Seq<T>, b: Seq<T>, pred: spec_fn(T) -> bool)
    ensures
        (a + b).filter(pred) == a.filter(pred) + b.filter(pred),
    decreases b.len(),
{
    reveal(Seq::filter);
    if b.len() == 0 {
        assert(a + b =~= a);
        assert(a.filter(pred) + b.filter(pred) =~= a.filter(pred));
    } else {
        lemma_filter_parts(a, b.drop_last(), pred);
        assert((a + b).drop_last() =~= a + b.drop_last());
        assert((a + b).filter(pred) =~= a.filter(pred) + b.filter(pred));
    }
}

/// What is shown of a game begins with its name.
pub proof fn label_names_the_game(game: Seq<char>, detail: Option<Seq<char>>, message: Seq<char>)
    ensures
        text::begins_with((GameStatusModel::Active { game, detail }).label(), game),
        text::begins_with((GameStatusModel::Inactive { game, detail }).label(), game),
        text::begins_with((GameStatusModel::Unavailable { game, message }).label(), game),
{
    let active = (GameStatusModel::Active { game, detail }).label();
    let inactive = (GameStatusModel::Inactive { game, detail }).label();
    let unavailable = (GameStatusModel::Unavailable { game, message }).label();
    assert(active.subrange(0, game.len() as int) =~= game);
    assert(inactive.subrange(0, game.len() as int) =~= game);
    assert(unavailable.subrange(0, game.len() as int) =~= game);
}

} // verus!
