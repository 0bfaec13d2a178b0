//! Alarms, the engine that fires them, and the reading of alarm times.
use vstd::prelude::*;

use crate::order;
use crate::order::{put_in_order, Ranked, Sortable};
use crate::seqs;
use crate::text;
use crate::time;
use crate::time::{
    local_offsets, LocalDateTime, LocalOffsets, FIRST_DAY, LAST_DAY, SECONDS_PER_DAY,
};

verus! {

/// What is known of the games that alarms can wait for.
#[derive(Clone, Copy, Debug, PartialEq, Eq, Structural)]
pub enum GameActivity {
    Active,
    Inactive,
    Unavailable,
}

impl GameActivity {
    /// Whether a game is being played.
    pub fn is_active(self) -> (active: bool)
        ensures
            active == (self is Active),
    {
        matches!(self, GameActivity::Active)
    }
}

impl DeepView for GameActivity {
    type V = GameActivity;

    open spec fn deep_view(&self) -> GameActivity {
        *self
    }
}

/// The number by which an alarm is known.
pub type AlarmId = u64;

/// An alarm as the user set it.
#[derive(Debug, PartialEq)]
pub struct Alarm {
    pub reminder: String,
    pub scheduled_for: LocalDateTime,
    pub delay_for_games: bool,
    pub sound_path: Option<String>,
}

/// The model of an alarm.
#[verifier::ext_equal]
pub struct AlarmModel {
    pub reminder: Seq<char>,
    pub scheduled_for: LocalDateTime,
    pub delay_for_games: bool,
    pub sound_path: Option<Seq<char>>,
}

impl DeepView for Alarm {
    type V = AlarmModel;

    open spec fn deep_view(&self) -> AlarmModel {
        AlarmModel {
            reminder: self.reminder@,
            scheduled_for: self.scheduled_for,
            delay_for_games: self.delay_for_games,
            sound_path: self.sound_path.deep_view(),
        }
    }
}

impl Clone for Alarm {
    fn clone(&self) -> (copy: Alarm)
        ensures
            copy == *self,
    {
        Alarm {
            reminder: self.reminder.clone(),
            scheduled_for: self.scheduled_for,
            delay_for_games: self.delay_for_games,
            sound_path: self.sound_path.clone(),
        }
    }
}

impl Alarm {
    /// An alarm without a sound.
    pub fn new(reminder: &str, scheduled_for: LocalDateTime, delay_for_games: bool) -> (alarm:
        Alarm)
        ensures
            alarm.deep_view() == (AlarmModel {
                reminder: reminder@,
                scheduled_for,
                delay_for_games,
                sound_path: None,
            }),
    {
        Alarm::with_sound(reminder, scheduled_for, delay_for_games, None)
    }

    /// An alarm with the path of the sound to play, if any.
    pub fn with_sound(
        reminder: &str,
        scheduled_for: LocalDateTime,
        delay_for_games: bool,
        sound_path: Option<String>,
    ) -> (alarm: Alarm)
        ensures
            alarm.deep_view() == (AlarmModel {
                reminder: reminder@,
                scheduled_for,
                delay_for_games,
                sound_path: sound_path.deep_view(),
            }),
    {
        Alarm { reminder: reminder.to_owned(), scheduled_for, delay_for_games, sound_path }
    }
}

/// Where an alarm, or the list of alarms as a whole, stands.
#[derive(Clone, Copy, Debug, PartialEq, Eq, Structural)]
pub enum AlarmStatus {
    Idle,
    Scheduled,
    WaitingForGameEnd,
    Fired,
}

impl DeepView for AlarmStatus {
    type V = AlarmStatus;

    open spec fn deep_view(&self) -> AlarmStatus {
        *self
    }
}

impl AlarmStatus {
    /// The status in words.
    pub open spec fn words(self) -> Seq<char> {
        match self {
            AlarmStatus::Idle => "Idle"@,
            AlarmStatus::Scheduled => "Scheduled"@,
            AlarmStatus::WaitingForGameEnd => "Waiting for game end"@,
            AlarmStatus::Fired => "Fired"@,
        }
    }

    /// The status in words.
    pub fn as_str(self) -> (words: &'static str)
        ensures
            words@ == self.words(),
    {
        match self {
            AlarmStatus::Idle => "Idle",
            AlarmStatus::Scheduled => "Scheduled",
            AlarmStatus::WaitingForGameEnd => "Waiting for game end",
            AlarmStatus::Fired => "Fired",
        }
    }
}

/// An alarm that went off.
#[derive(Debug, PartialEq)]
pub struct AlarmEvent {
    pub id: AlarmId,
    pub reminder: String,
    pub scheduled_for: LocalDateTime,
    pub fired_at: LocalDateTime,
    pub delayed_by_game: bool,
    pub sound_path: Option<String>,
}

/// The model of an alarm that went off.
#[verifier::ext_equal]
pub struct AlarmEventModel {
    pub id: AlarmId,
    pub reminder: Seq<char>,
    pub scheduled_for: LocalDateTime,
    pub fired_at: LocalDateTime,
    pub delayed_by_game: bool,
    pub sound_path: Option<Seq<char>>,
}

impl DeepView for AlarmEvent {
    type V = AlarmEventModel;

    open spec fn deep_view(&self) -> AlarmEventModel {
        AlarmEventModel {
            id: self.id,
            reminder: self.reminder@,
            scheduled_for: self.scheduled_for,
            fired_at: self.fired_at,
            delayed_by_game: self.delayed_by_game,
            sound_path: self.sound_path.deep_view(),
        }
    }
}

/// An alarm that has not gone off yet.
#[derive(Debug, PartialEq)]
pub struct PendingAlarmSnapshot {
    pub id: AlarmId,
    pub alarm: Alarm,
    pub status: AlarmStatus,
    pub delayed_by_game: bool,
}

/// The model of an alarm that has not gone off yet.
#[verifier::ext_equal]
pub struct PendingAlarmModel {
    pub id: AlarmId,
    pub alarm: AlarmModel,
    pub status: AlarmStatus,
    pub delayed_by_game: bool,
}

impl DeepView for PendingAlarmSnapshot {
    type V = PendingAlarmModel;

    open spec fn deep_view(&self) -> PendingAlarmModel {
        PendingAlarmModel {
            id: self.id,
            alarm: self.alarm.deep_view(),
            status: self.status,
            delayed_by_game: self.delayed_by_game,
        }
    }
}

impl Clone for PendingAlarmSnapshot {
    fn clone(&self) -> (copy: PendingAlarmSnapshot)
        ensures
            copy == *self,
    {
        PendingAlarmSnapshot {
            id: self.id,
            alarm: self.alarm.clone(),
            status: self.status,
            delayed_by_game: self.delayed_by_game,
        }
    }
}

/// Alarms come in the order of their times; alarms for the same time, in that of their numbers.
impl Ranked for PendingAlarmModel {
    open spec fn precedes(self, other: PendingAlarmModel) -> bool {
        ||| self.alarm.scheduled_for.is_before(other.alarm.scheduled_for)
        ||| self.alarm.scheduled_for.is_same_instant(other.alarm.scheduled_for) && self.id
            < other.id
    }

    proof fn precedes_is_asymmetric(a: PendingAlarmModel, b: PendingAlarmModel) {
    }

    proof fn precedes_is_negatively_transitive(
        a: PendingAlarmModel,
        b: PendingAlarmModel,
        c: PendingAlarmModel,
    ) {
    }
}

impl Sortable for PendingAlarmSnapshot {
    fn comes_before(&self, other: &PendingAlarmSnapshot) -> (before: bool) {
        self.alarm.scheduled_for.before(other.alarm.scheduled_for) || (
        self.alarm.scheduled_for.same_instant(other.alarm.scheduled_for) && self.id < other.id)
    }
}

/// All there is to see of an alarm engine.
#[derive(Debug)]
pub struct AlarmSnapshot {
    pub status: AlarmStatus,
    pub alarms: Vec<PendingAlarmSnapshot>,
    pub fired_at: Option<LocalDateTime>,
    pub last_fired_reminder: Option<String>,
}

/// The model of what there is to see of an alarm engine.
#[verifier::ext_equal]
pub struct AlarmSnapshotModel {
    pub status: AlarmStatus,
    pub alarms: Seq<PendingAlarmModel>,
    pub fired_at: Option<LocalDateTime>,
    pub last_fired_reminder: Option<Seq<char>>,
}

impl DeepView for AlarmSnapshot {
    type V = AlarmSnapshotModel;

    open spec fn deep_view(&self) -> AlarmSnapshotModel {
        AlarmSnapshotModel {
            status: self.status,
            alarms: self.alarms.deep_view(),
            fired_at: self.fired_at,
            last_fired_reminder: self.last_fired_reminder.deep_view(),
        }
    }
}

/// A copy of a list of alarms.
pub fn copy_alarms(alarms: &Vec<PendingAlarmSnapshot>) -> (copy: Vec<PendingAlarmSnapshot>)
    ensures
        copy.deep_view() == alarms.deep_view(),
{
    let copy = alarms.clone();
    assert(copy.deep_view() =~= alarms.deep_view());
    copy
}

impl Clone for AlarmSnapshot {
    fn clone(&self) -> (copy: AlarmSnapshot)
        ensures
            copy.deep_view() == self.deep_view(),
    {
        AlarmSnapshot {
            status: self.status,
            alarms: copy_alarms(&self.alarms),
            fired_at: self.fired_at,
            last_fired_reminder: self.last_fired_reminder.clone(),
        }
    }
}

/// The number after `id`, or `id` itself if it is the last number there is.
pub open spec fn id_after(id: AlarmId) -> AlarmId {
    if id < u64::MAX {
        (id + 1) as u64
    } else {
        id
    }
}

/// The larger of two numbers.
pub open spec fn larger(a: AlarmId, b: AlarmId) -> AlarmId {
    if a < b {
        b
    } else {
        a
    }
}

/// The lowest number above those of all the alarms; 1 if there are none.
pub open spec fn next_id(alarms: Seq<PendingAlarmModel>) -> AlarmId
    decreases alarms.len(),
{
    if alarms.len() == 0 {
        1
    } else {
        larger(next_id(alarms.drop_last()), id_after(alarms.last().id))
    }
}

/// The lowest number above those of all the alarms; 1 if there are none.
pub fn next_alarm_id_after(alarms: &Vec<PendingAlarmSnapshot>) -> (id: AlarmId)
    ensures
        id == next_id(alarms.deep_view()),
{
    let mut next: AlarmId = 1;
    let mut i: usize = 0;
    while i < alarms.len()
        invariant
            i <= alarms@.len(),
            next == next_id(alarms.deep_view().take(i as int)),
        decreases alarms@.len() - i,
    {
        let after: AlarmId = alarms[i].id.saturating_add(1);
        assert(alarms.deep_view().take(i + 1).drop_last() == alarms.deep_view().take(i as int));
        assert(alarms.deep_view().take(i + 1).last() == alarms@[i as int].deep_view());
        if next < after {
            next = after;
        }
        i = i + 1;
    }
    assert(alarms.deep_view().take(i as int) == alarms.deep_view());
    next
}

/// The next number is above that of every alarm, unless numbers have run out.
pub proof fn next_id_is_fresh(alarms: Seq<PendingAlarmModel>, i: int)
    requires
        0 <= i < alarms.len(),
    ensures
        alarms[i].id < next_id(alarms) || next_id(alarms) == u64::MAX,
    decreases alarms.len(),
{
    if i < alarms.len() - 1 {
        next_id_is_fresh(alarms.drop_last(), i);
        assert(alarms.drop_last()[i] == alarms[i]);
    }
}

/// Whether two alarms are the same to the user: everything about them is the same, and they are
/// due at the same point in time.
pub open spec fn alike(a: PendingAlarmModel, b: PendingAlarmModel) -> bool {
    &&& a.id == b.id
    &&& a.status == b.status
    &&& a.delayed_by_game == b.delayed_by_game
    &&& a.alarm.reminder == b.alarm.reminder
    &&& a.alarm.scheduled_for.is_same_instant(b.alarm.scheduled_for)
    &&& a.alarm.delay_for_games == b.alarm.delay_for_games
    &&& a.alarm.sound_path == b.alarm.sound_path
}

/// Whether two lists hold the same alarms in the same order.
pub open spec fn all_alike(a: Seq<PendingAlarmModel>, b: Seq<PendingAlarmModel>) -> bool {
    a.len() == b.len() && forall|i: int| 0 <= i < a.len() ==> alike(#[trigger] a[i], b[i])
}

/// Whether two texts that may be missing are the same.
pub fn same_optional_text(a: &Option<String>, b: &Option<String>) -> (same: bool)
    ensures
        same == (a.deep_view() == b.deep_view()),
{
    match (a, b) {
        (Some(x), Some(y)) => text::same_text(x.as_str(), y.as_str()),
        (None, None) => true,
        _ => false,
    }
}

/// Whether two lists hold the same alarms in the same order.
pub fn same_alarms(a: &Vec<PendingAlarmSnapshot>, b: &Vec<PendingAlarmSnapshot>) -> (same: bool)
    ensures
        same == all_alike(a.deep_view(), b.deep_view()),
{
    if a.len() != b.len() {
        return false;
    }
    let mut i: usize = 0;
    while i < a.len()
        invariant
            i <= a@.len(),
            a@.len() == b@.len(),
            forall|j: int|
                0 <= j < i ==> alike(#[trigger] a.deep_view()[j], b.deep_view()[j]),
        decreases a@.len() - i,
    {
        assert(a.deep_view()[i as int] == a@[i as int].deep_view());
        assert(b.deep_view()[i as int] == b@[i as int].deep_view());
        if a[i].id != b[i].id || a[i].status != b[i].status || a[i].delayed_by_game
            != b[i].delayed_by_game || !text::same_text(
            a[i].alarm.reminder.as_str(),
            b[i].alarm.reminder.as_str(),
        ) || !a[i].alarm.scheduled_for.same_instant(b[i].alarm.scheduled_for)
            || a[i].alarm.delay_for_games != b[i].alarm.delay_for_games || !same_optional_text(
            &a[i].alarm.sound_path,
            &b[i].alarm.sound_path,
        ) {
            assert(!alike(a.deep_view()[i as int], b.deep_view()[i as int]));
            return false;
        }
        i = i + 1;
    }
    true
}

/// What a list of alarms says as a whole, when the last alarm went off at `fired_at`, if any.
pub open spec fn overall_status(
    alarms: Seq<PendingAlarmModel>,
    fired_at: Option<LocalDateTime>,
) -> AlarmStatus {
    if exists|i: int|
        0 <= i < alarms.len() && (#[trigger] alarms[i]).status is WaitingForGameEnd {
        AlarmStatus::WaitingForGameEnd
    } else if alarms.len() > 0 {
        AlarmStatus::Scheduled
    } else if fired_at is Some {
        AlarmStatus::Fired
    } else {
        AlarmStatus::Idle
    }
}

/// What a list of alarms says as a whole.
pub fn status_of_alarms(
    alarms: &Vec<PendingAlarmSnapshot>,
    fired_at: Option<LocalDateTime>,
) -> (status: AlarmStatus)
    ensures
        status == overall_status(alarms.deep_view(), fired_at),
{
    let mut i: usize = 0;
    while i < alarms.len()
        invariant
            i <= alarms@.len(),
            forall|j: int|
                0 <= j < i ==> !((#[trigger] alarms.deep_view()[j]).status is WaitingForGameEnd),
        decreases alarms@.len() - i,
    {
        assert(alarms.deep_view()[i as int].status == alarms@[i as int].status);
        if alarms[i].status == AlarmStatus::WaitingForGameEnd {
            return AlarmStatus::WaitingForGameEnd;
        }
        i = i + 1;
    }
    if alarms.len() > 0 {
        AlarmStatus::Scheduled
    } else if fired_at.is_some() {
        AlarmStatus::Fired
    } else {
        AlarmStatus::Idle
    }
}

/// The alarms without the one that has a given number.
pub open spec fn alarms_without(
    alarms: Seq<PendingAlarmModel>,
    id: AlarmId,
) -> Seq<PendingAlarmModel> {
    alarms.filter(|p: PendingAlarmModel| p.id != id)
}

/// Takes the alarm that has a given number off a list.
pub fn remove_alarm(alarms: Vec<PendingAlarmSnapshot>, id: AlarmId) -> (kept: Vec<
    PendingAlarmSnapshot,
>)
    ensures
        kept.deep_view() == alarms_without(alarms.deep_view(), id),
{
    let ghost models = alarms.deep_view();
    let ghost all = alarms@;
    let mut kept: Vec<PendingAlarmSnapshot> = Vec::new();
    reveal(Seq::filter);
    assert(kept.deep_view() =~= alarms_without(models.take(0), id));
    for pending in iter: alarms
        invariant
            iter.seq() == all,
            models.len() == all.len(),
            forall|i: int| 0 <= i < all.len() ==> models[i] == (#[trigger] all[i]).deep_view(),
            kept.deep_view() == alarms_without(models.take(iter.index()), id),
    {
        let ghost before = kept.deep_view();
        let ghost done = iter.index();
        proof {
            models.take(done).lemma_filter_push(
                pending.deep_view(),
                |p: PendingAlarmModel| p.id != id,
            );
            assert(models.take(done).push(pending.deep_view()) == models.take(done + 1));
        }
        if pending.id != id {
            let ghost model = pending.deep_view();
            kept.push(pending);
            assert(kept.deep_view() == before.push(model));
        }
    }
    assert(models.take(all.len() as int) == models);
    kept
}

/// Whether an alarm is due.
pub open spec fn is_due(p: PendingAlarmModel, now: LocalDateTime) -> bool {
    !now.is_before(p.alarm.scheduled_for)
}

/// Whether an alarm goes off now: a scheduled alarm when it is due, unless it is to wait for the
/// game that is being played; an alarm that waits, as soon as no game is known to be played.
pub open spec fn goes_off(
    p: PendingAlarmModel,
    now: LocalDateTime,
    activity: GameActivity,
) -> bool {
    match p.status {
        AlarmStatus::Scheduled => is_due(p, now) && !(p.alarm.delay_for_games
            && activity is Active),
        AlarmStatus::WaitingForGameEnd => !(activity is Active),
        _ => false,
    }
}

/// Whether an alarm begins to wait for the end of a game.
pub open spec fn begins_to_wait(
    p: PendingAlarmModel,
    now: LocalDateTime,
    activity: GameActivity,
) -> bool {
    p.status is Scheduled && is_due(p, now) && p.alarm.delay_for_games && activity is Active
}

/// An alarm that does not go off, as it is afterwards.
pub open spec fn held_back(
    p: PendingAlarmModel,
    now: LocalDateTime,
    activity: GameActivity,
) -> PendingAlarmModel {
    if begins_to_wait(p, now, activity) {
        PendingAlarmModel { status: AlarmStatus::WaitingForGameEnd, delayed_by_game: true, ..p }
    } else {
        p
    }
}

/// What an alarm reports when it goes off.
pub open spec fn event_of(p: PendingAlarmModel, now: LocalDateTime) -> AlarmEventModel {
    AlarmEventModel {
        id: p.id,
        reminder: p.alarm.reminder,
        scheduled_for: p.alarm.scheduled_for,
        fired_at: now,
        delayed_by_game: p.delayed_by_game,
        sound_path: p.alarm.sound_path,
    }
}

/// The alarms that are left after those that go off have gone.
pub open spec fn alarms_left(
    alarms: Seq<PendingAlarmModel>,
    now: LocalDateTime,
    activity: GameActivity,
) -> Seq<PendingAlarmModel> {
    alarms.filter(|p: PendingAlarmModel| !goes_off(p, now, activity)).map_values(
        |p: PendingAlarmModel| held_back(p, now, activity),
    )
}

/// What the alarms that go off report, in the order of the alarms.
pub open spec fn alarms_fired(
    alarms: Seq<PendingAlarmModel>,
    now: LocalDateTime,
    activity: GameActivity,
) -> Seq<AlarmEventModel> {
    alarms.filter(|p: PendingAlarmModel| goes_off(p, now, activity)).map_values(
        |p: PendingAlarmModel| event_of(p, now),
    )
}

/// Keeps the alarms of one user, and says which go off.
#[derive(Debug)]
pub struct AlarmEngine {
    alarms: Vec<PendingAlarmSnapshot>,
    fired_at: Option<LocalDateTime>,
    last_fired_reminder: Option<String>,
    next_alarm_id: AlarmId,
}

/// The model of an alarm engine.
#[verifier::ext_equal]
pub struct EngineModel {
    pub alarms: Seq<PendingAlarmModel>,
    pub fired_at: Option<LocalDateTime>,
    pub last_fired_reminder: Option<Seq<char>>,
    pub next_alarm_id: AlarmId,
}

impl DeepView for AlarmEngine {
    type V = EngineModel;

    closed spec fn deep_view(&self) -> EngineModel {
        EngineModel {
            alarms: self.alarms.deep_view(),
            fired_at: self.fired_at,
            last_fired_reminder: self.last_fired_reminder.deep_view(),
            next_alarm_id: self.next_alarm_id,
        }
    }
}

/// An alarm as it is when it is scheduled.
pub open spec fn newly_scheduled(id: AlarmId, alarm: AlarmModel) -> PendingAlarmModel {
    PendingAlarmModel { id, alarm, status: AlarmStatus::Scheduled, delayed_by_game: false }
}

/// The engine that keeps a list of alarms: those that went off are left out, the others are put
/// in order.
pub open spec fn restored_engine(alarms: Seq<PendingAlarmModel>) -> EngineModel {
    EngineModel {
        alarms: order::ordered(alarms.filter(|p: PendingAlarmModel| !(p.status is Fired))),
        fired_at: None,
        last_fired_reminder: None,
        next_alarm_id: next_id(alarms),
    }
}

/// Whether an alarm can be in an engine with the given next number.
pub open spec fn fits_in(p: PendingAlarmModel, next_alarm_id: AlarmId) -> bool {
    &&& !(p.status is Fired)
    &&& p.id < next_alarm_id || next_alarm_id == u64::MAX
}

impl EngineModel {
    /// What always holds of an engine: its alarms are in order, none of them has gone off, and
    /// the next number is above all of theirs unless numbers have run out.
    pub open spec fn consistent(self) -> bool {
        &&& order::in_order(self.alarms)
        &&& forall|i: int|
            0 <= i < self.alarms.len() ==> fits_in(#[trigger] self.alarms[i], self.next_alarm_id)
    }

    /// The engine with one more alarm.
    pub open spec fn with_alarm(self, id: AlarmId, alarm: AlarmModel) -> EngineModel {
        EngineModel {
            alarms: order::ordered(self.alarms.push(newly_scheduled(id, alarm))),
            fired_at: None,
            last_fired_reminder: None,
            next_alarm_id: larger(self.next_alarm_id, id_after(id)),
        }
    }

    /// The engine without any alarm, and without memory of the last one that went off.
    pub open spec fn without_alarms(self) -> EngineModel {
        EngineModel {
            alarms: Seq::empty(),
            fired_at: None,
            last_fired_reminder: None,
            next_alarm_id: self.next_alarm_id,
        }
    }

    /// The engine without the alarm that has a given number.
    pub open spec fn without_alarm(self, id: AlarmId) -> EngineModel {
        EngineModel { alarms: alarms_without(self.alarms, id), ..self }
    }

    /// The engine after it was looked at: the alarms that went off are gone, and the last of them
    /// is remembered.
    pub open spec fn after_tick(self, now: LocalDateTime, activity: GameActivity) -> EngineModel {
        let fired = alarms_fired(self.alarms, now, activity);
        EngineModel {
            alarms: alarms_left(self.alarms, now, activity),
            fired_at: if fired.len() > 0 {
                Some(now)
            } else {
                self.fired_at
            },
            last_fired_reminder: if fired.len() > 0 {
                Some(fired.last().reminder)
            } else {
                self.last_fired_reminder
            },
            next_alarm_id: self.next_alarm_id,
        }
    }

    /// What there is to see.
    pub open spec fn snapshot(self) -> AlarmSnapshotModel {
        AlarmSnapshotModel {
            status: overall_status(self.alarms, self.fired_at),
            alarms: self.alarms,
            fired_at: self.fired_at,
            last_fired_reminder: self.last_fired_reminder,
        }
    }
}

proof fn lemma_left_is_in_order(
    alarms: Seq<PendingAlarmModel>,
    now: LocalDateTime,
    activity: GameActivity,
)
    requires
        order::in_order(alarms),
    ensures
        order::in_order(alarms_left(alarms, now, activity)),
{
    let kept = alarms.filter(|p: PendingAlarmModel| !goes_off(p, now, activity));
    order::filter_keeps_order(alarms, |p: PendingAlarmModel| !goes_off(p, now, activity));
    let left = alarms_left(alarms, now, activity);
    assert forall|i: int, j: int| 0 <= i < j < left.len() implies !(#[trigger] left[j]).precedes(
        #[trigger] left[i],
    ) by {
        assert(!kept[j].precedes(kept[i]));
    }
}

/// Every alarm that is left was there before, with the same number.
proof fn lemma_left_was_there(
    alarms: Seq<PendingAlarmModel>,
    now: LocalDateTime,
    activity: GameActivity,
    i: int,
) -> (k: int)
    requires
        0 <= i < alarms_left(alarms, now, activity).len(),
    ensures
        0 <= k < alarms.len(),
        !goes_off(alarms[k], now, activity),
        alarms_left(alarms, now, activity)[i] == held_back(alarms[k], now, activity),
{
    seqs::filtered_was_there(alarms, |p: PendingAlarmModel| !goes_off(p, now, activity), i)
}

impl AlarmEngine {
    /// What always holds of an engine.
    #[verifier::type_invariant]
    pub open spec fn well_formed(self) -> bool {
        self.deep_view().consistent()
    }

    /// An engine without alarms.
    fn empty() -> (engine: AlarmEngine)
        ensures
            engine.deep_view() == (EngineModel {
                alarms: Seq::empty(),
                fired_at: None,
                last_fired_reminder: None,
                next_alarm_id: 1,
            }),
    {
        let alarms: Vec<PendingAlarmSnapshot> = Vec::new();
        assert(alarms.deep_view() =~= Seq::empty());
        AlarmEngine { alarms, fired_at: None, last_fired_reminder: None, next_alarm_id: 1 }
    }

    /// An engine with the alarms that were kept from before. Alarms that went off are left out.
    pub fn from_pending_alarms(alarms: Vec<PendingAlarmSnapshot>) -> (engine: AlarmEngine)
        ensures
            engine.deep_view() == restored_engine(alarms.deep_view()),
            engine.deep_view().consistent(),
    {
        let next_alarm_id: AlarmId = next_alarm_id_after(&alarms);
        let ghost models = alarms.deep_view();
        let ghost all = alarms@;
        let ghost pred = |p: PendingAlarmModel| !(p.status is Fired);
        let mut kept: Vec<PendingAlarmSnapshot> = Vec::new();
        proof {
            reveal(Seq::filter);
            assert(kept.deep_view() =~= models.take(0).filter(pred));
        }
        for pending in iter: alarms
            invariant
                iter.seq() == all,
                models.len() == all.len(),
                forall|i: int| 0 <= i < all.len() ==> models[i] == (#[trigger] all[i]).deep_view(),
                pred == (|p: PendingAlarmModel| !(p.status is Fired)),
                kept.deep_view() == models.take(iter.index()).filter(pred),
        {
            let ghost before = kept.deep_view();
            let ghost done = iter.index();
            proof {
                models.take(done).lemma_filter_push(pending.deep_view(), pred);
                assert(models.take(done).push(pending.deep_view()) == models.take(done + 1));
            }
            if pending.status != AlarmStatus::Fired {
                let ghost model = pending.deep_view();
                kept.push(pending);
                assert(kept.deep_view() == before.push(model));
            }
        }
        assert(models.take(all.len() as int) == models);
        let ghost unsorted = kept.deep_view();
        let sorted = put_in_order(kept);
        proof {
            order::order_keeps_members(unsorted);
            assert forall|i: int| 0 <= i < sorted.deep_view().len() implies fits_in(
                #[trigger] sorted.deep_view()[i],
                next_alarm_id,
            ) by {
                assert(sorted.deep_view().contains(sorted.deep_view()[i]));
                let k = choose|k: int|
                    0 <= k < unsorted.len() && unsorted[k] == sorted.deep_view()[i];
                let m = seqs::filtered_was_there(models, pred, k);
                next_id_is_fresh(models, m);
            }
        }
        AlarmEngine { alarms: sorted, fired_at: None, last_fired_reminder: None, next_alarm_id }
    }

    /// Adds an alarm under the next number, and gives that number.
    pub fn schedule(&mut self, alarm: Alarm) -> (id: AlarmId)
        ensures
            id == old(self).deep_view().next_alarm_id,
            final(self).deep_view() == old(self).deep_view().with_alarm(id, alarm.deep_view()),
            final(self).deep_view().consistent(),
            id < u64::MAX ==> forall|i: int|
                0 <= i < old(self).deep_view().alarms.len() ==> (
                #[trigger] old(self).deep_view().alarms[i]).id != id,
    {
        proof {
            use_type_invariant(&*self);
        }
        let id: AlarmId = self.next_alarm_id;
        self.schedule_with_id(id, alarm)
    }

    /// Adds an alarm under a number that the caller chose.
    pub fn schedule_with_id(&mut self, id: AlarmId, alarm: Alarm) -> (given: AlarmId)
        ensures
            given == id,
            final(self).deep_view() == old(self).deep_view().with_alarm(id, alarm.deep_view()),
            final(self).deep_view().consistent(),
    {
        proof {
            use_type_invariant(&*self);
        }
        let ghost before = self.deep_view();
        let ghost added = newly_scheduled(id, alarm.deep_view());
        let after: AlarmId = id.saturating_add(1);
        let next_alarm_id: AlarmId = if self.next_alarm_id < after {
            after
        } else {
            self.next_alarm_id
        };
        let mut alarms: Vec<PendingAlarmSnapshot> = Vec::new();
        std::mem::swap(&mut alarms, &mut self.alarms);
        alarms.push(
            PendingAlarmSnapshot {
                id,
                alarm,
                status: AlarmStatus::Scheduled,
                delayed_by_game: false,
            },
        );
        assert(alarms.deep_view() == before.alarms.push(added));
        let sorted = put_in_order(alarms);
        proof {
            order::ordered_is_stable_order(before.alarms.push(added));
            order::order_keeps_members(before.alarms.push(added));
            assert forall|i: int| 0 <= i < sorted.deep_view().len() implies fits_in(
                #[trigger] sorted.deep_view()[i],
                next_alarm_id,
            ) by {
                assert(sorted.deep_view().contains(sorted.deep_view()[i]));
                let k = choose|k: int|
                    0 <= k < before.alarms.push(added).len() && before.alarms.push(added)[k]
                        == sorted.deep_view()[i];
            }
        }
        self.next_alarm_id = next_alarm_id;
        self.alarms = sorted;
        self.fired_at = None;
        self.last_fired_reminder = None;
        id
    }

    /// Drops all alarms, and what is known of the last one that went off.
    pub fn cancel(&mut self)
        ensures
            final(self).deep_view() == old(self).deep_view().without_alarms(),
            final(self).deep_view().consistent(),
    {
        let alarms: Vec<PendingAlarmSnapshot> = Vec::new();
        assert(alarms.deep_view() =~= Seq::empty());
        self.alarms = alarms;
        self.fired_at = None;
        self.last_fired_reminder = None;
    }

    /// Drops the alarm with a given number, and says whether there was one.
    pub fn cancel_alarm(&mut self, id: AlarmId) -> (found: bool)
        ensures
            final(self).deep_view() == old(self).deep_view().without_alarm(id),
            found == exists|i: int|
                0 <= i < old(self).deep_view().alarms.len() && (
                #[trigger] old(self).deep_view().alarms[i]).id == id,
            final(self).deep_view().consistent(),
    {
        proof {
            use_type_invariant(&*self);
        }
        let ghost before = self.deep_view().alarms;
        let ghost pred = |p: PendingAlarmModel| p.id != id;
        let count_before: usize = self.alarms.len();
        let mut alarms: Vec<PendingAlarmSnapshot> = Vec::new();
        std::mem::swap(&mut alarms, &mut self.alarms);
        let kept = remove_alarm(alarms, id);
        proof {
            order::filter_keeps_order(before, pred);
            assert forall|i: int| 0 <= i < kept.deep_view().len() implies fits_in(
                #[trigger] kept.deep_view()[i],
                self.next_alarm_id,
            ) by {
                let k = seqs::filtered_was_there(before, pred, i);
            }
            seqs::filter_shortens(before, pred);
        }
        self.alarms = kept;
        count_before != self.alarms.len()
    }
}

impl Default for AlarmEngine {
    fn default() -> (engine: AlarmEngine)
        ensures
            engine.deep_view() == (EngineModel {
                alarms: Seq::empty(),
                fired_at: None,
                last_fired_reminder: None,
                next_alarm_id: 1,
            }),
    {
        AlarmEngine::empty()
    }
}

/// Whether an alarm goes off now.
fn is_to_fire(pending: &PendingAlarmSnapshot, now: LocalDateTime, activity: GameActivity) -> (b:
    bool)
    ensures
        b == goes_off(pending.deep_view(), now, activity),
{
    match pending.status {
        AlarmStatus::Scheduled => !now.before(pending.alarm.scheduled_for) && !(
        pending.alarm.delay_for_games && activity.is_active()),
        AlarmStatus::WaitingForGameEnd => !activity.is_active(),
        _ => false,
    }
}

/// An alarm that does not go off, as it is afterwards.
fn hold_back(
    pending: PendingAlarmSnapshot,
    now: LocalDateTime,
    activity: GameActivity,
) -> (held: PendingAlarmSnapshot)
    ensures
        held.deep_view() == held_back(pending.deep_view(), now, activity),
{
    if pending.status == AlarmStatus::Scheduled && !now.before(pending.alarm.scheduled_for)
        && pending.alarm.delay_for_games && activity.is_active() {
        PendingAlarmSnapshot {
            id: pending.id,
            alarm: pending.alarm,
            status: AlarmStatus::WaitingForGameEnd,
            delayed_by_game: true,
        }
    } else {
        pending
    }
}

/// What an alarm reports when it goes off.
fn fire(pending: PendingAlarmSnapshot, fired_at: LocalDateTime) -> (event: AlarmEvent)
    ensures
        event.deep_view() == event_of(pending.deep_view(), fired_at),
{
    AlarmEvent {
        id: pending.id,
        reminder: pending.alarm.reminder,
        scheduled_for: pending.alarm.scheduled_for,
        fired_at,
        delayed_by_game: pending.delayed_by_game,
        sound_path: pending.alarm.sound_path,
    }
}

impl AlarmEngine {
    /// Looks at the clock and at the games: lets the alarms go off whose turn it is, and gives
    /// what they report.
    pub fn tick(&mut self, now: LocalDateTime, game_activity: GameActivity) -> (events: Vec<
        AlarmEvent,
    >)
        ensures
            events.deep_view() == alarms_fired(old(self).deep_view().alarms, now, game_activity),
            final(self).deep_view() == old(self).deep_view().after_tick(now, game_activity),
            final(self).deep_view().consistent(),
    {
        proof {
            use_type_invariant(&*self);
        }
        let ghost before = self.deep_view();
        let mut alarms: Vec<PendingAlarmSnapshot> = Vec::new();
        std::mem::swap(&mut alarms, &mut self.alarms);
        let ghost models = alarms.deep_view();
        let ghost all = alarms@;
        let ghost leaves = |p: PendingAlarmModel| goes_off(p, now, game_activity);
        let ghost stays = |p: PendingAlarmModel| !goes_off(p, now, game_activity);
        let ghost hold = |p: PendingAlarmModel| held_back(p, now, game_activity);
        let ghost report = |p: PendingAlarmModel| event_of(p, now);
        let mut pending_alarms: Vec<PendingAlarmSnapshot> = Vec::new();
        let mut events: Vec<AlarmEvent> = Vec::new();
        let mut last_reminder: Option<String> = None;
        proof {
            reveal(Seq::filter);
            assert(pending_alarms.deep_view() =~= alarms_left(models.take(0), now, game_activity));
            assert(events.deep_view() =~= alarms_fired(models.take(0), now, game_activity));
        }
        for pending in iter: alarms
            invariant
                iter.seq() == all,
                models.len() == all.len(),
                forall|i: int| 0 <= i < all.len() ==> models[i] == (#[trigger] all[i]).deep_view(),
                leaves == (|p: PendingAlarmModel| goes_off(p, now, game_activity)),
                stays == (|p: PendingAlarmModel| !goes_off(p, now, game_activity)),
                hold == (|p: PendingAlarmModel| held_back(p, now, game_activity)),
                report == (|p: PendingAlarmModel| event_of(p, now)),
                pending_alarms.deep_view() == models.take(iter.index()).filter(stays).map_values(
                    hold,
                ),
                events.deep_view() == models.take(iter.index()).filter(leaves).map_values(report),
                last_reminder.deep_view() == if events.deep_view().len() > 0 {
                    Some(events.deep_view().last().reminder)
                } else {
                    None
                },
        {
            let ghost done = iter.index();
            let ghost model = pending.deep_view();
            let ghost held_before = pending_alarms.deep_view();
            let ghost events_before = events.deep_view();
            proof {
                models.take(done).lemma_filter_push(model, stays);
                models.take(done).lemma_filter_push(model, leaves);
                assert(models.take(done).push(model) == models.take(done + 1));
            }
            if is_to_fire(&pending, now, game_activity) {
                last_reminder = Some(pending.alarm.reminder.clone());
                events.push(fire(pending, now));
                proof {
                    assert(events.deep_view() == events_before.push(event_of(model, now)));
                    assert(models.take(done).filter(leaves).push(model).map_values(report)
                        =~= models.take(done).filter(leaves).map_values(report).push(
                        report(model),
                    ));
                }
            } else {
                pending_alarms.push(hold_back(pending, now, game_activity));
                proof {
                    assert(pending_alarms.deep_view() == held_before.push(
                        held_back(model, now, game_activity),
                    ));
                    assert(models.take(done).filter(stays).push(model).map_values(hold)
                        =~= models.take(done).filter(stays).map_values(hold).push(hold(model)));
                }
            }
        }
        assert(models.take(all.len() as int) == models);
        let ghost left = alarms_left(models, now, game_activity);
        let sorted = put_in_order(pending_alarms);
        proof {
            lemma_left_is_in_order(models, now, game_activity);
            order::order_of_ordered(left);
            assert forall|i: int| 0 <= i < left.len() implies fits_in(
                #[trigger] left[i],
                self.next_alarm_id,
            ) by {
                let k = lemma_left_was_there(models, now, game_activity, i);
            }
        }
        self.alarms = sorted;
        if last_reminder.is_some() {
            self.fired_at = Some(now);
            self.last_fired_reminder = last_reminder;
        }
        events
    }

    /// What there is to see.
    pub fn snapshot(&self) -> (snapshot: AlarmSnapshot)
        ensures
            snapshot.deep_view() == self.deep_view().snapshot(),
            order::in_order(snapshot.deep_view().alarms),
            forall|i: int|
                0 <= i < snapshot.deep_view().alarms.len() ==> !((
                #[trigger] snapshot.deep_view().alarms[i]).status is Fired),
    {
        proof {
            use_type_invariant(self);
        }
        AlarmSnapshot {
            status: status_of_alarms(&self.alarms, self.fired_at),
            alarms: copy_alarms(&self.alarms),
            fired_at: self.fired_at,
            last_fired_reminder: self.last_fired_reminder.clone(),
        }
    }
}

impl Clone for AlarmEngine {
    fn clone(&self) -> (copy: AlarmEngine)
        ensures
            copy.deep_view() == self.deep_view(),
    {
        proof {
            use_type_invariant(self);
        }
        AlarmEngine {
            alarms: copy_alarms(&self.alarms),
            fired_at: self.fired_at,
            last_fired_reminder: self.last_fired_reminder.clone(),
            next_alarm_id: self.next_alarm_id,
        }
    }
}

/// Scheduling an alarm adds just this one to those that are there, in its place in their order,
/// and forgets the last one that went off.
pub proof fn schedule_adds_one_alarm(engine: EngineModel, id: AlarmId, alarm: AlarmModel)
    ensures
        ({
            let after = engine.with_alarm(id, alarm);
            &&& order::in_order(after.alarms)
            &&& after.alarms.to_multiset() == engine.alarms.to_multiset().insert(
                newly_scheduled(id, alarm),
            )
            &&& after.snapshot().alarms == after.alarms
            &&& after.snapshot().fired_at is None
            &&& after.snapshot().last_fired_reminder is None
        }),
{
    let all = engine.alarms.push(newly_scheduled(id, alarm));
    order::ordered_is_stable_order(all);
    engine.alarms.to_multiset_ensures();
}

/// Something that is done with an engine.
pub enum EngineStep {
    Schedule(AlarmModel),
    ScheduleWithId(AlarmId, AlarmModel),
    CancelAlarm(AlarmId),
    Cancel,
    Tick(LocalDateTime, GameActivity),
}

impl EngineModel {
    /// The engine after something was done with it.
    pub open spec fn after_step(self, step: EngineStep) -> EngineModel {
        match step {
            EngineStep::Schedule(alarm) => self.with_alarm(self.next_alarm_id, alarm),
            EngineStep::ScheduleWithId(id, alarm) => self.with_alarm(id, alarm),
            EngineStep::CancelAlarm(id) => self.without_alarm(id),
            EngineStep::Cancel => self.without_alarms(),
            EngineStep::Tick(now, activity) => self.after_tick(now, activity),
        }
    }

    /// The number that a step gives to an alarm.
    pub open spec fn number_given(self, step: EngineStep) -> Option<AlarmId> {
        match step {
            EngineStep::Schedule(_) => Some(self.next_alarm_id),
            EngineStep::ScheduleWithId(id, _) => Some(id),
            _ => None,
        }
    }
}

/// The engine that began with the alarms `restored`, after some steps.
pub open spec fn engine_after(
    restored: Seq<PendingAlarmModel>,
    steps: Seq<EngineStep>,
) -> EngineModel
    decreases steps.len(),
{
    if steps.len() == 0 {
        restored_engine(restored)
    } else {
        engine_after(restored, steps.drop_last()).after_step(steps.last())
    }
}

/// Whether a number is that of an alarm that was restored, or was given to one in some steps, be
/// the alarm still there or not.
pub open spec fn was_given(
    restored: Seq<PendingAlarmModel>,
    steps: Seq<EngineStep>,
    id: AlarmId,
) -> bool {
    ||| exists|i: int| 0 <= i < restored.len() && (#[trigger] restored[i]).id == id
    ||| exists|k: int|
        0 <= k < steps.len() && engine_after(restored, #[trigger] steps.take(k)).number_given(
            steps[k],
        ) == Some(id)
}

/// The number that the next alarm gets is above every number that an alarm ever had, those that
/// went off or were cancelled included, unless numbers have run out.
pub proof fn next_number_is_above_all_before(
    restored: Seq<PendingAlarmModel>,
    steps: Seq<EngineStep>,
    id: AlarmId,
)
    requires
        was_given(restored, steps, id),
        id < u64::MAX,
    ensures
        id < engine_after(restored, steps).next_alarm_id,
    decreases steps.len(),
{
    if steps.len() == 0 {
        let i = choose|i: int| 0 <= i < restored.len() && (#[trigger] restored[i]).id == id;
        next_id_is_fresh(restored, i);
    } else {
        let front = steps.drop_last();
        let last = steps.len() - 1;
        assert(steps.take(last) =~= front);
        if was_given(restored, front, id) {
            next_number_is_above_all_before(restored, front, id);
        } else {
            let k = choose|k: int|
                0 <= k < steps.len() && engine_after(
                    restored,
                    #[trigger] steps.take(k),
                ).number_given(steps[k]) == Some(id);
            if k < last {
                assert(front.take(k) =~= steps.take(k));
                assert(front[k] == steps[k]);
            }
        }
    }
}

/// Every alarm that goes off is left out, every other one stays: none is lost or doubled.
pub proof fn tick_shares_out_the_alarms(
    alarms: Seq<PendingAlarmModel>,
    now: LocalDateTime,
    activity: GameActivity,
)
    ensures
        alarms_left(alarms, now, activity).len() + alarms_fired(alarms, now, activity).len()
            == alarms.len(),
        forall|k: int|
            0 <= k < alarms.len() ==> if goes_off(#[trigger] alarms[k], now, activity) {
                alarms_fired(alarms, now, activity).contains(event_of(alarms[k], now))
            } else {
                alarms_left(alarms, now, activity).contains(held_back(alarms[k], now, activity))
            },
{
    let leaves = |p: PendingAlarmModel| goes_off(p, now, activity);
    let stays = |p: PendingAlarmModel| !goes_off(p, now, activity);
    seqs::filters_share_out(alarms, stays, leaves);
    assert forall|k: int| 0 <= k < alarms.len() implies if goes_off(
        #[trigger] alarms[k],
        now,
        activity,
    ) {
        alarms_fired(alarms, now, activity).contains(event_of(alarms[k], now))
    } else {
        alarms_left(alarms, now, activity).contains(held_back(alarms[k], now, activity))
    } by {
        if goes_off(alarms[k], now, activity) {
            let i = seqs::passing_is_kept(alarms, leaves, k);
            assert(alarms_fired(alarms, now, activity)[i] == event_of(alarms[k], now));
        } else {
            let i = seqs::passing_is_kept(alarms, stays, k);
            assert(alarms_left(alarms, now, activity)[i] == held_back(alarms[k], now, activity));
        }
    }
}

/// As long as no game is known to be played, no alarm is kept waiting: none is left that is due,
/// and none is left that waits for the end of a game. This holds also when nothing can be said
/// of the games.
pub proof fn only_a_game_holds_alarms_back(
    alarms: Seq<PendingAlarmModel>,
    now: LocalDateTime,
    activity: GameActivity,
    i: int,
)
    requires
        !(activity is Active),
        0 <= i < alarms_left(alarms, now, activity).len(),
    ensures
        !(alarms_left(alarms, now, activity)[i].status is WaitingForGameEnd),
        alarms_left(alarms, now, activity)[i].status is Scheduled ==> !is_due(
            alarms_left(alarms, now, activity)[i],
            now,
        ),
{
    let k = lemma_left_was_there(alarms, now, activity, i);
}

/// An alarm goes off only if it is due, or if it was due before and waits for the end of a game.
/// While a game is played, only alarms go off that are not to wait for games.
pub proof fn no_alarm_goes_off_early(
    alarms: Seq<PendingAlarmModel>,
    now: LocalDateTime,
    activity: GameActivity,
    i: int,
)
    requires
        0 <= i < alarms_fired(alarms, now, activity).len(),
    ensures
        exists|k: int|
            {
                &&& 0 <= k < alarms.len()
                &&& event_of(#[trigger] alarms[k], now) == alarms_fired(alarms, now, activity)[i]
                &&& alarms[k].status is Scheduled && is_due(alarms[k], now)
                    || alarms[k].status is WaitingForGameEnd
                &&& activity is Active ==> alarms[k].status is Scheduled
                    && !alarms[k].alarm.delay_for_games
            },
{
    let k = seqs::filtered_was_there(
        alarms,
        |p: PendingAlarmModel| goes_off(p, now, activity),
        i,
    );
    assert(event_of(alarms[k], now) == alarms_fired(alarms, now, activity)[i]);
}

/// An alarm that comes due during a game, and is to wait for games, does not go off then. It
/// goes off, marked as delayed, the first time that no game is known to be played.
pub proof fn delayed_alarm_goes_off_after_the_game(
    engine: EngineModel,
    k: int,
    now: LocalDateTime,
    later: LocalDateTime,
    activity_later: GameActivity,
)
    requires
        0 <= k < engine.alarms.len(),
        engine.alarms[k].status is Scheduled,
        is_due(engine.alarms[k], now),
        engine.alarms[k].alarm.delay_for_games,
        !(activity_later is Active),
    ensures
        ({
            let waiting = PendingAlarmModel {
                status: AlarmStatus::WaitingForGameEnd,
                delayed_by_game: true,
                ..engine.alarms[k]
            };
            let during = engine.after_tick(now, GameActivity::Active).alarms;
            &&& during.contains(waiting)
            &&& alarms_fired(during, later, activity_later).contains(event_of(waiting, later))
            &&& event_of(waiting, later).delayed_by_game
        }),
{
    let waiting = held_back(engine.alarms[k], now, GameActivity::Active);
    let during = engine.after_tick(now, GameActivity::Active).alarms;
    tick_shares_out_the_alarms(engine.alarms, now, GameActivity::Active);
    assert(during.contains(waiting));
    let i = choose|i: int| 0 <= i < during.len() && during[i] == waiting;
    tick_shares_out_the_alarms(during, later, activity_later);
    assert(goes_off(during[i], later, activity_later));
}

/// An alarm that was cancelled never goes off.
pub proof fn cancelled_alarm_stays_silent(
    alarms: Seq<PendingAlarmModel>,
    id: AlarmId,
    now: LocalDateTime,
    activity: GameActivity,
    i: int,
)
    requires
        0 <= i < alarms_fired(alarms_without(alarms, id), now, activity).len(),
    ensures
        alarms_fired(alarms_without(alarms, id), now, activity)[i].id != id,
{
    let left = alarms_without(alarms, id);
    let k = seqs::filtered_was_there(left, |p: PendingAlarmModel| goes_off(p, now, activity), i);
    let m = seqs::filtered_was_there(alarms, |p: PendingAlarmModel| p.id != id, k);
}

/// Scheduling an alarm keeps all the others, and adds that one.
pub proof fn scheduling_keeps_the_others(engine: EngineModel, id: AlarmId, alarm: AlarmModel)
    ensures
        engine.with_alarm(id, alarm).alarms.len() == engine.alarms.len() + 1,
        engine.with_alarm(id, alarm).alarms.contains(newly_scheduled(id, alarm)),
        forall|x: PendingAlarmModel|
            engine.alarms.contains(x) ==> #[trigger] engine.with_alarm(id, alarm).alarms.contains(
                x,
            ),
{
    let before = engine.alarms;
    let added = newly_scheduled(id, alarm);
    order::order_keeps_members(before.push(added));
    assert(before.push(added)[before.len() as int] == added);
    assert forall|x: PendingAlarmModel| before.contains(x) implies #[trigger] engine.with_alarm(
        id,
        alarm,
    ).alarms.contains(x) by {
        let i = choose|i: int| 0 <= i < before.len() && before[i] == x;
        assert(before.push(added)[i] == x);
    }
}

/// An engine that is restored from what another one showed has the same alarms, in the same
/// order.
pub proof fn restored_engine_has_the_same_alarms(engine: EngineModel)
    requires
        engine.consistent(),
    ensures
        restored_engine(engine.snapshot().alarms).alarms == engine.alarms,
{
    let pred = |p: PendingAlarmModel| !(p.status is Fired);
    assert forall|i: int| 0 <= i < engine.alarms.len() implies pred(#[trigger] engine.alarms[i]) by {
        assert(fits_in(engine.alarms[i], engine.next_alarm_id));
    }
    seqs::filter_of_passing(engine.alarms, pred);
    order::order_of_ordered(engine.alarms);
}

/// An alarm that has come due goes off, unless it is to wait for games and one is being played;
/// an alarm that waits goes off as soon as no game is being played. What it reports is its own:
/// its number, its reminder, its time and its sound. Every other alarm stays as it is, but that
/// one which begins to wait is marked as delayed.
pub proof fn tick_deals_with_every_alarm(
    engine: EngineModel,
    now: LocalDateTime,
    activity: GameActivity,
    k: int,
) -> (i: int)
    requires
        0 <= k < engine.alarms.len(),
    ensures
        ({
            let p = engine.alarms[k];
            let due = !now.is_before(p.alarm.scheduled_for);
            let playing = activity == GameActivity::Active;
            let events = alarms_fired(engine.alarms, now, activity);
            let left = engine.after_tick(now, activity).alarms;
            if p.status == AlarmStatus::Scheduled && due && (!p.alarm.delay_for_games || !playing)
                || p.status == AlarmStatus::WaitingForGameEnd && !playing {
                &&& 0 <= i < events.len()
                &&& events[i].id == p.id
                &&& events[i].reminder == p.alarm.reminder
                &&& events[i].scheduled_for == p.alarm.scheduled_for
                &&& events[i].sound_path == p.alarm.sound_path
                &&& events[i].fired_at == now
                &&& events[i].delayed_by_game == p.delayed_by_game
            } else {
                &&& 0 <= i < left.len()
                &&& left[i].id == p.id
                &&& left[i].alarm == p.alarm
                &&& if p.status == AlarmStatus::Scheduled && due {
                    left[i].status == AlarmStatus::WaitingForGameEnd && left[i].delayed_by_game
                } else {
                    left[i].status == p.status && left[i].delayed_by_game == p.delayed_by_game
                }
            }
        }),
{
    let p = engine.alarms[k];
    let leaves = |p: PendingAlarmModel| goes_off(p, now, activity);
    let stays = |p: PendingAlarmModel| !goes_off(p, now, activity);
    if goes_off(p, now, activity) {
        seqs::passing_is_kept(engine.alarms, leaves, k)
    } else {
        seqs::passing_is_kept(engine.alarms, stays, k)
    }
}

/// Nothing goes off by itself: every event is that of an alarm which has come due, or which
/// waited for a game that is over, and carries its number, reminder, time and sound.
pub proof fn event_is_that_of_an_alarm(
    engine: EngineModel,
    now: LocalDateTime,
    activity: GameActivity,
    i: int,
) -> (k: int)
    requires
        0 <= i < alarms_fired(engine.alarms, now, activity).len(),
    ensures
        0 <= k < engine.alarms.len(),
        ({
            let p = engine.alarms[k];
            let event = alarms_fired(engine.alarms, now, activity)[i];
            &&& event.id == p.id
            &&& event.reminder == p.alarm.reminder
            &&& event.scheduled_for == p.alarm.scheduled_for
            &&& event.sound_path == p.alarm.sound_path
            &&& event.fired_at == now
            &&& event.delayed_by_game == p.delayed_by_game
            &&& p.status == AlarmStatus::Scheduled && !now.is_before(p.alarm.scheduled_for)
                || p.status == AlarmStatus::WaitingForGameEnd
            &&& activity == GameActivity::Active ==> p.status == AlarmStatus::Scheduled
                && !p.alarm.delay_for_games
        }),
{
    seqs::filtered_was_there(
        engine.alarms,
        |p: PendingAlarmModel| goes_off(p, now, activity),
        i,
    )
}

/// What is left after a tick is what was there: the same numbers and the same alarms.
pub proof fn tick_makes_up_no_alarm(
    engine: EngineModel,
    now: LocalDateTime,
    activity: GameActivity,
    i: int,
) -> (k: int)
    requires
        0 <= i < engine.after_tick(now, activity).alarms.len(),
    ensures
        0 <= k < engine.alarms.len(),
        engine.after_tick(now, activity).alarms[i].id == engine.alarms[k].id,
        engine.after_tick(now, activity).alarms[i].alarm == engine.alarms[k].alarm,
        engine.after_tick(now, activity).alarms[i].delayed_by_game ==> (
        engine.alarms[k].delayed_by_game || engine.alarms[k].alarm.delay_for_games),
{
    lemma_left_was_there(engine.alarms, now, activity, i)
}

/// After a tick the engine remembers the last alarm that went off in it, with the time of the
/// tick; where none went off, it remembers what it did before. Numbers go on where they were.
pub proof fn tick_remembers_the_last_event(
    engine: EngineModel,
    now: LocalDateTime,
    activity: GameActivity,
)
    ensures
        ({
            let after = engine.after_tick(now, activity);
            let events = alarms_fired(engine.alarms, now, activity);
            &&& after.next_alarm_id == engine.next_alarm_id
            &&& events.len() > 0 ==> after.fired_at == Some(now) && after.last_fired_reminder
                == Some(events[events.len() - 1].reminder)
            &&& events.len() == 0 ==> after.fired_at == engine.fired_at
                && after.last_fired_reminder == engine.last_fired_reminder
            &&& events.len() + after.alarms.len() == engine.alarms.len()
        }),
{
    tick_shares_out_the_alarms(engine.alarms, now, activity);
}

/// The engine after it was looked at several times.
pub open spec fn engine_after_ticks(
    engine: EngineModel,
    ticks: Seq<(LocalDateTime, GameActivity)>,
) -> EngineModel
    decreases ticks.len(),
{
    if ticks.len() == 0 {
        engine
    } else {
        engine_after_ticks(engine, ticks.drop_last()).after_tick(ticks.last().0, ticks.last().1)
    }
}

/// However often the engine is looked at, and whatever is being played, the alarms that are left
/// are as they were set.
pub proof fn alarm_stays_as_it_was_set(
    engine: EngineModel,
    ticks: Seq<(LocalDateTime, GameActivity)>,
    i: int,
) -> (k: int)
    requires
        0 <= i < engine_after_ticks(engine, ticks).alarms.len(),
    ensures
        0 <= k < engine.alarms.len(),
        engine_after_ticks(engine, ticks).alarms[i].id == engine.alarms[k].id,
        engine_after_ticks(engine, ticks).alarms[i].alarm == engine.alarms[k].alarm,
        engine_after_ticks(engine, ticks).alarms[i].delayed_by_game ==> (
        engine.alarms[k].delayed_by_game || engine.alarms[k].alarm.delay_for_games),
    decreases ticks.len(),
{
    if ticks.len() == 0 {
        i
    } else {
        let before = engine_after_ticks(engine, ticks.drop_last());
        let m = tick_makes_up_no_alarm(before, ticks.last().0, ticks.last().1, i);
        alarm_stays_as_it_was_set(engine, ticks.drop_last(), m)
    }
}

/// An alarm rings as it was set, whether it goes off at once or after waiting for a game: the
/// event has the reminder, the time and the sound that the alarm was scheduled with.
pub proof fn alarm_rings_as_it_was_set(
    engine: EngineModel,
    id: AlarmId,
    alarm: AlarmModel,
    ticks: Seq<(LocalDateTime, GameActivity)>,
    now: LocalDateTime,
    activity: GameActivity,
    i: int,
)
    requires
        forall|k: int| 0 <= k < engine.alarms.len() ==> (#[trigger] engine.alarms[k]).id != id,
        ({
            let before = engine_after_ticks(engine.with_alarm(id, alarm), ticks);
            let events = alarms_fired(before.alarms, now, activity);
            0 <= i < events.len() && events[i].id == id
        }),
    ensures
        ({
            let before = engine_after_ticks(engine.with_alarm(id, alarm), ticks);
            let event = alarms_fired(before.alarms, now, activity)[i];
            &&& event.reminder == alarm.reminder
            &&& event.scheduled_for == alarm.scheduled_for
            &&& event.sound_path == alarm.sound_path
            &&& event.fired_at == now
            &&& event.delayed_by_game ==> alarm.delay_for_games
            &&& activity == GameActivity::Active ==> !alarm.delay_for_games
        }),
{
    let first = engine.with_alarm(id, alarm);
    let before = engine_after_ticks(first, ticks);
    let m = event_is_that_of_an_alarm(before, now, activity, i);
    let k = alarm_stays_as_it_was_set(first, ticks, m);
    let added = newly_scheduled(id, alarm);
    order::order_keeps_members(engine.alarms.push(added));
    assert(first.alarms.contains(first.alarms[k]));
    let j = choose|j: int|
        0 <= j < engine.alarms.push(added).len() && engine.alarms.push(added)[j]
            == first.alarms[k];
    if j < engine.alarms.len() {
        assert(engine.alarms[j].id != id);
    }
}

/// An alarm that is to wait for games, and comes due while one is being played, does not go off
/// then. It goes off the first time that none is being played, with the reminder and the sound
/// that were set, marked as delayed.
pub proof fn alarm_waits_for_the_game_and_rings(
    engine: EngineModel,
    id: AlarmId,
    alarm: AlarmModel,
    due: LocalDateTime,
    later: LocalDateTime,
    activity: GameActivity,
) -> (i: int)
    requires
        forall|k: int| 0 <= k < engine.alarms.len() ==> (#[trigger] engine.alarms[k]).id != id,
        alarm.delay_for_games,
        !due.is_before(alarm.scheduled_for),
        activity != GameActivity::Active,
    ensures
        ({
            let set = engine.with_alarm(id, alarm);
            let during = alarms_fired(set.alarms, due, GameActivity::Active);
            forall|k: int| 0 <= k < during.len() ==> (#[trigger] during[k]).id != id
        }),
        ({
            let set = engine.with_alarm(id, alarm);
            let waiting = set.after_tick(due, GameActivity::Active);
            let events = alarms_fired(waiting.alarms, later, activity);
            &&& 0 <= i < events.len()
            &&& events[i].id == id
            &&& events[i].reminder == alarm.reminder
            &&& events[i].scheduled_for == alarm.scheduled_for
            &&& events[i].sound_path == alarm.sound_path
            &&& events[i].fired_at == later
            &&& events[i].delayed_by_game
        }),
{
    let added = newly_scheduled(id, alarm);
    let all = engine.alarms.push(added);
    let set = engine.with_alarm(id, alarm);
    let waiting = set.after_tick(due, GameActivity::Active);
    order::order_keeps_members(all);
    assert(all[engine.alarms.len() as int] == added);
    assert(all.contains(added));
    assert(set.alarms.contains(added));
    let k = choose|k: int| 0 <= k < set.alarms.len() && set.alarms[k] == added;
    let during = alarms_fired(set.alarms, due, GameActivity::Active);
    assert forall|n: int| 0 <= n < during.len() implies (#[trigger] during[n]).id != id by {
        let m = event_is_that_of_an_alarm(set, due, GameActivity::Active, n);
        assert(set.alarms.contains(set.alarms[m]));
        let j = choose|j: int| 0 <= j < all.len() && all[j] == set.alarms[m];
        if j < engine.alarms.len() {
            assert(engine.alarms[j].id != id);
        }
    }
    let m = tick_deals_with_every_alarm(set, due, GameActivity::Active, k);
    tick_deals_with_every_alarm(waiting, later, activity, m)
}

/// Scheduling puts the alarm among the others as it was given, neither delayed nor waiting, and
/// leaves the others alone. The next number is above the one that it got, as long as there are
/// numbers, and does not go back.
pub proof fn scheduled_alarm_is_there_as_given(engine: EngineModel, id: AlarmId, alarm: AlarmModel)
    ensures
        ({
            let after = engine.with_alarm(id, alarm);
            &&& after.alarms.to_multiset() == engine.alarms.to_multiset().insert(
                PendingAlarmModel {
                    id,
                    alarm,
                    status: AlarmStatus::Scheduled,
                    delayed_by_game: false,
                },
            )
            &&& after.fired_at == None::<LocalDateTime>
            &&& after.last_fired_reminder == None::<Seq<char>>
            &&& after.next_alarm_id >= engine.next_alarm_id
            &&& id < u64::MAX ==> after.next_alarm_id > id
            &&& after.next_alarm_id == engine.next_alarm_id || after.next_alarm_id == id + 1
                || after.next_alarm_id == u64::MAX
        }),
{
    schedule_adds_one_alarm(engine, id, alarm);
}

/// Cancelling an alarm takes off what has its number, and nothing else.
pub proof fn cancelling_takes_off_one_number(
    engine: EngineModel,
    id: AlarmId,
    x: PendingAlarmModel,
)
    ensures
        engine.without_alarm(id).alarms.contains(x) <==> engine.alarms.contains(x) && x.id != id,
        engine.without_alarm(id).fired_at == engine.fired_at,
        engine.without_alarm(id).last_fired_reminder == engine.last_fired_reminder,
        engine.without_alarm(id).next_alarm_id == engine.next_alarm_id,
        engine.without_alarms().alarms.len() == 0,
        engine.without_alarms().fired_at == None::<LocalDateTime>,
        engine.without_alarms().last_fired_reminder == None::<Seq<char>>,
        engine.without_alarms().next_alarm_id == engine.next_alarm_id,
{
    list_without_a_number(engine.alarms, id, x);
}

/// Taking a number off a list of alarms keeps all alarms with other numbers, and only those.
pub proof fn list_without_a_number(
    alarms: Seq<PendingAlarmModel>,
    id: AlarmId,
    x: PendingAlarmModel,
)
    ensures
        alarms_without(alarms, id).contains(x) <==> alarms.contains(x) && x.id != id,
{
    let pred = |p: PendingAlarmModel| p.id != id;
    let left = alarms_without(alarms, id);
    if left.contains(x) {
        let i = choose|i: int| 0 <= i < left.len() && left[i] == x;
        let k = seqs::filtered_was_there(alarms, pred, i);
        assert(alarms[k] == x);
    }
    if alarms.contains(x) && x.id != id {
        let k = choose|k: int| 0 <= k < alarms.len() && alarms[k] == x;
        let i = seqs::passing_is_kept(alarms, pred, k);
        assert(left[i] == x);
    }
}

/// An engine is restored with the alarms that had not gone off, and no others; nothing has gone
/// off yet, and the next number is the lowest that is above all of theirs.
pub proof fn restored_engine_has_what_had_not_gone_off(
    alarms: Seq<PendingAlarmModel>,
    x: PendingAlarmModel,
)
    ensures
        restored_engine(alarms).alarms.contains(x) <==> alarms.contains(x) && x.status
            != AlarmStatus::Fired,
        restored_engine(alarms).fired_at == None::<LocalDateTime>,
        restored_engine(alarms).last_fired_reminder == None::<Seq<char>>,
        alarms.contains(x) && x.id < u64::MAX ==> x.id < restored_engine(alarms).next_alarm_id,
        restored_engine(alarms).next_alarm_id == 1 || exists|k: int|
            0 <= k < alarms.len() && ((#[trigger] alarms[k]).id + 1 == restored_engine(
                alarms,
            ).next_alarm_id || alarms[k].id == u64::MAX),
{
    let pred = |p: PendingAlarmModel| !(p.status is Fired);
    let kept = alarms.filter(pred);
    order::order_keeps_members(kept);
    if kept.contains(x) {
        let i = choose|i: int| 0 <= i < kept.len() && kept[i] == x;
        let k = seqs::filtered_was_there(alarms, pred, i);
        assert(alarms[k] == x);
    }
    if alarms.contains(x) {
        let k = choose|k: int| 0 <= k < alarms.len() && alarms[k] == x;
        next_id_is_fresh(alarms, k);
        if !(x.status is Fired) {
            let i = seqs::passing_is_kept(alarms, pred, k);
            assert(kept[i] == x);
        }
    }
    lemma_next_id_is_tight(alarms);
}

proof fn lemma_next_id_is_tight(alarms: Seq<PendingAlarmModel>)
    ensures
        next_id(alarms) == 1 || exists|k: int|
            0 <= k < alarms.len() && ((#[trigger] alarms[k]).id + 1 == next_id(alarms)
                || alarms[k].id == u64::MAX),
    decreases alarms.len(),
{
    if alarms.len() > 0 {
        let front = alarms.drop_last();
        lemma_next_id_is_tight(front);
        if next_id(alarms) == next_id(front) {
            if next_id(front) != 1 {
                let k = choose|k: int|
                    0 <= k < front.len() && ((#[trigger] front[k]).id + 1 == next_id(front)
                        || front[k].id == u64::MAX);
                assert(alarms[k] == front[k]);
            }
        } else {
            assert(alarms[alarms.len() - 1] == alarms.last());
        }
    }
}

/// In order means by time: an earlier alarm stands before a later one, and of two for the same
/// time the one with the lower number.
pub proof fn alarms_in_order_go_by_time(alarms: Seq<PendingAlarmModel>, i: int, j: int)
    requires
        order::in_order(alarms),
        0 <= i < alarms.len(),
        0 <= j < alarms.len(),
        alarms[i].alarm.scheduled_for.second() < alarms[j].alarm.scheduled_for.second() || (
        alarms[i].alarm.scheduled_for.second() == alarms[j].alarm.scheduled_for.second() && (
        alarms[i].alarm.scheduled_for.nanosecond() < alarms[j].alarm.scheduled_for.nanosecond()
            || (alarms[i].alarm.scheduled_for.nanosecond()
            == alarms[j].alarm.scheduled_for.nanosecond() && alarms[i].id < alarms[j].id))),
    ensures
        i < j,
{
    assert(alarms[i].precedes(alarms[j]));
    if j < i {
        assert(!alarms[i].precedes(alarms[j]));
    } else if i == j {
        PendingAlarmModel::precedes_is_asymmetric(alarms[i], alarms[j]);
    }
}

/// What there is to see of an engine: that an alarm waits as soon as one does, that alarms are
/// scheduled where there are any, that one went off where none are left, and else nothing.
pub proof fn snapshot_says_where_the_alarms_stand(engine: EngineModel)
    ensures
        ({
            let seen = engine.snapshot();
            let waits = exists|k: int|
                0 <= k < engine.alarms.len() && (#[trigger] engine.alarms[k]).status
                    == AlarmStatus::WaitingForGameEnd;
            &&& seen.alarms == engine.alarms
            &&& seen.fired_at == engine.fired_at
            &&& seen.last_fired_reminder == engine.last_fired_reminder
            &&& seen.status == AlarmStatus::WaitingForGameEnd <==> waits
            &&& seen.status == AlarmStatus::Scheduled <==> engine.alarms.len() > 0 && !waits
            &&& seen.status == AlarmStatus::Fired <==> engine.alarms.len() == 0
                && engine.fired_at is Some
            &&& seen.status == AlarmStatus::Idle <==> engine.alarms.len() == 0
                && engine.fired_at is None
        }),
{
}

/// Why no alarm time could be made out.
#[derive(Clone, Copy, Debug, PartialEq, Eq, Structural)]
pub enum AlarmTimeError {
    InvalidFormat,
    InvalidLocalTime,
    DateOverflow,
}

impl AlarmTimeError {
    /// What the user is told.
    pub open spec fn words(self) -> Seq<char> {
        match self {
            AlarmTimeError::InvalidFormat =>
                "Use 24-hour time, for example 19:30, 19.30, 19,30, or 1930"@,
            AlarmTimeError::InvalidLocalTime => "That local time does not exist on this date"@,
            AlarmTimeError::DateOverflow => "Could not calculate tomorrow's date"@,
        }
    }

    /// What the user is told.
    pub fn message(self) -> (message: String)
        ensures
            message@ == self.words(),
    {
        match self {
            AlarmTimeError::InvalidFormat => {
                "Use 24-hour time, for example 19:30, 19.30, 19,30, or 1930".to_owned()
            },
            AlarmTimeError::InvalidLocalTime => {
                "That local time does not exist on this date".to_owned()
            },
            AlarmTimeError::DateOverflow => "Could not calculate tomorrow's date".to_owned(),
        }
    }
}

/// A time of day, to the minute.
#[derive(Clone, Copy, Debug)]
pub struct ClockTime {
    hour: u8,
    minute: u8,
}

impl ClockTime {
    #[verifier::type_invariant]
    spec fn well_formed(self) -> bool {
        self.hour < 24 && self.minute < 60
    }

    /// The full hours since midnight.
    pub closed spec fn hours(self) -> nat {
        self.hour as nat
    }

    /// The minutes since the full hour.
    pub closed spec fn minutes(self) -> nat {
        self.minute as nat
    }

    /// The time of day with the given hour and minute; nothing if no clock shows them.
    pub fn from_hm(hour: u64, minute: u64) -> (time: Option<ClockTime>)
        ensures
            match time {
                Some(t) => t.hours() == hour && t.minutes() == minute && hour < 24 && minute < 60,
                None => hour >= 24 || minute >= 60,
            },
    {
        if hour < 24 && minute < 60 {
            Some(ClockTime { hour: hour as u8, minute: minute as u8 })
        } else {
            None
        }
    }
}

/// The hour and the minute that two texts give: an hour of one or two digits, and a minute of
/// two.
pub open spec fn time_of_parts(hour: Seq<char>, minute: Seq<char>) -> Option<(nat, nat)> {
    if 1 <= hour.len() <= 2 && minute.len() == 2 && text::all_digits(hour) && text::all_digits(
        minute,
    ) && text::digits_value(hour) < 24 && text::digits_value(minute) < 60 {
        Some((text::digits_value(hour), text::digits_value(minute)))
    } else {
        None
    }
}

/// The characters that can stand between the hour and the minute.
pub const TIME_SEPARATORS: &'static str = ":.,";

/// The hour and the minute that an input gives: four digits, or an hour and a minute with one
/// separator between them.
pub open spec fn time_of_text(input: Seq<char>) -> Option<(nat, nat)> {
    let inner = text::trimmed(input);
    let parts = text::pieces(inner, TIME_SEPARATORS@);
    if inner.len() == 4 && text::all_digits(inner) {
        time_of_parts(inner.take(2), inner.skip(2))
    } else if parts.len() == 2 {
        time_of_parts(parts[0], parts[1])
    } else {
        None
    }
}

/// The time of day that two texts give.
pub fn parse_alarm_time_parts(hour: &str, minute: &str) -> (parsed: Result<
    ClockTime,
    AlarmTimeError,
>)
    ensures
        match parsed {
            Ok(t) => time_of_parts(hour@, minute@) == Some((t.hours(), t.minutes())),
            Err(e) => e is InvalidFormat && time_of_parts(hour@, minute@) is None,
        },
{
    let hour_len: usize = text::chars_of(hour).len();
    let minute_len: usize = text::chars_of(minute).len();
    if hour_len == 0 || hour_len > 2 || minute_len != 2 || !text::only_digits(hour)
        || !text::only_digits(minute) {
        return Err(AlarmTimeError::InvalidFormat);
    }
    assert(hour@[0] != '+' && minute@[0] != '+') by {
        assert(text::is_digit(hour@[0]) && text::is_digit(minute@[0]));
    }
    match (text::parse_unsigned(hour, 23), text::parse_unsigned(minute, 59)) {
        (Some(h), Some(m)) => {
            match ClockTime::from_hm(h, m) {
                Some(time) => Ok(time),
                None => Err(AlarmTimeError::InvalidFormat),
            }
        },
        _ => Err(AlarmTimeError::InvalidFormat),
    }
}

/// The time of day that an input gives.
pub fn parse_alarm_time(input: &str) -> (parsed: Result<ClockTime, AlarmTimeError>)
    ensures
        match parsed {
            Ok(t) => time_of_text(input@) == Some((t.hours(), t.minutes())),
            Err(e) => e is InvalidFormat && time_of_text(input@) is None,
        },
{
    let inner = text::trim(input);
    let length: usize = text::chars_of(inner).len();
    if length == 4 && text::only_digits(inner) {
        assert(inner@.subrange(0, 2) == inner@.take(2));
        assert(inner@.subrange(2, 4) == inner@.skip(2));
        return parse_alarm_time_parts(inner.substring_char(0, 2), inner.substring_char(2, 4));
    }
    let parts = text::split(inner, TIME_SEPARATORS);
    if parts.len() != 2 {
        return Err(AlarmTimeError::InvalidFormat);
    }
    parse_alarm_time_parts(parts[0].as_str(), parts[1].as_str())
}

/// The text of a time of day: two digits for the hour, a dot, and two digits for the minute.
pub open spec fn dotted(hour: nat, minute: nat) -> Seq<char> {
    text::two_digits(hour).push('.') + text::two_digits(minute)
}

/// Writes an alarm time the way the app shows it.
pub fn normalize_alarm_time_text(input: &str) -> (normalized: Result<String, AlarmTimeError>)
    ensures
        match (normalized, time_of_text(input@)) {
            (Ok(t), Some((hour, minute))) => t@ == dotted(hour, minute),
            (Err(e), None) => e is InvalidFormat,
            _ => false,
        },
{
    match parse_alarm_time(input) {
        Ok(time) => {
            let mut shown = String::new();
            text::push_two_digits(&mut shown, time.hour);
            shown.push('.');
            text::push_two_digits(&mut shown, time.minute);
            assert(shown@ =~= dotted(time.hours(), time.minutes()));
            Ok(shown)
        },
        Err(error) => Err(error),
    }
}

/// An alarm time that was written the way the app shows it is read back as the same time.
pub proof fn normalized_time_reads_back(hour: nat, minute: nat)
    requires
        hour < 24,
        minute < 60,
    ensures
        time_of_text(dotted(hour, minute)) == Some((hour, minute)),
{
    reveal_strlit(":.,");
    let h = text::two_digits(hour);
    let m = text::two_digits(minute);
    let whole = dotted(hour, minute);
    let separators = TIME_SEPARATORS@;
    text::two_digits_read_back(hour);
    text::two_digits_read_back(minute);
    assert(separators[1] == '.');
    assert(whole[0] == h[0] && whole[2] == '.' && whole.last() == m[1]);
    assert(text::is_digit(h[0]) && text::is_digit(m[1]));
    text::trimmed_of_tight(whole);
    assert forall|i: int| 0 <= i < h.len() implies !separators.contains(#[trigger] h[i]) by {
        assert(text::is_digit(h[i]));
    }
    assert forall|i: int| 0 <= i < m.len() implies !separators.contains(#[trigger] m[i]) by {
        assert(text::is_digit(m[i]));
    }
    text::pieces_of_one(h, separators);
    text::pieces_of_one(m, separators);
    text::pieces_around(h, '.', m, separators);
}

/// The offset that counts for a second of the wall clock: the earlier one where the clock was
/// set back, none where the clock never shows that second.
pub open spec fn first_offset(offsets: LocalOffsets, wall_second: int) -> Option<int> {
    match offsets {
        LocalOffsets::Single(offset) | LocalOffsets::Ambiguous(offset, _) => {
            if time::on_calendar(wall_second - offset, offset as int) {
                Some(offset as int)
            } else {
                None
            }
        },
        LocalOffsets::Missing => None,
    }
}

/// Whether a point in time is the one at which a wall clock with the given offset shows the
/// given second.
pub open spec fn shows(t: LocalDateTime, wall_second: int, offset: int) -> bool {
    t.wall_second() == wall_second && t.offset() == offset && t.nanosecond() == 0
}

/// Whether `found` is what there is to say of a second of the wall clock.
pub open spec fn is_local_datetime(
    found: Result<LocalDateTime, AlarmTimeError>,
    wall_second: int,
    offsets: LocalOffsets,
) -> bool {
    match first_offset(offsets, wall_second) {
        Some(offset) => found matches Ok(t) && shows(t, wall_second, offset),
        None => found matches Err(e) && e is InvalidLocalTime,
    }
}

/// The point in time at which the wall clock shows a second.
pub fn local_datetime(wall_second: i64, offsets: LocalOffsets) -> (found: Result<
    LocalDateTime,
    AlarmTimeError,
>)
    ensures
        is_local_datetime(found, wall_second as int, offsets),
{
    let offset: i32 = match offsets {
        LocalOffsets::Single(offset) => offset,
        LocalOffsets::Ambiguous(earlier, _) => earlier,
        LocalOffsets::Missing => {
            return Err(AlarmTimeError::InvalidLocalTime);
        },
    };
    match wall_second.checked_sub(offset as i64) {
        Some(unix_seconds) => {
            match LocalDateTime::from_parts(unix_seconds, 0, offset) {
                Some(t) => Ok(t),
                None => Err(AlarmTimeError::InvalidLocalTime),
            }
        },
        None => Err(AlarmTimeError::InvalidLocalTime),
    }
}

/// The second of the wall clock at an hour and a minute of a day.
pub open spec fn wall_second_at(day: int, hour: nat, minute: nat) -> int {
    day * SECONDS_PER_DAY + hour * 3600 + minute * 60
}

/// Whether `found` is the next time after `now` at which the wall clock shows an hour and a
/// minute: that time today, if it is still to come, and else that time tomorrow. There is none
/// where the calendar does not have the day.
pub open spec fn is_next_alarm_time(
    found: Result<LocalDateTime, AlarmTimeError>,
    hour: nat,
    minute: nat,
    now: LocalDateTime,
    today: LocalOffsets,
    tomorrow: LocalOffsets,
) -> bool {
    let wall_today = wall_second_at(now.wall_day(), hour, minute);
    let wall_tomorrow = wall_second_at(now.wall_day() + 1, hour, minute);
    if !(FIRST_DAY <= now.wall_day() <= LAST_DAY) {
        found matches Err(e) && e is DateOverflow
    } else {
        match first_offset(today, wall_today) {
            None => found matches Err(e) && e is InvalidLocalTime,
            Some(offset) => if now.second() < wall_today - offset {
                found matches Ok(t) && shows(t, wall_today, offset)
            } else if now.wall_day() == LAST_DAY {
                found matches Err(e) && e is DateOverflow
            } else {
                is_local_datetime(found, wall_tomorrow, tomorrow)
            },
        }
    }
}

/// The second of the wall clock at a time of a day.
pub(crate) fn wall_second_of(day: i64, time: ClockTime) -> (second: i64)
    requires
        FIRST_DAY - 1 <= day <= LAST_DAY + 1,
    ensures
        second == wall_second_at(day as int, time.hours(), time.minutes()),
        FIRST_DAY <= day <= LAST_DAY ==> time::FIRST_SECOND <= second <= time::LAST_SECOND,
{
    proof {
        use_type_invariant(&time);
    }
    day * SECONDS_PER_DAY + time.hour as i64 * 3600 + time.minute as i64 * 60
}

/// The next time after `now` at which the wall clock shows a time of day, given what the time
/// zone says of that time today and tomorrow.
pub fn next_alarm_time_from(
    time: ClockTime,
    now: LocalDateTime,
    today: LocalOffsets,
    tomorrow: LocalOffsets,
) -> (found: Result<LocalDateTime, AlarmTimeError>)
    ensures
        is_next_alarm_time(found, time.hours(), time.minutes(), now, today, tomorrow),
{
    let day: i64 = now.day();
    if day < FIRST_DAY || day > LAST_DAY {
        return Err(AlarmTimeError::DateOverflow);
    }
    match local_datetime(wall_second_of(day, time), today) {
        Ok(candidate) => {
            if now.before(candidate) {
                Ok(candidate)
            } else if day == LAST_DAY {
                Err(AlarmTimeError::DateOverflow)
            } else {
                local_datetime(wall_second_of(day + 1, time), tomorrow)
            }
        },
        Err(error) => Err(error),
    }
}

/// Whether `found` is the next alarm time for what `zone` says of that time today, and
/// `next_zone` of that time tomorrow. The two differ where the zone of the machine is changed
/// between the two questions.
pub open spec fn is_next_alarm_time_in(
    found: Result<LocalDateTime, AlarmTimeError>,
    hour: nat,
    minute: nat,
    now: LocalDateTime,
    zone: Seq<char>,
    next_zone: Seq<char>,
) -> bool {
    let wall_today = wall_second_at(now.wall_day(), hour, minute);
    let wall_tomorrow = wall_second_at(now.wall_day() + 1, hour, minute);
    let today = time::zone_offsets(zone, wall_today);
    let tomorrow = time::zone_offsets(next_zone, wall_tomorrow);
    &&& FIRST_DAY <= now.wall_day() <= LAST_DAY ==> time::offsets_fit(today, wall_today)
    &&& FIRST_DAY <= now.wall_day() < LAST_DAY ==> time::offsets_fit(tomorrow, wall_tomorrow)
    &&& is_next_alarm_time(found, hour, minute, now, today, tomorrow)
}

/// Whether `found` is the next alarm time for an input, by what two zones say of today and of
/// tomorrow.
pub open spec fn is_next_alarm_time_for(
    found: Result<LocalDateTime, AlarmTimeError>,
    input: Seq<char>,
    now: LocalDateTime,
    zone: Seq<char>,
    next_zone: Seq<char>,
) -> bool {
    match time_of_text(input) {
        Some((hour, minute)) => is_next_alarm_time_in(found, hour, minute, now, zone, next_zone),
        None => found matches Err(e) && e is InvalidFormat,
    }
}

/// Whether `found` may be what a machine finds as the next alarm time for an input. What it
/// finds depends on its time zone.
pub open spec fn may_be_next_alarm_time(
    found: Result<LocalDateTime, AlarmTimeError>,
    input: Seq<char>,
    now: LocalDateTime,
) -> bool {
    exists|zone: Seq<char>, next_zone: Seq<char>| #[trigger]
        is_next_alarm_time_for(found, input, now, zone, next_zone)
}

/// The next time after `now` at which the local wall clock shows the time of day that an input
/// gives.
pub fn next_alarm_time(input: &str, now: LocalDateTime) -> (found: Result<
    LocalDateTime,
    AlarmTimeError,
>)
    ensures
        may_be_next_alarm_time(found, input@, now),
{
    let ghost mut zone: Seq<char> = Seq::empty();
    let ghost mut next_zone: Seq<char> = Seq::empty();
    let found = match parse_alarm_time(input) {
        Ok(time) => {
            let day: i64 = now.day();
            let mut today = LocalOffsets::Missing;
            let mut tomorrow = LocalOffsets::Missing;
            if FIRST_DAY <= day && day <= LAST_DAY {
                let wall_today: i64 = wall_second_of(day, time);
                today = local_offsets(wall_today);
                proof {
                    zone = choose|zone: Seq<char>|
                        today == #[trigger] time::zone_offsets(zone, wall_today as int);
                }
            }
            if FIRST_DAY <= day && day < LAST_DAY {
                let wall_tomorrow: i64 = wall_second_of(day + 1, time);
                tomorrow = local_offsets(wall_tomorrow);
                proof {
                    next_zone = choose|zone: Seq<char>|
                        tomorrow == #[trigger] time::zone_offsets(zone, wall_tomorrow as int);
                }
            }
            next_alarm_time_from(time, now, today, tomorrow)
        },
        Err(error) => Err(error),
    };
    assert(is_next_alarm_time_for(found, input@, now, zone, next_zone));
    found
}

/// The alarm time that is found shows the hour and the minute that were asked for, on the wall
/// clock of today or of tomorrow.
pub proof fn alarm_time_shows_the_time_asked_for(
    t: LocalDateTime,
    hour: nat,
    minute: nat,
    now: LocalDateTime,
    today: LocalOffsets,
    tomorrow: LocalOffsets,
)
    requires
        hour < 24,
        minute < 60,
        is_next_alarm_time(Ok(t), hour, minute, now, today, tomorrow),
    ensures
        t.wall_second() % SECONDS_PER_DAY as int == hour * 3600 + minute * 60,
        t.wall_day() == now.wall_day() || t.wall_day() == now.wall_day() + 1,
        t.nanosecond() == 0,
{
}

/// The alarm time that is found is still to come, unless the wall clock is set forward past it
/// in the meantime.
pub proof fn alarm_time_is_ahead(
    t: LocalDateTime,
    hour: nat,
    minute: nat,
    now: LocalDateTime,
    today: LocalOffsets,
    tomorrow: LocalOffsets,
)
    requires
        hour < 24,
        minute < 60,
        is_next_alarm_time(Ok(t), hour, minute, now, today, tomorrow),
        t.offset() - now.offset() <= hour * 3600 + minute * 60,
    ensures
        now.is_before(t),
{
    let wall_today = wall_second_at(now.wall_day(), hour, minute);
    if t.wall_second() != wall_today {
        assert(now.wall_second() < (now.wall_day() + 1) * SECONDS_PER_DAY);
    }
}

/// Where the offset does not change, the alarm time that is found is at most a day ahead.
pub proof fn alarm_time_is_within_a_day(
    t: LocalDateTime,
    hour: nat,
    minute: nat,
    now: LocalDateTime,
    today: LocalOffsets,
    tomorrow: LocalOffsets,
)
    requires
        hour < 24,
        minute < 60,
        is_next_alarm_time(Ok(t), hour, minute, now, today, tomorrow),
        first_offset(today, wall_second_at(now.wall_day(), hour, minute)) == Some(now.offset()),
        t.offset() == now.offset(),
    ensures
        now.second() < t.second() <= now.second() + SECONDS_PER_DAY,
{
    assert(now.wall_day() * SECONDS_PER_DAY <= now.wall_second() < (now.wall_day() + 1)
        * SECONDS_PER_DAY);
}

/// A time can be written with a colon, a dot or a comma between the hour and the minute, as four
/// digits, or with a single digit for an early hour; white space around it does not matter. Each
/// time it is read as that hour and that minute.
pub proof fn every_way_of_writing_a_time_is_read(hour: nat, minute: nat, separator: char)
    requires
        hour < 24,
        minute < 60,
        separator == ':' || separator == '.' || separator == ',',
    ensures
        time_of_text(text::two_digits(hour).push(separator) + text::two_digits(minute)) == Some(
            (hour, minute),
        ),
        time_of_text(text::two_digits(hour) + text::two_digits(minute)) == Some((hour, minute)),
        hour < 10 ==> time_of_text(
            seq![text::digit_char(hour)].push(separator) + text::two_digits(minute),
        ) == Some((hour, minute)),
{
    reveal_strlit(":.,");
    let h = text::two_digits(hour);
    let m = text::two_digits(minute);
    let separators = TIME_SEPARATORS@;
    text::two_digits_read_back(hour);
    text::two_digits_read_back(minute);
    assert(separators[0] == ':' && separators[1] == '.' && separators[2] == ',');
    assert(separators.contains(separator));
    assert(text::is_digit(h[0]) && text::is_digit(h[1]) && text::is_digit(m[0]) && text::is_digit(
        m[1],
    ));
    lemma_two_parts_are_read(h, separator, m);
    let plain = h + m;
    assert(plain[0] == h[0] && plain.last() == m[1]);
    text::trimmed_of_tight(plain);
    assert forall|i: int| 0 <= i < plain.len() implies text::is_digit(#[trigger] plain[i]) by {
        if i < 2 {
            assert(plain[i] == h[i]);
        } else {
            assert(plain[i] == m[i - 2]);
        }
    }
    assert(plain.take(2) =~= h);
    assert(plain.skip(2) =~= m);
    if hour < 10 {
        let one = seq![text::digit_char(hour)];
        reveal_with_fuel(text::digits_value, 2);
        assert(one.drop_last() =~= Seq::empty());
        assert(text::digits_value(one) == hour);
        assert(text::is_digit(one[0]));
        lemma_two_parts_are_read(one, separator, m);
    }
}

proof fn lemma_two_parts_are_read(h: Seq<char>, separator: char, m: Seq<char>)
    requires
        1 <= h.len() <= 2,
        m.len() == 2,
        text::all_digits(h),
        text::all_digits(m),
        separator == ':' || separator == '.' || separator == ',',
    ensures
        time_of_text(h.push(separator) + m) == time_of_parts(h, m),
{
    reveal_strlit(":.,");
    let separators = TIME_SEPARATORS@;
    let whole = h.push(separator) + m;
    assert(separators[0] == ':' && separators[1] == '.' && separators[2] == ',');
    assert(separators.contains(separator));
    assert(text::is_digit(h[0]) && text::is_digit(m[1]));
    assert(whole[0] == h[0] && whole.last() == m[1]);
    text::trimmed_of_tight(whole);
    assert(whole[h.len() as int] == separator);
    assert(!text::is_digit(whole[h.len() as int]));
    assert forall|i: int| 0 <= i < h.len() implies !separators.contains(#[trigger] h[i]) by {
        assert(text::is_digit(h[i]));
    }
    assert forall|i: int| 0 <= i < m.len() implies !separators.contains(#[trigger] m[i]) by {
        assert(text::is_digit(m[i]));
    }
    text::pieces_of_two(h, separator, m, separators);
}

/// What is read as a time is one: an hour below 24 and a minute below 60, written with digits
/// and a colon, a dot or a comma; digits alone are four. White space around it does not matter.
pub proof fn what_is_read_is_a_time_of_day(input: Seq<char>, i: int)
    requires
        time_of_text(input) is Some,
    ensures
        time_of_text(input) matches Some((hour, minute)) && hour < 24 && minute < 60,
        time_of_text(text::trimmed(input)) == time_of_text(input),
        0 <= i < text::trimmed(input).len() ==> ({
            let c = text::trimmed(input)[i];
            '0' <= c <= '9' || c == ':' || c == '.' || c == ','
        }),
        text::all_digits(text::trimmed(input)) ==> text::trimmed(input).len() == 4,
{
    let inner = text::trimmed(input);
    let parts = text::pieces(inner, TIME_SEPARATORS@);
    reveal_strlit(":.,");
    text::trimming_twice_is_trimming_once(input);
    let separators = TIME_SEPARATORS@;
    if 0 <= i < inner.len() && !text::all_digits(inner) {
        if separators.contains(inner[i]) {
            let n = choose|n: int| 0 <= n < separators.len() && separators[n] == inner[i];
            assert(n == 0 || n == 1 || n == 2);
        } else {
            let k = text::pieces_hold_every_character(inner, separators, i);
            assert(k == 0 || k == 1);
            let m = choose|m: int| 0 <= m < parts[k].len() && parts[k][m] == inner[i];
            assert(text::is_digit(parts[k][m]));
        }
    } else if 0 <= i < inner.len() {
        assert(text::is_digit(inner[i]));
    }
    if text::all_digits(inner) && inner.len() != 4 {
        assert forall|k: int| 0 <= k < inner.len() implies !separators.contains(
            #[trigger] inner[k],
        ) by {
            assert(text::is_digit(inner[k]));
            if separators.contains(inner[k]) {
                let n = choose|n: int| 0 <= n < separators.len() && separators[n] == inner[k];
                assert(n == 0 || n == 1 || n == 2);
            }
        }
        text::pieces_of_one(inner, separators);
    }
}

/// Where the wall clock never shows the time that was asked for, there is no alarm time. Where it
/// shows it twice, the first of the two counts.
pub proof fn skipped_and_repeated_times(
    found: Result<LocalDateTime, AlarmTimeError>,
    hour: nat,
    minute: nat,
    now: LocalDateTime,
    today: LocalOffsets,
    tomorrow: LocalOffsets,
)
    requires
        hour < 24,
        minute < 60,
        FIRST_DAY <= now.wall_day() < LAST_DAY,
        time::offsets_fit(today, wall_second_at(now.wall_day(), hour, minute)),
        time::offsets_fit(tomorrow, wall_second_at(now.wall_day() + 1, hour, minute)),
        is_next_alarm_time(found, hour, minute, now, today, tomorrow),
    ensures
        today == LocalOffsets::Missing ==> found == Err::<LocalDateTime, AlarmTimeError>(
            AlarmTimeError::InvalidLocalTime,
        ),
        found is Err ==> found == Err::<LocalDateTime, AlarmTimeError>(
            AlarmTimeError::InvalidLocalTime,
        ) && (today == LocalOffsets::Missing || tomorrow == LocalOffsets::Missing),
        found matches Ok(t) ==> {
            &&& t.wall_day() == now.wall_day() ==> (today matches LocalOffsets::Single(o)
                && t.offset() == o) || (today matches LocalOffsets::Ambiguous(first, _)
                && t.offset() == first)
            &&& t.wall_day() == now.wall_day() + 1 ==> (tomorrow matches LocalOffsets::Single(o)
                && t.offset() == o) || (tomorrow matches LocalOffsets::Ambiguous(first, _)
                && t.offset() == first)
            &&& t.wall_day() == now.wall_day() ==> now.second() < t.second()
        },
{
}

/// Whether the wall clock shows an hour and a minute at a point in time, and no second more.
pub open spec fn shows_time(t: LocalDateTime, hour: nat, minute: nat) -> bool {
    t.wall_second() == wall_second_at(t.wall_day(), hour, minute) && t.nanosecond() == 0
}

/// Whether a point in time is the earliest after `now` at which the wall clock of a time zone
/// shows an hour and a minute.
pub open spec fn is_earliest(
    t: LocalDateTime,
    hour: nat,
    minute: nat,
    now: LocalDateTime,
    zone: Seq<char>,
) -> bool {
    &&& now.is_before(t)
    &&& time::shown_in(zone, t)
    &&& shows_time(t, hour, minute)
    &&& forall|u: LocalDateTime| #[trigger]
        time::shown_in(zone, u) && shows_time(u, hour, minute) && now.is_before(u)
            ==> !u.is_before(t)
}

/// Whether the wall clock of a time zone shows an hour and a minute just once on the day of `now`,
/// and just once on the day after it, which the calendar has.
pub open spec fn shown_once_a_day(
    zone: Seq<char>,
    hour: nat,
    minute: nat,
    now: LocalDateTime,
) -> bool {
    &&& FIRST_DAY <= now.wall_day() < LAST_DAY
    &&& time::zone_offsets(zone, wall_second_at(now.wall_day(), hour, minute)) is Single
    &&& time::zone_offsets(zone, wall_second_at(now.wall_day() + 1, hour, minute)) is Single
}

/// Whether the days are in order where the wall clock of a time zone shows an hour and a minute:
/// none that it shows between `now` and `t` is before that of `now` or after that of `t`, and `t`
/// is not of a later day than `now` without being later. It is otherwise where the wall clock is
/// set back over midnight.
pub open spec fn days_in_order(
    zone: Seq<char>,
    hour: nat,
    minute: nat,
    now: LocalDateTime,
    t: LocalDateTime,
) -> bool {
    &&& t.second() <= now.second() ==> t.wall_day() <= now.wall_day()
    &&& forall|u: LocalDateTime| #[trigger]
        time::shown_in(zone, u) && shows_time(u, hour, minute) && now.is_before(u) && u.is_before(t)
            ==> now.wall_day() <= u.wall_day() <= t.wall_day()
}

/// Where the machine keeps to one time zone, the next alarm time for a readable input is the
/// earliest point in time after `now` at which the wall clock shows the time asked for, if it
/// shows it just once today and just once tomorrow. An input that cannot be read is an error.
///
/// Left out is where the wall clock, set back over midnight, shows the time asked for on a day
/// that was over.
pub proof fn next_alarm_time_is_the_earliest(
    found: Result<LocalDateTime, AlarmTimeError>,
    input: Seq<char>,
    now: LocalDateTime,
    zone: Seq<char>,
)
    requires
        is_next_alarm_time_for(found, input, now, zone, zone),
        time_of_text(input) matches Some((hour, minute)) ==> {
            &&& shown_once_a_day(zone, hour, minute, now)
            &&& found matches Ok(t) ==> days_in_order(zone, hour, minute, now, t)
        },
    ensures
        match time_of_text(input) {
            Some((hour, minute)) => found matches Ok(t) && is_earliest(t, hour, minute, now, zone),
            None => found matches Err(e) && e is InvalidFormat,
        },
{
}

/// Whether the wall clock of a time zone never goes back to a day that was over.
pub open spec fn days_only_go_on(zone: Seq<char>) -> bool {
    forall|a: LocalDateTime, b: LocalDateTime| #[trigger]
        time::shown_in(zone, a) && #[trigger] time::shown_in(zone, b) && a.second() <= b.second()
            ==> a.wall_day() <= b.wall_day()
}

/// The next alarm time is the earliest point in time at which the wall clock shows the time asked
/// for, on a wall clock that never goes back to a day that was over.
pub proof fn next_alarm_time_is_the_earliest_where_days_go_on(
    found: Result<LocalDateTime, AlarmTimeError>,
    hour: nat,
    minute: nat,
    now: LocalDateTime,
    zone: Seq<char>,
)
    requires
        hour < 24,
        minute < 60,
        is_next_alarm_time_in(found, hour, minute, now, zone, zone),
        shown_once_a_day(zone, hour, minute, now),
        time::shown_in(zone, now),
        days_only_go_on(zone),
    ensures
        found matches Ok(t) && is_earliest(t, hour, minute, now, zone),
{
    assert(found matches Ok(t) && time::shown_in(zone, t));
}

/// The next alarm time is the earliest point in time at which the wall clock shows the time asked
/// for, where the offset of the wall clock never changes.
pub proof fn next_alarm_time_is_the_earliest_where_the_offset_stays(
    found: Result<LocalDateTime, AlarmTimeError>,
    hour: nat,
    minute: nat,
    now: LocalDateTime,
    zone: Seq<char>,
    offset: i32,
)
    requires
        hour < 24,
        minute < 60,
        is_next_alarm_time_in(found, hour, minute, now, zone, zone),
        FIRST_DAY <= now.wall_day() < LAST_DAY,
        now.offset() == offset,
        forall|wall_second: int| #[trigger]
            time::zone_offsets(zone, wall_second) == LocalOffsets::Single(offset),
    ensures
        found matches Ok(t) && is_earliest(t, hour, minute, now, zone),
{
    next_alarm_time_is_the_earliest_where_days_go_on(found, hour, minute, now, zone);
}

} // verus!
