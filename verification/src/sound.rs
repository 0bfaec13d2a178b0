//! Alarm sounds: which one to play, how loud, and what can go wrong.
use vstd::prelude::*;

use crate::paths;
use crate::paths::{path_from_text, same_path, PathParts};
use crate::storage::{DEFAULT_SOUND_NAME, DEFAULT_SOUND_PATH};

verus! {

/// The milliseconds in which a sound that fades in reaches its volume.
pub const ALARM_SOUND_FADE_IN_MILLIS: u64 = 5000;

/// How to play a sound. The volume is in percent.
#[derive(Clone, Copy, Debug, PartialEq, Eq, Structural)]
pub struct SoundPlaybackSettings {
    pub volume_percent: u8,
    pub fade_in: bool,
}

impl DeepView for SoundPlaybackSettings {
    type V = SoundPlaybackSettings;

    open spec fn deep_view(&self) -> SoundPlaybackSettings {
        *self
    }
}

/// Full volume at once.
pub open spec fn full_volume() -> SoundPlaybackSettings {
    SoundPlaybackSettings { volume_percent: 100, fade_in: false }
}

impl SoundPlaybackSettings {
    /// The settings for a volume in percent. More than 100 counts as 100.
    pub fn from_percent(volume_percent: u8, fade_in: bool) -> (settings: SoundPlaybackSettings)
        ensures
            settings.volume_percent == if volume_percent > 100 {
                100
            } else {
                volume_percent
            },
            settings.fade_in == fade_in,
    {
        let volume_percent: u8 = if volume_percent > 100 {
            100
        } else {
            volume_percent
        };
        SoundPlaybackSettings { volume_percent, fade_in }
    }
}

impl Default for SoundPlaybackSettings {
    fn default() -> (settings: SoundPlaybackSettings)
        ensures
            settings == full_volume(),
    {
        SoundPlaybackSettings::from_percent(100, false)
    }
}

/// Stands for a sound that is being played.
#[derive(Clone, Copy, Debug, PartialEq, Eq, Structural)]
pub struct SoundHandle {
    pub id: u64,
}

impl DeepView for SoundHandle {
    type V = SoundHandle;

    open spec fn deep_view(&self) -> SoundHandle {
        *self
    }
}

/// What went wrong with a sound. The path of a file is given as the system shows it.
#[derive(Debug, PartialEq, Eq)]
pub enum SoundError {
    Open { path: String, source: String },
    OutputDevice(String),
    Decode(String),
}

/// The model of a sound error.
#[verifier::ext_equal]
pub enum SoundErrorModel {
    Open { path: Seq<char>, source: Seq<char> },
    OutputDevice(Seq<char>),
    Decode(Seq<char>),
}

impl DeepView for SoundError {
    type V = SoundErrorModel;

    open spec fn deep_view(&self) -> SoundErrorModel {
        match *self {
            SoundError::Open { path, source } => SoundErrorModel::Open {
                path: path@,
                source: source@,
            },
            SoundError::OutputDevice(reason) => SoundErrorModel::OutputDevice(reason@),
            SoundError::Decode(reason) => SoundErrorModel::Decode(reason@),
        }
    }
}

impl SoundErrorModel {
    /// What the user is told.
    pub open spec fn words(self) -> Seq<char> {
        match self {
            SoundErrorModel::Open { path, source } => "could not open alarm sound file "@
                + path + ": "@ + source,
            SoundErrorModel::OutputDevice(reason) => "could not open default audio output: "@
                + reason,
            SoundErrorModel::Decode(reason) => "could not decode alarm sound file: "@ + reason,
        }
    }
}

impl SoundError {
    /// What the user is told.
    pub fn message(&self) -> (message: String)
        ensures
            message@ == self.deep_view().words(),
    {
        match self {
            SoundError::Open { path, source } => {
                let mut message = "could not open alarm sound file ".to_owned();
                message.append(path.as_str());
                message.append(": ");
                message.append(source.as_str());
                message
            },
            SoundError::OutputDevice(reason) => {
                let mut message = "could not open default audio output: ".to_owned();
                message.append(reason.as_str());
                message
            },
            SoundError::Decode(reason) => {
                let mut message = "could not decode alarm sound file: ".to_owned();
                message.append(reason.as_str());
                message
            },
        }
    }
}

/// The model of what came of playing a sound.
pub open spec fn sound_outcome(outcome: Result<Option<SoundHandle>, SoundError>) -> Result<
    Option<SoundHandle>,
    SoundErrorModel,
> {
    match outcome {
        Ok(sound) => Ok(sound),
        Err(error) => Err(error.deep_view()),
    }
}

/// Something that plays sounds.
pub trait SoundPlayer: Send + Sized {
    /// Whether playing a sound may end in `outcome`; it may, unless a player says more.
    open spec fn may_play(
        &self,
        sound_path: Option<Seq<char>>,
        settings: SoundPlaybackSettings,
        outcome: Result<Option<SoundHandle>, SoundErrorModel>,
    ) -> bool {
        true
    }

    /// Begins to play a sound. Without a path there is nothing to play.
    fn play(&self, sound_path: Option<String>, settings: SoundPlaybackSettings) -> (outcome: Result<
        Option<SoundHandle>,
        SoundError,
    >)
        ensures
            self.may_play(sound_path.deep_view(), settings, sound_outcome(outcome)),
    ;
}

/// What to play.
#[derive(Debug, PartialEq, Eq)]
pub enum SoundSource {
    Nothing,
    Bundled,
    File(String),
}

/// Whether a path is that of the sound that comes with the app, as the system compares paths. A
/// path that ends in another name is not.
pub fn is_default_sound_path(path: &str) -> (is_default: bool)
    ensures
        path@ == DEFAULT_SOUND_PATH@ ==> is_default,
        forall|name: Seq<char>| #[trigger]
            paths::ends_in_name(seq![path@], name) && name != DEFAULT_SOUND_NAME@ ==> !is_default,
        exists|system: Seq<char>|
            is_default == #[trigger] paths::same_path_on(
                system,
                seq![path@],
                seq![DEFAULT_SOUND_PATH@],
            ),
{
    proof {
        lemma_name_of_default();
    }
    same_path(&PathParts::from_text(path), &PathParts::from_text(DEFAULT_SOUND_PATH))
}

proof fn lemma_name_of_default()
    ensures
        paths::ends_in_name(seq![DEFAULT_SOUND_PATH@], DEFAULT_SOUND_NAME@),
{
    reveal_strlit("sounds/universfield-alarm.mp3");
    reveal_strlit("universfield-alarm.mp3");
    assert(DEFAULT_SOUND_NAME@.is_suffix_of(DEFAULT_SOUND_PATH@));
}

/// What to play for a path, given whether it is that of the sound that comes with the app.
pub fn source_for(path: Option<String>, is_default: bool) -> (source: SoundSource)
    ensures
        match path {
            None => source is Nothing,
            Some(p) => if is_default {
                source is Bundled
            } else {
                source matches SoundSource::File(f) && f@ == p@
            },
        },
{
    match path {
        None => SoundSource::Nothing,
        Some(path) => {
            if is_default {
                SoundSource::Bundled
            } else {
                SoundSource::File(path)
            }
        },
    }
}

/// What to play for a path: the sound that comes with the app, where some system takes the path
/// to be that of this sound, and else the file at the path.
pub fn sound_source(path: Option<String>) -> (source: SoundSource)
    ensures
        match path {
            None => source is Nothing,
            Some(p) => {
                &&& p@ == DEFAULT_SOUND_PATH@ ==> source is Bundled
                &&& forall|name: Seq<char>| #[trigger]
                    paths::ends_in_name(seq![p@], name) && name != DEFAULT_SOUND_NAME@ ==> (
                    source matches SoundSource::File(f) && f@ == p@)
                &&& exists|system: Seq<char>|
                    if #[trigger] paths::same_path_on(system, seq![p@], seq![DEFAULT_SOUND_PATH@]) {
                        source is Bundled
                    } else {
                        source matches SoundSource::File(f) && f@ == p@
                    }
            },
        },
{
    let is_default: bool = match &path {
        Some(path) => is_default_sound_path(path.as_str()),
        None => false,
    };
    source_for(path, is_default)
}

/// The path of the sound that was typed in; none if it is blank.
pub fn sound_path_from_text(value: &str) -> (path: Option<String>)
    ensures
        path.deep_view() == paths::typed_path(value@),
{
    path_from_text(value)
}

} // verus!
