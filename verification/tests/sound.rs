use alarm_at_game_end::notifier::NotificationError;
use alarm_at_game_end::sound::{
    is_default_sound_path, sound_path_from_text, sound_source, source_for, SoundError,
    SoundPlaybackSettings, SoundSource, ALARM_SOUND_FADE_IN_MILLIS,
};
use alarm_at_game_end::storage::{DEFAULT_SOUND_NAME, DEFAULT_SOUND_PATH};

#[test]
fn blank_sound_path_disables_alarm_sound() {
    assert_eq!(sound_path_from_text("   "), None);
}

#[test]
fn sound_path_keeps_entered_path() {
    assert_eq!(
        sound_path_from_text("C:/sounds/alarm.mp3"),
        Some("C:/sounds/alarm.mp3".to_owned())
    );
}

#[test]
fn bundled_default_sound_path_is_recognized() {
    assert!(is_default_sound_path(DEFAULT_SOUND_PATH));
    assert!(!is_default_sound_path("C:/sounds/alarm.mp3"));
}

#[test]
fn playback_settings_use_percent_volume() {
    assert_eq!(
        SoundPlaybackSettings::from_percent(65, true),
        SoundPlaybackSettings {
            volume_percent: 65,
            fade_in: true,
        }
    );
    assert_eq!(
        SoundPlaybackSettings::from_percent(150, false).volume_percent,
        100
    );
}

#[test]
fn sound_is_full_by_default() {
    assert_eq!(
        SoundPlaybackSettings::default(),
        SoundPlaybackSettings {
            volume_percent: 100,
            fade_in: false,
        }
    );
    assert_eq!(ALARM_SOUND_FADE_IN_MILLIS, 5000);
}

#[test]
fn source_goes_by_the_path() {
    assert_eq!(sound_source(None), SoundSource::Nothing);
    assert_eq!(
        sound_source(Some(DEFAULT_SOUND_PATH.to_owned())),
        SoundSource::Bundled
    );
    assert_eq!(
        sound_source(Some("sounds//universfield-alarm.mp3".to_owned())),
        SoundSource::Bundled
    );
    assert_eq!(
        sound_source(Some("/tmp/a.wav".to_owned())),
        SoundSource::File("/tmp/a.wav".to_owned())
    );
    assert_eq!(source_for(None, true), SoundSource::Nothing);
    assert_eq!(
        source_for(Some("x".to_owned()), true),
        SoundSource::Bundled
    );
    assert_eq!(
        source_for(Some("x".to_owned()), false),
        SoundSource::File("x".to_owned())
    );
}

#[test]
fn sound_error_words() {
    assert_eq!(
        SoundError::Open {
            path: "\"a.mp3\"".to_owned(),
            source: "not there".to_owned()
        }
        .message(),
        "could not open alarm sound file \"a.mp3\": not there"
    );
    assert_eq!(
        SoundError::OutputDevice("none".to_owned()).message(),
        "could not open default audio output: none"
    );
    assert_eq!(
        SoundError::Decode("bad".to_owned()).message(),
        "could not decode alarm sound file: bad"
    );
    assert_eq!(
        NotificationError::Show("no bus".to_owned()).message(),
        "could not show system notification: no bus"
    );
}

#[test]
fn path_with_another_name_is_not_the_bundled_one() {
    assert!(DEFAULT_SOUND_PATH.ends_with(DEFAULT_SOUND_NAME));
    for path in [
        "alarm.mp3",
        "sounds/alarm.mp3",
        "/sounds/alarm.mp3",
        "sounds/universfield-alarm.mp3/alarm.mp3",
        "sounds/Universfield-alarm.mp3",
    ] {
        assert!(!is_default_sound_path(path));
        assert_eq!(
            sound_source(Some(path.to_owned())),
            SoundSource::File(path.to_owned())
        );
    }
}
