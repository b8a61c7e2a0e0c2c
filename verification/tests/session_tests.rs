use sonicast::attrs::Attributes;
use sonicast::client::signals;
use sonicast::session::{
    load_player_state_plan, options_event, playback_event, player_state_from_status,
    AirsonicTrackId, PlayerState, SeqNumber,
};
use sonicast::types::{MpdEvent, ReplayGainMode, Seconds, Status};

fn status_from(pairs: &[(&str, &str)]) -> Status {
    let mut attrs = Attributes::new();
    for (k, v) in pairs {
        attrs.push((*k).to_owned(), (*v).to_owned());
    }
    Status::from_attributes(&attrs).unwrap()
}

#[test]
fn airsonic_ids_fold_radio_stations_under_a_prefix() {
    let track = AirsonicTrackId::from_string("song-42".to_owned());
    assert!(matches!(track, AirsonicTrackId::Track(_)));
    assert_eq!(track.as_string(), "song-42");

    let radio = AirsonicTrackId::from_string("radio-fm4".to_owned());
    match &radio {
        AirsonicTrackId::Radio(id) => assert_eq!(id.0, "fm4"),
        other => panic!("expected a radio id, got {:?}", other),
    }
    assert_eq!(radio.as_string(), "radio-fm4");
}

#[test]
fn playback_event_reports_progress() {
    let status = status_from(&[
        ("state", "play"),
        ("elapsed", "1.5"),
        ("duration", "3"),
        ("playlist", "1"),
        ("repeat", "0"),
        ("random", "0"),
        ("single", "0"),
    ]);
    let ev = playback_event(&status);
    assert!(ev.playing);
    assert_eq!(ev.position, Some(Seconds::from_millis(1_500)));
    assert_eq!(ev.duration, Some(Seconds::from_millis(3_000)));
}

#[test]
fn options_event_defaults_absent_volume_to_full() {
    let status = status_from(&[
        ("state", "stop"),
        ("playlist", "1"),
        ("repeat", "1"),
        ("random", "0"),
        ("single", "1"),
    ]);
    let ev = options_event(&status, ReplayGainMode::Auto);
    assert_eq!(ev.volume_percent, 100);
    assert!(ev.repeat && !ev.shuffle && ev.single);
    assert_eq!(ev.replay_gain, ReplayGainMode::Auto);
}

#[test]
fn player_state_captures_position_and_flags() {
    let status = status_from(&[
        ("state", "play"),
        ("song", "3"),
        ("elapsed", "42.25"),
        ("playlist", "9"),
        ("repeat", "1"),
        ("random", "1"),
        ("single", "0"),
    ]);
    let tracks = vec![AirsonicTrackId::from_string("t1".to_owned())];
    let state = player_state_from_status(&status, tracks);
    assert_eq!(state.index, 3);
    assert_eq!(state.time, Seconds::from_millis(42_250));
    assert!(state.shuffle && state.repeat && state.playing);
    assert_eq!(state.tracks.len(), 1);
}

#[test]
fn load_player_state_plan_restores_everything_in_order() {
    let st = PlayerState {
        tracks: Vec::new(),
        index: 1,
        time: Seconds::from_millis(10_000),
        shuffle: false,
        repeat: true,
        playing: true,
    };
    let urls = vec!["u1".to_owned(), "u2".to_owned()];
    let plan = load_player_state_plan(&urls, &st);
    let names: Vec<&str> = plan.iter().map(|r| r.command.as_str()).collect();
    assert_eq!(
        names,
        vec!["clear", "addid", "addid", "seek", "random", "repeat", "play"]
    );
    assert_eq!(plan[3].args, vec!["1".to_owned(), "10.000".to_owned()]);
    assert_eq!(plan[4].args, vec!["0".to_owned()]);
    assert_eq!(plan[5].args, vec!["1".to_owned()]);
}

#[test]
fn signals_fire_per_subsystem_and_ignore_mixer_alone() {
    let events = vec![MpdEvent::Mixer, MpdEvent::Player];
    assert_eq!(signals(&events), (true, false, false));
    let events = vec![MpdEvent::Playlist, MpdEvent::Options];
    assert_eq!(signals(&events), (false, true, true));
    let events: Vec<MpdEvent> = Vec::new();
    assert_eq!(signals(&events), (false, false, false));
}

#[test]
fn sequence_numbers_compare_by_value() {
    assert_eq!(SeqNumber(7), SeqNumber(7));
    assert_ne!(SeqNumber(7), SeqNumber(8));
}
