use sonicast::attrs::{AttrError, Attributes};
use sonicast::types::{
    parse_playlist_item, Changed, MpdEvent, PlaybackState, ReplayGainMode, Seconds, Status,
};

fn store(pairs: &[(&str, &str)]) -> Attributes {
    let mut attrs = Attributes::new();
    for (k, v) in pairs {
        attrs.push((*k).to_owned(), (*v).to_owned());
    }
    attrs
}

#[test]
fn status_decodes_typed_fields() {
    // state play, songid 5, elapsed 12.3, duration 200, playlist 7,
    // repeat 0, random 1, single 0
    let attrs = store(&[
        ("state", "play"),
        ("songid", "5"),
        ("elapsed", "12.3"),
        ("duration", "200"),
        ("playlist", "7"),
        ("repeat", "0"),
        ("random", "1"),
        ("single", "0"),
    ]);
    let status = Status::from_attributes(&attrs).unwrap();
    assert_eq!(status.state, PlaybackState::Play);
    assert_eq!(status.song_id.as_ref().map(|id| id.as_str()), Some("5"));
    assert_eq!(status.elapsed, Some(Seconds::from_millis(12_300)));
    assert_eq!(status.duration, Some(Seconds::from_millis(200_000)));
    assert_eq!(status.playlist_version, 7);
    assert!(!status.repeat);
    assert!(status.random);
    assert!(!status.single);
    assert_eq!(status.song, None);
    assert_eq!(status.volume, None);
}

#[test]
fn status_reads_optional_song_and_volume() {
    let attrs = store(&[
        ("state", "pause"),
        ("song", "2"),
        ("volume", "80"),
        ("playlist", "1"),
        ("repeat", "1"),
        ("random", "0"),
        ("single", "1"),
    ]);
    let status = Status::from_attributes(&attrs).unwrap();
    assert_eq!(status.state, PlaybackState::Pause);
    assert_eq!(status.song, Some(2));
    assert_eq!(status.volume, Some(80));
    assert!(status.repeat && status.single && !status.random);
}

#[test]
fn status_without_state_is_missing() {
    let attrs = store(&[("playlist", "1")]);
    match Status::from_attributes(&attrs) {
        Err(AttrError::Missing { name }) => assert_eq!(name, "state"),
        other => panic!("expected a missing state error, got {:?}", other),
    }
}

#[test]
fn status_with_unknown_state_is_malformed() {
    let attrs = store(&[("state", "warp")]);
    match Status::from_attributes(&attrs) {
        Err(AttrError::Malformed { name }) => assert_eq!(name, "state"),
        other => panic!("expected a malformed state error, got {:?}", other),
    }
}

#[test]
fn status_with_bad_flag_is_malformed() {
    let attrs = store(&[
        ("state", "stop"),
        ("playlist", "1"),
        ("repeat", "yes"),
    ]);
    match Status::from_attributes(&attrs) {
        Err(AttrError::Malformed { name }) => assert_eq!(name, "repeat"),
        other => panic!("expected a malformed repeat error, got {:?}", other),
    }
}

#[test]
fn seconds_parse_with_and_without_fraction() {
    let attrs = store(&[("a", "0.5"), ("b", "3"), ("c", "1.2345")]);
    let a: Seconds = attrs.get("a").unwrap();
    assert_eq!(a.millis, 500);
    let b: Seconds = attrs.get("b").unwrap();
    assert_eq!(b.millis, 3_000);
    // fractional digits beyond milliseconds are truncated
    let c: Seconds = attrs.get("c").unwrap();
    assert_eq!(c.millis, 1_234);
}

#[test]
fn seconds_reject_malformed_text() {
    let attrs = store(&[("a", "1.2.3"), ("b", "."), ("c", "-1"), ("d", "")]);
    for name in ["a", "b", "c", "d"] {
        assert!(matches!(
            attrs.get::<Seconds>(name),
            Err(AttrError::Malformed { .. }) | Err(AttrError::Missing { .. })
        ));
    }
}

#[test]
fn changed_collects_subsystems_and_maps_known_events() {
    let attrs = store(&[
        ("changed", "player"),
        ("changed", "sticker"),
        ("changed", "mixer"),
        ("changed", "playlist"),
    ]);
    let changed = Changed::from_attributes(&attrs).unwrap();
    // unknown subsystem names are dropped, never fatal
    let events = changed.events();
    assert_eq!(
        events,
        vec![MpdEvent::Player, MpdEvent::Mixer, MpdEvent::Playlist]
    );
}

#[test]
fn replay_gain_modes_parse_and_render() {
    let attrs = store(&[("m1", "none"), ("m2", "track"), ("m3", "album"), ("m4", "auto")]);
    assert_eq!(attrs.get::<ReplayGainMode>("m1").unwrap(), ReplayGainMode::Off);
    assert_eq!(attrs.get::<ReplayGainMode>("m2").unwrap(), ReplayGainMode::Track);
    assert_eq!(attrs.get::<ReplayGainMode>("m3").unwrap(), ReplayGainMode::Album);
    assert_eq!(attrs.get::<ReplayGainMode>("m4").unwrap(), ReplayGainMode::Auto);
    assert_eq!(ReplayGainMode::Off.wire_name(), "none");
    assert_eq!(ReplayGainMode::Auto.wire_name(), "auto");
    assert!(matches!(
        attrs.get::<ReplayGainMode>("m5"),
        Err(AttrError::Missing { .. })
    ));
}

#[test]
fn playlist_item_decodes_fields_and_optionals() {
    let attrs = store(&[
        ("file", "http://example/a.mp3"),
        ("Pos", "0"),
        ("Id", "17"),
        ("Title", "A Song"),
    ]);
    let item = parse_playlist_item(attrs).unwrap();
    assert_eq!(item.file, "http://example/a.mp3");
    assert_eq!(item.pos, 0);
    assert_eq!(item.id.as_str(), "17");
    assert_eq!(item.title.as_deref(), Some("A Song"));
    assert_eq!(item.name, None);
}

#[test]
fn playlist_item_without_file_is_missing() {
    let attrs = store(&[("Pos", "0"), ("Id", "17")]);
    match parse_playlist_item(attrs) {
        Err(AttrError::Missing { name }) => assert_eq!(name, "file"),
        other => panic!("expected a missing file error, got {:?}", other),
    }
}

#[test]
fn wire_booleans_are_zero_and_one_only() {
    let attrs = store(&[("t", "1"), ("f", "0"), ("bad", "true")]);
    assert_eq!(attrs.get::<bool>("t").unwrap(), true);
    assert_eq!(attrs.get::<bool>("f").unwrap(), false);
    assert!(matches!(
        attrs.get::<bool>("bad"),
        Err(AttrError::Malformed { .. })
    ));
}
