use sonicast::attrs::Attributes;
use sonicast::client::{
    atomic_enqueue_tracks, boolean, current_track_index, is_idle, parse_playlist, position,
    play_track_list, player_op, replay_gain_status_mode, PlayerOp, Request,
};
use sonicast::types::{Id, PlaybackState, ReplayGainMode, Seconds};

fn store(pairs: &[(&str, &str)]) -> Attributes {
    let mut attrs = Attributes::new();
    for (k, v) in pairs {
        attrs.push((*k).to_owned(), (*v).to_owned());
    }
    attrs
}

fn flat(r: &Request) -> (String, Vec<String>) {
    (r.command.clone(), r.args.clone())
}

#[test]
fn position_always_carries_a_sign() {
    assert_eq!(position(0), "+0");
    assert_eq!(position(3), "+3");
    assert_eq!(position(-1), "-1");
}

#[test]
fn boolean_renders_wire_booleans() {
    assert_eq!(boolean(true), "1");
    assert_eq!(boolean(false), "0");
}

#[test]
fn is_idle_ignores_case_and_surrounding_whitespace() {
    assert!(is_idle("idle"));
    assert!(is_idle("IDLE"));
    assert!(is_idle("  Idle\t"));
    assert!(!is_idle("idle player"));
    assert!(!is_idle("status"));
    assert!(!is_idle(""));
}

#[test]
fn requests_render_commands_and_arguments() {
    assert_eq!(flat(&Request::play()), ("play".to_owned(), vec![]));
    assert_eq!(
        flat(&Request::playpos(4)),
        ("play".to_owned(), vec!["4".to_owned()])
    );
    assert_eq!(
        flat(&Request::addid("http://x/y.mp3")),
        ("addid".to_owned(), vec!["http://x/y.mp3".to_owned()])
    );
    assert_eq!(
        flat(&Request::delete(0)),
        ("deleteid".to_owned(), vec!["+0".to_owned()])
    );
    assert_eq!(
        flat(&Request::seek(2, Seconds::from_millis(90_500))),
        (
            "seek".to_owned(),
            vec!["2".to_owned(), "90.500".to_owned()]
        )
    );
    assert_eq!(
        flat(&Request::seekcur(Seconds::from_millis(500))),
        ("seekcur".to_owned(), vec!["0.500".to_owned()])
    );
    assert_eq!(
        flat(&Request::random(true)),
        ("random".to_owned(), vec!["1".to_owned()])
    );
    assert_eq!(
        flat(&Request::repeat(false)),
        ("repeat".to_owned(), vec!["0".to_owned()])
    );
    assert_eq!(
        flat(&Request::replay_gain_mode(ReplayGainMode::Album)),
        ("replay_gain_mode".to_owned(), vec!["album".to_owned()])
    );
    assert_eq!(
        flat(&Request::idle()),
        (
            "idle".to_owned(),
            vec![
                "player".to_owned(),
                "playlist".to_owned(),
                "options".to_owned(),
                "mixer".to_owned()
            ]
        )
    );
}

#[test]
fn setvol_clamps_to_one_hundred() {
    assert_eq!(
        flat(&Request::setvol(250)),
        ("setvol".to_owned(), vec!["100".to_owned()])
    );
    assert_eq!(
        flat(&Request::setvol(30)),
        ("setvol".to_owned(), vec!["30".to_owned()])
    );
}

#[test]
fn load_renders_range_and_position() {
    assert_eq!(
        flat(&Request::load("mix", None, None)),
        (
            "load".to_owned(),
            vec!["mix".to_owned(), "0:".to_owned(), "".to_owned()]
        )
    );
    assert_eq!(
        flat(&Request::load("mix", Some((2, 5)), Some(0))),
        (
            "load".to_owned(),
            vec!["mix".to_owned(), "2:5".to_owned(), "+0".to_owned()]
        )
    );
}

#[test]
fn player_op_pauses_then_operates_then_resumes_when_playing() {
    // skip-next while playing issues pause, next, play, in that order
    let plan = player_op(PlaybackState::Play, PlayerOp::Next);
    let names: Vec<&str> = plan.iter().map(|r| r.command.as_str()).collect();
    assert_eq!(names, vec!["pause", "next", "play"]);
}

#[test]
fn player_op_does_not_resume_when_not_playing() {
    let plan = player_op(PlaybackState::Pause, PlayerOp::Previous);
    let names: Vec<&str> = plan.iter().map(|r| r.command.as_str()).collect();
    assert_eq!(names, vec!["pause", "previous"]);
    let plan = player_op(PlaybackState::Stop, PlayerOp::Seek(Seconds::from_millis(1_000)));
    assert_eq!(plan.len(), 2);
    assert_eq!(flat(&plan[1]), ("seekcur".to_owned(), vec!["1.000".to_owned()]));
}

#[test]
fn atomic_enqueue_stages_through_the_scratch_playlist() {
    let urls = vec!["u1".to_owned(), "u2".to_owned()];
    let plan = atomic_enqueue_tracks(&urls, Some(0));
    assert_eq!(plan.len(), 4);
    assert_eq!(
        flat(&plan[0]),
        (
            "playlistclear".to_owned(),
            vec!["_sonicast_atomic_queue".to_owned()]
        )
    );
    assert_eq!(
        flat(&plan[1]),
        (
            "playlistadd".to_owned(),
            vec!["_sonicast_atomic_queue".to_owned(), "u1".to_owned()]
        )
    );
    assert_eq!(
        flat(&plan[2]),
        (
            "playlistadd".to_owned(),
            vec!["_sonicast_atomic_queue".to_owned(), "u2".to_owned()]
        )
    );
    assert_eq!(
        flat(&plan[3]),
        (
            "load".to_owned(),
            vec![
                "_sonicast_atomic_queue".to_owned(),
                "0:".to_owned(),
                "+0".to_owned()
            ]
        )
    );
}

#[test]
fn play_track_list_clears_adds_then_plays() {
    let urls = vec!["a".to_owned(), "b".to_owned()];
    let plan = play_track_list(&urls, Some(1), Some(true));
    let names: Vec<&str> = plan.iter().map(|r| r.command.as_str()).collect();
    assert_eq!(names, vec!["clear", "random", "addid", "addid", "play"]);
    assert_eq!(plan[1].args, vec!["1".to_owned()]);
    assert_eq!(plan[2].args, vec!["a".to_owned()]);
    assert_eq!(plan[4].args, vec!["1".to_owned()]);

    let plan = play_track_list(&urls, None, None);
    let names: Vec<&str> = plan.iter().map(|r| r.command.as_str()).collect();
    assert_eq!(names, vec!["clear", "addid", "addid", "play"]);
    assert!(plan[3].args.is_empty());
}

#[test]
fn playlist_decodes_one_item_per_file_group() {
    let attrs = store(&[
        ("file", "a.mp3"),
        ("Pos", "0"),
        ("Id", "1"),
        ("file", "b.mp3"),
        ("Pos", "1"),
        ("Id", "2"),
        ("Name", "Radio B"),
    ]);
    let playlist = parse_playlist(attrs).unwrap();
    assert_eq!(playlist.items.len(), 2);
    assert_eq!(playlist.items[0].file, "a.mp3");
    assert_eq!(playlist.items[0].id.as_str(), "1");
    assert_eq!(playlist.items[1].file, "b.mp3");
    assert_eq!(playlist.items[1].name.as_deref(), Some("Radio B"));
}

#[test]
fn playlist_with_bad_group_reports_the_failing_attribute() {
    let attrs = store(&[("file", "a.mp3"), ("Pos", "zero"), ("Id", "1")]);
    let err = parse_playlist(attrs).unwrap_err();
    assert_eq!(err.name(), "Pos");
}

#[test]
fn replay_gain_status_defaults_to_off_when_absent() {
    let none = store(&[]);
    assert_eq!(replay_gain_status_mode(&none).unwrap(), ReplayGainMode::Off);
    let track = store(&[("replay_gain_mode", "track")]);
    assert_eq!(
        replay_gain_status_mode(&track).unwrap(),
        ReplayGainMode::Track
    );
    let bad = store(&[("replay_gain_mode", "loudness")]);
    assert!(replay_gain_status_mode(&bad).is_err());
}

#[test]
fn current_track_index_finds_the_playing_entry() {
    let items = {
        let attrs = store(&[
            ("file", "a"),
            ("Pos", "0"),
            ("Id", "10"),
            ("file", "b"),
            ("Pos", "1"),
            ("Id", "20"),
        ]);
        parse_playlist(attrs).unwrap().items
    };
    assert_eq!(
        current_track_index(&items, &Some(Id::new("20".to_owned()))),
        Some(1)
    );
    assert_eq!(
        current_track_index(&items, &Some(Id::new("99".to_owned()))),
        None
    );
    assert_eq!(current_track_index(&items, &None), None);
}
