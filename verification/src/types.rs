//! Typed domain values decoded from attribute stores: playback status,
//! queue entries, subsystem-change notifications, and the scalar types
//! their attributes parse into.

use vstd::prelude::*;
use vstd::string::StrSliceExecFns;
use crate::attrs::{first_value, all_values, AttrError, AttrPair, Attributes, AttrValue};
use crate::text::{
    parse_i64, parse_i64_spec, parse_millis, parse_millis_spec, parse_u64, parse_u64_spec, str_eq,
};

verus! {

/// A queue entry identifier, carried as an opaque string.
#[derive(Debug, Clone)]
pub struct Id(String);

impl View for Id {
    type V = Seq<char>;

    closed spec fn view(&self) -> Seq<char> {
        self.0@
    }
}

impl Id {
    pub fn new(s: String) -> (r: Id)
        ensures
            r@ == s@,
    {
        Id(s)
    }

    pub fn as_str(&self) -> (r: &str)
        ensures
            r@ == self@,
    {
        self.0.as_str()
    }
}

impl PartialEq for Id {
    fn eq(&self, other: &Id) -> (r: bool) {
        str_eq(self.0.as_str(), other.0.as_str())
    }
}

impl vstd::std_specs::cmp::PartialEqSpecImpl for Id {
    open spec fn obeys_eq_spec() -> bool {
        true
    }

    open spec fn eq_spec(&self, other: &Id) -> bool {
        self@ == other@
    }
}

impl AttrValue for Id {
    open spec fn parse_ok(s: Seq<char>) -> bool {
        true
    }

    open spec fn parse_view(s: Seq<char>) -> Seq<char> {
        s
    }

    fn parse_attr(s: &str) -> (r: Option<Id>) {
        Some(Id(s.to_owned()))
    }
}

impl AttrValue for String {
    open spec fn parse_ok(s: Seq<char>) -> bool {
        true
    }

    open spec fn parse_view(s: Seq<char>) -> Seq<char> {
        s
    }

    fn parse_attr(s: &str) -> (r: Option<String>) {
        Some(s.to_owned())
    }
}

impl AttrValue for u64 {
    open spec fn parse_ok(s: Seq<char>) -> bool {
        parse_u64_spec(s) is Some
    }

    open spec fn parse_view(s: Seq<char>) -> u64 {
        parse_u64_spec(s).unwrap()
    }

    fn parse_attr(s: &str) -> (r: Option<u64>) {
        parse_u64(s)
    }
}

impl AttrValue for u32 {
    open spec fn parse_ok(s: Seq<char>) -> bool {
        parse_u64_spec(s) matches Some(v) && v <= u32::MAX as u64
    }

    open spec fn parse_view(s: Seq<char>) -> u32 {
        parse_u64_spec(s).unwrap() as u32
    }

    fn parse_attr(s: &str) -> (r: Option<u32>) {
        match parse_u64(s) {
            Some(v) => {
                if v <= u32::MAX as u64 {
                    Some(v as u32)
                } else {
                    None
                }
            },
            None => None,
        }
    }
}

impl AttrValue for usize {
    open spec fn parse_ok(s: Seq<char>) -> bool {
        parse_u64_spec(s) matches Some(v) && v <= usize::MAX as u64
    }

    open spec fn parse_view(s: Seq<char>) -> usize {
        parse_u64_spec(s).unwrap() as usize
    }

    fn parse_attr(s: &str) -> (r: Option<usize>) {
        match parse_u64(s) {
            Some(v) => {
                if v <= usize::MAX as u64 {
                    Some(v as usize)
                } else {
                    None
                }
            },
            None => None,
        }
    }
}

impl AttrValue for i64 {
    open spec fn parse_ok(s: Seq<char>) -> bool {
        parse_i64_spec(s) is Some
    }

    open spec fn parse_view(s: Seq<char>) -> i64 {
        parse_i64_spec(s).unwrap()
    }

    fn parse_attr(s: &str) -> (r: Option<i64>) {
        parse_i64(s)
    }
}

/// The value a wire boolean denotes: the daemon writes `1` for true and
/// `0` for false.
pub open spec fn bool_of(s: Seq<char>) -> bool {
    s == "1"@
}

impl AttrValue for bool {
    open spec fn parse_ok(s: Seq<char>) -> bool {
        s == "0"@ || s == "1"@
    }

    open spec fn parse_view(s: Seq<char>) -> bool {
        bool_of(s)
    }

    fn parse_attr(s: &str) -> (r: Option<bool>) {
        if str_eq(s, "1") {
            Some(true)
        } else if str_eq(s, "0") {
            Some(false)
        } else {
            None
        }
    }
}

/// A non-negative duration with millisecond precision, decoded from the
/// daemon's decimal-seconds attributes.
#[derive(Debug, Clone, Copy, PartialEq, Eq, Structural)]
pub struct Seconds {
    pub millis: u64,
}

impl View for Seconds {
    type V = Seconds;

    open spec fn view(&self) -> Seconds {
        *self
    }
}

impl Seconds {
    pub fn from_millis(millis: u64) -> (r: Seconds)
        ensures
            r.millis == millis,
    {
        Seconds { millis }
    }
}

impl AttrValue for Seconds {
    open spec fn parse_ok(s: Seq<char>) -> bool {
        parse_millis_spec(s) is Some
    }

    open spec fn parse_view(s: Seq<char>) -> Seconds {
        Seconds { millis: parse_millis_spec(s).unwrap() }
    }

    fn parse_attr(s: &str) -> (r: Option<Seconds>) {
        match parse_millis(s) {
            Some(ms) => Some(Seconds { millis: ms }),
            None => None,
        }
    }
}

/// The player's transport state.
#[derive(Debug, Clone, Copy, PartialEq, Eq, Structural)]
pub enum PlaybackState {
    Stop,
    Pause,
    Play,
}

/// The transport state a `state` attribute denotes.
pub open spec fn playback_state_of(s: Seq<char>) -> Option<PlaybackState> {
    if s == "play"@ {
        Some(PlaybackState::Play)
    } else if s == "pause"@ {
        Some(PlaybackState::Pause)
    } else if s == "stop"@ {
        Some(PlaybackState::Stop)
    } else {
        None
    }
}

/// The replay-gain mode, a closed enumeration.
#[derive(Debug, Clone, Copy, PartialEq, Eq, Structural)]
pub enum ReplayGainMode {
    /// Replay gain disabled (`none` on the wire).
    Off,
    Track,
    Album,
    Auto,
}

/// The mode a `replay_gain_mode` attribute denotes.
pub open spec fn replay_gain_mode_of(s: Seq<char>) -> Option<ReplayGainMode> {
    if s == "none"@ {
        Some(ReplayGainMode::Off)
    } else if s == "track"@ {
        Some(ReplayGainMode::Track)
    } else if s == "album"@ {
        Some(ReplayGainMode::Album)
    } else if s == "auto"@ {
        Some(ReplayGainMode::Auto)
    } else {
        None
    }
}

/// The wire name of a replay-gain mode.
pub open spec fn replay_gain_mode_name(m: ReplayGainMode) -> Seq<char> {
    match m {
        ReplayGainMode::Off => "none"@,
        ReplayGainMode::Track => "track"@,
        ReplayGainMode::Album => "album"@,
        ReplayGainMode::Auto => "auto"@,
    }
}

impl View for ReplayGainMode {
    type V = ReplayGainMode;

    open spec fn view(&self) -> ReplayGainMode {
        *self
    }
}

impl ReplayGainMode {
    /// The mode as it is written on the wire.
    pub fn wire_name(&self) -> (r: &'static str)
        ensures
            r@ == replay_gain_mode_name(*self),
    {
        match self {
            ReplayGainMode::Off => "none",
            ReplayGainMode::Track => "track",
            ReplayGainMode::Album => "album",
            ReplayGainMode::Auto => "auto",
        }
    }
}

impl AttrValue for ReplayGainMode {
    open spec fn parse_ok(s: Seq<char>) -> bool {
        replay_gain_mode_of(s) is Some
    }

    open spec fn parse_view(s: Seq<char>) -> ReplayGainMode {
        replay_gain_mode_of(s).unwrap()
    }

    fn parse_attr(s: &str) -> (r: Option<ReplayGainMode>) {
        if str_eq(s, "none") {
            Some(ReplayGainMode::Off)
        } else if str_eq(s, "track") {
            Some(ReplayGainMode::Track)
        } else if str_eq(s, "album") {
            Some(ReplayGainMode::Album)
        } else if str_eq(s, "auto") {
            Some(ReplayGainMode::Auto)
        } else {
            None
        }
    }
}

/// One subsystem whose state the daemon reported as changed; the watched
/// set is closed.
#[derive(Debug, Clone, Copy, PartialEq, Eq, Structural)]
pub enum MpdEvent {
    Playlist,
    Player,
    Options,
    Mixer,
}

/// The event a subsystem name denotes, if it is a watched one.
pub open spec fn event_of(s: Seq<char>) -> Option<MpdEvent> {
    if s == "player"@ {
        Some(MpdEvent::Player)
    } else if s == "playlist"@ {
        Some(MpdEvent::Playlist)
    } else if s == "options"@ {
        Some(MpdEvent::Options)
    } else if s == "mixer"@ {
        Some(MpdEvent::Mixer)
    } else {
        None
    }
}

/// The watched events among a list of subsystem names, in order;
/// unrecognized names are dropped, never fatal.
pub open spec fn events_of(names: Seq<Seq<char>>) -> Seq<MpdEvent>
    decreases names.len(),
{
    if names.len() == 0 {
        Seq::empty()
    } else {
        events_of(names.drop_last()) + (match event_of(names.last()) {
            Some(e) => seq![e],
            None => Seq::empty(),
        })
    }
}

/// The subsystem names one long-poll response reported as changed.
#[derive(Debug)]
pub struct Changed {
    subsystems: Vec<String>,
}

impl View for Changed {
    type V = Seq<Seq<char>>;

    closed spec fn view(&self) -> Seq<Seq<char>> {
        self.subsystems.deep_view()
    }
}

impl Changed {
    /// Collects every `changed` attribute of a long-poll response, in
    /// order.
    pub fn from_attributes(attrs: &Attributes) -> (r: Result<Changed, AttrError>)
        ensures
            r matches Ok(c) && c@ == all_values(attrs@, "changed"@),
    {
        let subsystems = attrs.get_all("changed");
        Ok(Changed { subsystems })
    }

    /// The watched events among the reported subsystems; names outside
    /// the closed watch list are dropped.
    pub fn events(&self) -> (r: Vec<MpdEvent>)
        ensures
            r@ == events_of(self@),
    {
        let n = self.subsystems.len();
        let mut out: Vec<MpdEvent> = Vec::new();
        let mut i: usize = 0;
        while i < n
            invariant
                i <= n,
                n == self.subsystems.len(),
                self@ == self.subsystems.deep_view(),
                self@.len() == n,
                out@ == events_of(self@.take(i as int)),
            decreases n - i,
        {
            proof {
                assert(self@.take(i + 1).drop_last() =~= self@.take(i as int));
                assert(self@.take(i + 1).last() == self@[i as int]);
                assert(self@[i as int] == self.subsystems[i as int]@);
            }
            let name = self.subsystems[i].as_str();
            if str_eq(name, "player") {
                out.push(MpdEvent::Player);
            } else if str_eq(name, "playlist") {
                out.push(MpdEvent::Playlist);
            } else if str_eq(name, "options") {
                out.push(MpdEvent::Options);
            } else if str_eq(name, "mixer") {
                out.push(MpdEvent::Mixer);
            }
            assert(out@ =~= events_of(self@.take(i + 1)));
            i += 1;
        }
        proof {
            assert(self@.take(n as int) =~= self@);
        }
        out
    }
}

/// One entry of the live queue.
#[derive(Debug, Clone)]
pub struct PlaylistItem {
    /// The entry's file locator.
    pub file: String,
    /// The entry's position in the queue.
    pub pos: i64,
    /// The entry's stable queue identifier.
    pub id: Id,
    /// A display name, where the daemon reports one.
    pub name: Option<String>,
    /// A title tag, where the daemon reports one.
    pub title: Option<String>,
}

/// The live queue.
#[derive(Debug)]
pub struct Playlist {
    pub items: Vec<PlaylistItem>,
}

/// Whether one queue-entry record decodes: it needs a file locator, a
/// parseable position and an identifier.
pub open spec fn playlist_item_ok(a: Seq<AttrPair>) -> bool {
    &&& first_value(a, "file"@) is Some
    &&& (first_value(a, "Pos"@) matches Some(v) && parse_i64_spec(v) is Some)
    &&& first_value(a, "Id"@) is Some
}

/// The attribute whose absence or malformation fails the decoding, in
/// the order the fields are read.
pub open spec fn playlist_item_err_name(a: Seq<AttrPair>) -> Seq<char> {
    if first_value(a, "file"@) is None {
        "file"@
    } else if !(first_value(a, "Pos"@) matches Some(v) && parse_i64_spec(v) is Some) {
        "Pos"@
    } else {
        "Id"@
    }
}

/// Decodes one queue-entry record from its attribute group.
pub fn parse_playlist_item(attrs: Attributes) -> (r: Result<PlaylistItem, AttrError>)
    ensures
        ({
            let a = attrs@;
            &&& (r is Ok <==> playlist_item_ok(a))
            &&& (r matches Ok(item) ==> {
                &&& item.file@ == first_value(a, "file"@).unwrap()
                &&& Some(item.pos) == parse_i64_spec(first_value(a, "Pos"@).unwrap())
                &&& item.id@ == first_value(a, "Id"@).unwrap()
                &&& (match first_value(a, "Title"@) {
                    Some(v) => item.title matches Some(t) && t@ == v,
                    None => item.title is None,
                })
                &&& (match first_value(a, "Name"@) {
                    Some(v) => item.name matches Some(t) && t@ == v,
                    None => item.name is None,
                })
            })
            &&& (r matches Err(e) ==> e.name_spec() == playlist_item_err_name(a) && (e
                is Missing <==> first_value(a, playlist_item_err_name(a)) is None))
        }),
{
    let file = match attrs.get::<String>("file") {
        Ok(v) => v,
        Err(e) => {
            return Err(e);
        },
    };
    let pos = match attrs.get::<i64>("Pos") {
        Ok(v) => v,
        Err(e) => {
            return Err(e);
        },
    };
    let id = match attrs.get::<Id>("Id") {
        Ok(v) => v,
        Err(e) => {
            return Err(e);
        },
    };
    let title = match attrs.get_one("Title") {
        Some(v) => Some(v.to_owned()),
        None => None,
    };
    let name = match attrs.get_one("Name") {
        Some(v) => Some(v.to_owned()),
        None => None,
    };
    Ok(PlaylistItem { file, pos, id, name, title })
}

/// The player's status for one `status` response.
#[derive(Debug)]
pub struct Status {
    pub state: PlaybackState,
    /// The playing entry's queue position.
    pub song: Option<usize>,
    /// The playing entry's stable identifier.
    pub song_id: Option<Id>,
    /// Time elapsed within the playing entry.
    pub elapsed: Option<Seconds>,
    /// The playing entry's total duration.
    pub duration: Option<Seconds>,
    /// The decoded audio format, verbatim.
    pub audio_format: Option<String>,
    /// A counter the daemon bumps on every queue change.
    pub playlist_version: u32,
    pub repeat: bool,
    pub random: bool,
    pub single: bool,
    /// The mixer volume, 0 to 100, where a mixer exists.
    pub volume: Option<usize>,
}

/// Whether an optional attribute decodes: absent, or present and
/// parseable as `T`.
pub open spec fn opt_ok<T: AttrValue>(a: Seq<AttrPair>, name: Seq<char>) -> bool {
    match first_value(a, name) {
        Some(v) => T::parse_ok(v),
        None => true,
    }
}

/// Whether a required attribute decodes: present and parseable as `T`.
pub open spec fn req_ok<T: AttrValue>(a: Seq<AttrPair>, name: Seq<char>) -> bool {
    match first_value(a, name) {
        Some(v) => T::parse_ok(v),
        None => false,
    }
}

/// Whether a whole `status` response decodes.
pub open spec fn status_decode_ok(a: Seq<AttrPair>) -> bool {
    &&& (first_value(a, "state"@) matches Some(v) && playback_state_of(v) is Some)
    &&& opt_ok::<usize>(a, "song"@)
    &&& opt_ok::<Seconds>(a, "elapsed"@)
    &&& opt_ok::<Seconds>(a, "duration"@)
    &&& req_ok::<u32>(a, "playlist"@)
    &&& req_ok::<bool>(a, "repeat"@)
    &&& req_ok::<bool>(a, "random"@)
    &&& req_ok::<bool>(a, "single"@)
    &&& opt_ok::<usize>(a, "volume"@)
}

/// The attribute that fails the status decoding, in the order the fields
/// are read.
pub open spec fn status_err_name(a: Seq<AttrPair>) -> Seq<char> {
    if !(first_value(a, "state"@) matches Some(v) && playback_state_of(v) is Some) {
        "state"@
    } else if !opt_ok::<usize>(a, "song"@) {
        "song"@
    } else if !opt_ok::<Seconds>(a, "elapsed"@) {
        "elapsed"@
    } else if !opt_ok::<Seconds>(a, "duration"@) {
        "duration"@
    } else if !req_ok::<u32>(a, "playlist"@) {
        "playlist"@
    } else if !req_ok::<bool>(a, "repeat"@) {
        "repeat"@
    } else if !req_ok::<bool>(a, "random"@) {
        "random"@
    } else if !req_ok::<bool>(a, "single"@) {
        "single"@
    } else {
        "volume"@
    }
}

impl Status {
    /// Decodes one `status` response: the transport state and playlist
    /// version are required, the flags parse as wire booleans, and the
    /// remaining fields are optional.
    pub fn from_attributes(attrs: &Attributes) -> (r: Result<Status, AttrError>)
        ensures
            ({
                let a = attrs@;
                &&& (r is Ok <==> status_decode_ok(a))
                &&& (r matches Ok(st) ==> {
                    &&& Some(st.state) == playback_state_of(first_value(a, "state"@).unwrap())
                    &&& (match first_value(a, "song"@) {
                        Some(v) => st.song == Some(<usize as AttrValue>::parse_view(v)),
                        None => st.song is None,
                    })
                    &&& (match first_value(a, "songid"@) {
                        Some(v) => st.song_id matches Some(id) && id@ == v,
                        None => st.song_id is None,
                    })
                    &&& (match first_value(a, "elapsed"@) {
                        Some(v) => st.elapsed == Some(<Seconds as AttrValue>::parse_view(v)),
                        None => st.elapsed is None,
                    })
                    &&& (match first_value(a, "duration"@) {
                        Some(v) => st.duration == Some(<Seconds as AttrValue>::parse_view(v)),
                        None => st.duration is None,
                    })
                    &&& (match first_value(a, "audio"@) {
                        Some(v) => st.audio_format matches Some(x) && x@ == v,
                        None => st.audio_format is None,
                    })
                    &&& st.playlist_version == <u32 as AttrValue>::parse_view(
                        first_value(a, "playlist"@).unwrap(),
                    )
                    &&& st.repeat == bool_of(first_value(a, "repeat"@).unwrap())
                    &&& st.random == bool_of(first_value(a, "random"@).unwrap())
                    &&& st.single == bool_of(first_value(a, "single"@).unwrap())
                    &&& (match first_value(a, "volume"@) {
                        Some(v) => st.volume == Some(<usize as AttrValue>::parse_view(v)),
                        None => st.volume is None,
                    })
                })
                &&& (r matches Err(e) ==> e.name_spec() == status_err_name(a) && (e
                    is Missing <==> first_value(a, status_err_name(a)) is None))
            }),
    {
        let state = match attrs.get_one("state") {
            Some(raw) => {
                if str_eq(raw, "play") {
                    PlaybackState::Play
                } else if str_eq(raw, "pause") {
                    PlaybackState::Pause
                } else if str_eq(raw, "stop") {
                    PlaybackState::Stop
                } else {
                    return Err(AttrError::Malformed { name: "state".to_owned() });
                }
            },
            None => {
                return Err(AttrError::Missing { name: "state".to_owned() });
            },
        };
        let song = match attrs.get_opt::<usize>("song") {
            Ok(v) => v,
            Err(e) => {
                return Err(e);
            },
        };
        let song_id = match attrs.get_opt::<Id>("songid") {
            Ok(v) => v,
            Err(e) => {
                return Err(e);
            },
        };
        let elapsed = match attrs.get_opt::<Seconds>("elapsed") {
            Ok(v) => v,
            Err(e) => {
                return Err(e);
            },
        };
        let duration = match attrs.get_opt::<Seconds>("duration") {
            Ok(v) => v,
            Err(e) => {
                return Err(e);
            },
        };
        let audio_format = match attrs.get_opt::<String>("audio") {
            Ok(v) => v,
            Err(e) => {
                return Err(e);
            },
        };
        let playlist_version = match attrs.get::<u32>("playlist") {
            Ok(v) => v,
            Err(e) => {
                return Err(e);
            },
        };
        let repeat = match attrs.get::<bool>("repeat") {
            Ok(v) => v,
            Err(e) => {
                return Err(e);
            },
        };
        let random = match attrs.get::<bool>("random") {
            Ok(v) => v,
            Err(e) => {
                return Err(e);
            },
        };
        let single = match attrs.get::<bool>("single") {
            Ok(v) => v,
            Err(e) => {
                return Err(e);
            },
        };
        let volume = match attrs.get_opt::<usize>("volume") {
            Ok(v) => v,
            Err(e) => {
                return Err(e);
            },
        };
        Ok(
            Status {
                state,
                song,
                song_id,
                elapsed,
                duration,
                audio_format,
                playlist_version,
                repeat,
                random,
                single,
                volume,
            },
        )
    }
}

} // verus!
