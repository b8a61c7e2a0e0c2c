//! The session layer's data model: the closed set of commands a web
//! client can send, the events pushed back to it, and the track
//! identifiers that name catalog tracks and radio stations in one string
//! space. The transport and the catalog lookups stay with the caller;
//! the mappings from commands and status values to requests and events
//! are here.

use vstd::prelude::*;
use vstd::string::StrSliceExecFns;
use vstd::string::StringExecFns;
use crate::client::{req_is, Request};
use crate::frame::{has_prefix, prefixed};
use crate::subsonic::{RadioId, TrackId};
use crate::text::{dec_str, millis_str};
use crate::types::{PlaybackState, ReplayGainMode as GainMode, Seconds, Status};

verus! {

/// A client-chosen number echoed back with the response to its command.
#[derive(Debug, Clone, Copy, PartialEq, Eq, Structural)]
pub struct SeqNumber(pub usize);

/// A track as the web client names it: a catalog track, or a radio
/// station folded into the same identifier space under a fixed prefix.
#[derive(Debug, Clone)]
pub enum AirsonicTrackId {
    Track(TrackId),
    Radio(RadioId),
}

/// The abstract value of an `AirsonicTrackId`.
pub enum AirsonicIdView {
    Track(Seq<char>),
    Radio(Seq<char>),
}

impl View for AirsonicTrackId {
    type V = AirsonicIdView;

    closed spec fn view(&self) -> AirsonicIdView {
        match self {
            AirsonicTrackId::Track(TrackId(s)) => AirsonicIdView::Track(s@),
            AirsonicTrackId::Radio(RadioId(s)) => AirsonicIdView::Radio(s@),
        }
    }
}

/// How an identifier string is read: the radio prefix marks a station,
/// anything else is a catalog track.
pub open spec fn parse_airsonic_id(s: Seq<char>) -> AirsonicIdView {
    if has_prefix(s, "radio-"@) {
        AirsonicIdView::Radio(s.skip("radio-"@.len() as int))
    } else {
        AirsonicIdView::Track(s)
    }
}

/// How an identifier renders back into the shared string space.
pub open spec fn render_airsonic_id(v: AirsonicIdView) -> Seq<char> {
    match v {
        AirsonicIdView::Track(t) => t,
        AirsonicIdView::Radio(r) => "radio-"@ + r,
    }
}

/// Reading an identifier string and rendering it back reproduces the
/// string exactly.
pub proof fn lemma_airsonic_id_round_trip(s: Seq<char>)
    ensures
        render_airsonic_id(parse_airsonic_id(s)) == s,
{
    if has_prefix(s, "radio-"@) {
        let p = "radio-"@;
        assert(render_airsonic_id(parse_airsonic_id(s)) =~= s) by {
            assert(s.take(p.len() as int) == p);
            assert(forall|j: int| 0 <= j < p.len() ==> s[j] == s.take(p.len() as int)[j]);
        }
    }
}

impl AirsonicTrackId {
    /// Reads an identifier out of the shared string space.
    pub fn from_string(s: String) -> (r: AirsonicTrackId)
        ensures
            r@ == parse_airsonic_id(s@),
    {
        match prefixed("radio-", s.as_str()) {
            Some(rest) => AirsonicTrackId::Radio(RadioId(rest.to_owned())),
            None => AirsonicTrackId::Track(TrackId(s)),
        }
    }

    /// Renders the identifier into the shared string space.
    pub fn as_string(&self) -> (r: String)
        ensures
            r@ == render_airsonic_id(self@),
    {
        match self {
            AirsonicTrackId::Track(TrackId(s)) => s.clone(),
            AirsonicTrackId::Radio(RadioId(s)) => {
                let mut out = "radio-".to_owned();
                out.append(s.as_str());
                out
            },
        }
    }
}

/// An absolute seek within the playing track.
#[derive(Debug, Clone, Copy)]
pub struct Seek {
    pub position: Seconds,
}

/// Playback from a queue position.
#[derive(Debug, Clone, Copy)]
pub struct PlayIndex {
    pub index: usize,
}

/// Tracks to append to the queue.
#[derive(Debug, Clone)]
pub struct AddToQueue {
    pub tracks: Vec<AirsonicTrackId>,
}

/// A whole queue to play in place of the current one.
#[derive(Debug, Clone)]
pub struct PlayTrackList {
    pub tracks: Vec<AirsonicTrackId>,
    pub index: Option<usize>,
    pub shuffle: Option<bool>,
}

/// A queue entry to remove.
#[derive(Debug, Clone, Copy)]
pub struct RemoveFromQueue {
    pub index: usize,
}

/// A replay-gain mode to set.
#[derive(Debug, Clone, Copy)]
pub struct ReplayGainMode {
    pub mode: GainMode,
}

/// A repeat flag to set.
#[derive(Debug, Clone, Copy)]
pub struct SetRepeat {
    pub repeat: bool,
}

/// A shuffle flag to set.
#[derive(Debug, Clone, Copy)]
pub struct SetShuffle {
    pub shuffle: bool,
}

/// A volume to set, already scaled to the player's 0 to 100 range.
#[derive(Debug, Clone, Copy)]
pub struct SetVolume {
    pub percent: usize,
}

/// A player's whole transferable state: what is queued, where playback
/// stands, and the option flags.
#[derive(Debug, Clone)]
pub struct PlayerState {
    pub tracks: Vec<AirsonicTrackId>,
    pub index: usize,
    pub time: Seconds,
    pub shuffle: bool,
    pub repeat: bool,
    pub playing: bool,
}

/// The closed set of commands the session dispatches; each maps to a
/// fixed handler, so no dynamic lookup is needed.
#[derive(Debug, Clone)]
pub enum CommandKind {
    Play,
    Pause,
    Stop,
    SkipNext,
    SkipPrevious,
    Seek(Seek),
    PlayIndex(PlayIndex),
    ResetQueue,
    ClearQueue,
    AddToQueue(AddToQueue),
    SetNextInQueue(AddToQueue),
    Queue,
    PlayTrackList(PlayTrackList),
    LoadPlayerState(PlayerState),
    UnloadPlayerState,
    RemoveFromQueue(RemoveFromQueue),
    ShuffleQueue,
    ReplayGainMode(ReplayGainMode),
    SetRepeat(SetRepeat),
    SetShuffle(SetShuffle),
    SetVolume(SetVolume),
    SetPlaybackRate,
}

/// One command message: a sequence number to echo, and the command.
#[derive(Debug, Clone)]
pub struct Command {
    pub seq: SeqNumber,
    pub kind: CommandKind,
}

/// What a client can send over the session.
#[derive(Debug, Clone)]
pub enum ClientMsg {
    Command(Command),
}

/// A playback progress report pushed to the client.
#[derive(Debug, Clone, Copy)]
pub struct PlaybackEvent {
    pub playing: bool,
    pub position: Option<Seconds>,
    pub duration: Option<Seconds>,
}

/// The player options pushed to the client.
#[derive(Debug, Clone, Copy)]
pub struct OptionsEvent {
    /// The mixer volume, 0 to 100; 100 where the player reports none.
    pub volume_percent: usize,
    pub repeat: bool,
    pub shuffle: bool,
    pub single: bool,
    pub replay_gain: GainMode,
}

/// The playback report a status decodes to.
pub fn playback_event(status: &Status) -> (r: PlaybackEvent)
    ensures
        r.playing == (status.state is Play),
        r.position == status.elapsed,
        r.duration == status.duration,
{
    PlaybackEvent {
        playing: matches!(status.state, PlaybackState::Play),
        position: status.elapsed,
        duration: status.duration,
    }
}

/// The options report a status and replay-gain mode decode to; an absent
/// mixer volume reports as full volume.
pub fn options_event(status: &Status, replay_gain: GainMode) -> (r: OptionsEvent)
    ensures
        r.volume_percent == (match status.volume {
            Some(v) => v,
            None => 100usize,
        }),
        r.repeat == status.repeat,
        r.shuffle == status.random,
        r.single == status.single,
        r.replay_gain == replay_gain,
{
    let volume_percent = match status.volume {
        Some(v) => v,
        None => 100,
    };
    OptionsEvent {
        volume_percent,
        repeat: status.repeat,
        shuffle: status.random,
        single: status.single,
        replay_gain,
    }
}

/// The transferable player state a status describes, with the given
/// queue: the position and time default to the start where the status
/// reports none, and `playing` records whether the transport was
/// actually playing.
pub fn player_state_from_status(status: &Status, tracks: Vec<AirsonicTrackId>) -> (r: PlayerState)
    ensures
        r.tracks == tracks,
        r.index == (match status.song {
            Some(i) => i,
            None => 0usize,
        }),
        r.time == (match status.elapsed {
            Some(t) => t,
            None => Seconds { millis: 0 },
        }),
        r.shuffle == status.random,
        r.repeat == status.repeat,
        r.playing == (status.state is Play),
{
    let index = match status.song {
        Some(i) => i,
        None => 0,
    };
    let time = match status.elapsed {
        Some(t) => t,
        None => Seconds { millis: 0 },
    };
    PlayerState {
        tracks,
        index,
        time,
        shuffle: status.random,
        repeat: status.repeat,
        playing: status.state == PlaybackState::Play,
    }
}

/// The plan that restores a transferred player state, once the caller
/// has resolved the state's tracks to locators: clear the queue, append
/// the tracks in order, seek to the recorded position, restore the
/// option flags, and resume play exactly when the state was playing.
pub fn load_player_state_plan(urls: &Vec<String>, st: &PlayerState) -> (plan: Vec<Request>)
    ensures
        plan.len() == urls.len() + 4 + (if st.playing {
            1int
        } else {
            0int
        }),
        req_is(plan@[0], "clear"@, seq![]),
        forall|i: int|
            0 <= i < urls.len() ==> req_is(
                #[trigger] plan@[i + 1],
                "addid"@,
                seq![urls.deep_view()[i]],
            ),
        req_is(
            plan@[urls.len() + 1],
            "seek"@,
            seq![dec_str(st.index as nat), millis_str(st.time.millis as nat)],
        ),
        req_is(
            plan@[urls.len() + 2],
            "random"@,
            seq![
                (if st.shuffle {
                    "1"@
                } else {
                    "0"@
                }),
            ],
        ),
        req_is(
            plan@[urls.len() + 3],
            "repeat"@,
            seq![
                (if st.repeat {
                    "1"@
                } else {
                    "0"@
                }),
            ],
        ),
        st.playing ==> req_is(plan@[urls.len() + 4], "play"@, seq![]),
{
    let mut plan: Vec<Request> = Vec::new();
    plan.push(Request::clear());
    let n = urls.len();
    let mut i: usize = 0;
    while i < n
        invariant
            i <= n,
            n == urls.len(),
            urls.deep_view().len() == n,
            plan.len() == i + 1,
            req_is(plan@[0], "clear"@, seq![]),
            forall|k: int|
                0 <= k < i ==> req_is(#[trigger] plan@[k + 1], "addid"@, seq![urls.deep_view()[k]]),
        decreases n - i,
    {
        assert(urls.deep_view()[i as int] == urls[i as int]@);
        plan.push(Request::addid(urls[i].as_str()));
        i += 1;
    }
    plan.push(Request::seek(st.index, st.time));
    plan.push(Request::random(st.shuffle));
    plan.push(Request::repeat(st.repeat));
    if st.playing {
        plan.push(Request::play());
    }
    plan
}

} // verus!
