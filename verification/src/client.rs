//! The domain client's pure half: each high-level operation builds one
//! wire request, and each response decodes into a typed value. The
//! transport that carries the requests is the caller's concern.

use vstd::prelude::*;
use vstd::string::StrSliceExecFns;
use vstd::string::StringExecFns;
use crate::attrs::{first_value, AttrError, AttrPair, Attributes, AttrValue};
use crate::text::{
    dec_str, format_i64_signed, format_millis, format_u64, is_ascii_ws, lemma_trim_end,
    lemma_trim_start, millis_str, push_char, signed_dec_str, trim_spec,
};
use crate::types::{
    playlist_item_err_name, playlist_item_ok, parse_playlist_item, Id, Playlist, PlaylistItem,
    ReplayGainMode, Seconds,
};

verus! {

/// One request as it will be put on the wire: a command name and its
/// argument list.
#[derive(Debug)]
pub struct Request {
    pub command: String,
    pub args: Vec<String>,
}

/// A request's content: the command name and the argument views.
pub open spec fn req_is(r: Request, command: Seq<char>, args: Seq<Seq<char>>) -> bool {
    r.command@ == command && r.args.deep_view() == args
}

fn req0(command: &str) -> (r: Request)
    ensures
        req_is(r, command@, seq![]),
{
    let r = Request { command: command.to_owned(), args: Vec::new() };
    assert(r.args.deep_view() =~= Seq::<Seq<char>>::empty());
    r
}

fn req1(command: &str, a0: String) -> (r: Request)
    ensures
        req_is(r, command@, seq![a0@]),
{
    let ghost v0 = a0@;
    let mut args: Vec<String> = Vec::new();
    args.push(a0);
    let r = Request { command: command.to_owned(), args };
    assert(r.args.deep_view() =~= seq![v0]);
    r
}

fn req2(command: &str, a0: String, a1: String) -> (r: Request)
    ensures
        req_is(r, command@, seq![a0@, a1@]),
{
    let ghost v0 = a0@;
    let ghost v1 = a1@;
    let mut args: Vec<String> = Vec::new();
    args.push(a0);
    args.push(a1);
    let r = Request { command: command.to_owned(), args };
    assert(r.args.deep_view() =~= seq![v0, v1]);
    r
}

fn req3(command: &str, a0: String, a1: String, a2: String) -> (r: Request)
    ensures
        req_is(r, command@, seq![a0@, a1@, a2@]),
{
    let ghost v0 = a0@;
    let ghost v1 = a1@;
    let ghost v2 = a2@;
    let mut args: Vec<String> = Vec::new();
    args.push(a0);
    args.push(a1);
    args.push(a2);
    let r = Request { command: command.to_owned(), args };
    assert(r.args.deep_view() =~= seq![v0, v1, v2]);
    r
}

/// A signed position argument: the explicit sign keeps zero
/// distinguishable from an absent offset.
pub fn position(pos: i64) -> (r: String)
    ensures
        r@ == signed_dec_str(pos as int),
{
    format_i64_signed(pos)
}

/// A wire boolean argument.
pub fn boolean(b: bool) -> (r: &'static str)
    ensures
        r@ == (if b {
            "1"@
        } else {
            "0"@
        }),
{
    if b {
        "1"
    } else {
        "0"
    }
}

impl Request {
    /// Appends the given locator to the queue; the response carries the
    /// new entry's `Id`.
    pub fn addid(location: &str) -> (r: Request)
        ensures
            req_is(r, "addid"@, seq![location@]),
    {
        req1("addid", location.to_owned())
    }

    /// Removes the entry at the given signed offset.
    pub fn delete(pos: i64) -> (r: Request)
        ensures
            req_is(r, "deleteid"@, seq![signed_dec_str(pos as int)]),
    {
        req1("deleteid", position(pos))
    }

    /// Removes the entry with the given identifier.
    pub fn deleteid(id: &Id) -> (r: Request)
        ensures
            req_is(r, "deleteid"@, seq![id@]),
    {
        req1("deleteid", id.as_str().to_owned())
    }

    /// Empties the live queue.
    pub fn clear() -> (r: Request)
        ensures
            req_is(r, "clear"@, seq![]),
    {
        req0("clear")
    }

    /// Asks for the full queue listing.
    pub fn playlistinfo() -> (r: Request)
        ensures
            req_is(r, "playlistinfo"@, seq![]),
    {
        req0("playlistinfo")
    }

    /// Empties the named stored playlist.
    pub fn playlistclear(name: &str) -> (r: Request)
        ensures
            req_is(r, "playlistclear"@, seq![name@]),
    {
        req1("playlistclear", name.to_owned())
    }

    /// Appends a locator to the named stored playlist.
    pub fn playlistadd(name: &str, location: &str) -> (r: Request)
        ensures
            req_is(r, "playlistadd"@, seq![name@, location@]),
    {
        req2("playlistadd", name.to_owned(), location.to_owned())
    }

    /// Loads a range of the named stored playlist into the live queue,
    /// optionally at a position; an absent range means the whole
    /// playlist, and an absent position is sent as an empty argument.
    pub fn load(name: &str, range: Option<(u64, u64)>, pos: Option<i64>) -> (r: Request)
        ensures
            req_is(
                r,
                "load"@,
                seq![
                    name@,
                    (match range {
                        None => "0:"@,
                        Some((a, b)) => dec_str(a as nat) + seq![':'] + dec_str(b as nat),
                    }),
                    (match pos {
                        None => Seq::<char>::empty(),
                        Some(p) => signed_dec_str(p as int),
                    }),
                ],
            ),
    {
        let range_arg: String = match range {
            None => "0:".to_owned(),
            Some((a, b)) => {
                let mut s = format_u64(a);
                push_char(&mut s, ':');
                let e = format_u64(b);
                s.append(e.as_str());
                assert(s@ =~= dec_str(a as nat) + seq![':'] + dec_str(b as nat));
                s
            },
        };
        let pos_arg: String = match pos {
            None => String::new(),
            Some(p) => position(p),
        };
        let ghost rv = range_arg@;
        let ghost pv = pos_arg@;
        let r = req3("load", name.to_owned(), range_arg, pos_arg);
        assert(r.args.deep_view() =~= seq![
            name@,
            (match range {
                None => "0:"@,
                Some((a, b)) => dec_str(a as nat) + seq![':'] + dec_str(b as nat),
            }),
            (match pos {
                None => Seq::<char>::empty(),
                Some(p) => signed_dec_str(p as int),
            }),
        ]);
        r
    }

    /// The long-poll wait command, watching the fixed subsystem list.
    pub fn idle() -> (r: Request)
        ensures
            req_is(r, "idle"@, seq!["player"@, "playlist"@, "options"@, "mixer"@]),
    {
        let ghost expected = seq!["player"@, "playlist"@, "options"@, "mixer"@];
        let mut args: Vec<String> = Vec::new();
        args.push("player".to_owned());
        args.push("playlist".to_owned());
        args.push("options".to_owned());
        args.push("mixer".to_owned());
        let r = Request { command: "idle".to_owned(), args };
        assert(r.args.deep_view() =~= expected);
        r
    }

    /// The keepalive no-op.
    pub fn ping() -> (r: Request)
        ensures
            req_is(r, "ping"@, seq![]),
    {
        req0("ping")
    }

    /// Resumes playback.
    pub fn play() -> (r: Request)
        ensures
            req_is(r, "play"@, seq![]),
    {
        req0("play")
    }

    /// Starts playback at the given queue position.
    pub fn playpos(pos: usize) -> (r: Request)
        ensures
            req_is(r, "play"@, seq![dec_str(pos as nat)]),
    {
        req1("play", format_u64(pos as u64))
    }

    /// Starts playback of the entry with the given identifier.
    pub fn playid(id: &Id) -> (r: Request)
        ensures
            req_is(r, "playid"@, seq![id@]),
    {
        req1("playid", id.as_str().to_owned())
    }

    /// Stops playback.
    pub fn stop() -> (r: Request)
        ensures
            req_is(r, "stop"@, seq![]),
    {
        req0("stop")
    }

    /// Pauses playback.
    pub fn pause() -> (r: Request)
        ensures
            req_is(r, "pause"@, seq![]),
    {
        req0("pause")
    }

    /// Skips to the next queue entry.
    pub fn next() -> (r: Request)
        ensures
            req_is(r, "next"@, seq![]),
    {
        req0("next")
    }

    /// Skips to the previous queue entry.
    pub fn previous() -> (r: Request)
        ensures
            req_is(r, "previous"@, seq![]),
    {
        req0("previous")
    }

    /// Seeks to an absolute time within the entry at the given queue
    /// position.
    pub fn seek(index: usize, time: Seconds) -> (r: Request)
        ensures
            req_is(r, "seek"@, seq![dec_str(index as nat), millis_str(time.millis as nat)]),
    {
        req2("seek", format_u64(index as u64), format_millis(time.millis))
    }

    /// Seeks to an absolute time within the playing entry.
    pub fn seekcur(time: Seconds) -> (r: Request)
        ensures
            req_is(r, "seekcur"@, seq![millis_str(time.millis as nat)]),
    {
        req1("seekcur", format_millis(time.millis))
    }

    /// Asks for the player's status.
    pub fn status() -> (r: Request)
        ensures
            req_is(r, "status"@, seq![]),
    {
        req0("status")
    }

    /// Asks for the current replay-gain mode.
    pub fn replay_gain_status() -> (r: Request)
        ensures
            req_is(r, "replay_gain_status"@, seq![]),
    {
        req0("replay_gain_status")
    }

    /// Sets the replay-gain mode.
    pub fn replay_gain_mode(mode: ReplayGainMode) -> (r: Request)
        ensures
            req_is(r, "replay_gain_mode"@, seq![crate::types::replay_gain_mode_name(mode)]),
    {
        req1("replay_gain_mode", mode.wire_name().to_owned())
    }

    /// Switches random (shuffle) play on or off.
    pub fn random(shuffle: bool) -> (r: Request)
        ensures
            req_is(
                r,
                "random"@,
                seq![
                    (if shuffle {
                        "1"@
                    } else {
                        "0"@
                    }),
                ],
            ),
    {
        req1("random", boolean(shuffle).to_owned())
    }

    /// Switches repeat play on or off.
    pub fn repeat(repeat: bool) -> (r: Request)
        ensures
            req_is(
                r,
                "repeat"@,
                seq![
                    (if repeat {
                        "1"@
                    } else {
                        "0"@
                    }),
                ],
            ),
    {
        req1("repeat", boolean(repeat).to_owned())
    }

    /// Shuffles the live queue in place.
    pub fn shuffle() -> (r: Request)
        ensures
            req_is(r, "shuffle"@, seq![]),
    {
        req0("shuffle")
    }

    /// Sets the mixer volume, clamped to 0 through 100.
    pub fn setvol(volume: usize) -> (r: Request)
        ensures
            req_is(
                r,
                "setvol"@,
                seq![
                    dec_str(
                        (if volume > 100 {
                            100
                        } else {
                            volume
                        }) as nat,
                    ),
                ],
            ),
    {
        let v: usize = if volume > 100 {
            100
        } else {
            volume
        };
        req1("setvol", format_u64(v as u64))
    }
}

/// Case-insensitively, the four letters of the wait command's name.
pub open spec fn spells_idle(t: Seq<char>) -> bool {
    &&& t.len() == 4
    &&& (t[0] == 'i' || t[0] == 'I')
    &&& (t[1] == 'd' || t[1] == 'D')
    &&& (t[2] == 'l' || t[2] == 'L')
    &&& (t[3] == 'e' || t[3] == 'E')
}

/// Whether a command name is the long-poll wait command, ignoring ASCII
/// case and surrounding ASCII whitespace.
pub open spec fn is_idle_spec(s: Seq<char>) -> bool {
    spells_idle(trim_spec(s))
}

/// Decides whether a command is the long-poll wait command, which must
/// hold the writer until its response arrives.
pub fn is_idle(cmd: &str) -> (r: bool)
    ensures
        r == is_idle_spec(cmd@),
{
    let n = cmd.unicode_len();
    let mut lo: usize = 0;
    while lo < n && is_ws(cmd.get_char(lo))
        invariant
            lo <= n,
            n == cmd@.len(),
            forall|j: int| 0 <= j < lo ==> is_ascii_ws(cmd@[j]),
        decreases n - lo,
    {
        lo += 1;
    }
    proof {
        lemma_trim_start(cmd@, lo as int);
    }
    let ghost mid = cmd@.skip(lo as int);
    let mut hi: usize = n;
    while hi > lo && is_ws(cmd.get_char(hi - 1))
        invariant
            lo <= hi <= n,
            n == cmd@.len(),
            mid == cmd@.skip(lo as int),
            forall|j: int| hi <= j < n ==> is_ascii_ws(cmd@[j]),
        decreases hi,
    {
        hi -= 1;
    }
    proof {
        assert(forall|j: int| hi - lo <= j < mid.len() ==> is_ascii_ws(#[trigger] mid[j]));
        lemma_trim_end(mid, hi - lo);
        assert(trim_spec(cmd@) == mid.take(hi - lo));
    }
    if hi - lo != 4 {
        return false;
    }
    let c0 = cmd.get_char(lo);
    let c1 = cmd.get_char(lo + 1);
    let c2 = cmd.get_char(lo + 2);
    let c3 = cmd.get_char(lo + 3);
    assert(trim_spec(cmd@)[0] == cmd@[lo as int]);
    assert(trim_spec(cmd@)[1] == cmd@[lo + 1]);
    assert(trim_spec(cmd@)[2] == cmd@[lo + 2]);
    assert(trim_spec(cmd@)[3] == cmd@[lo + 3]);
    (c0 == 'i' || c0 == 'I') && (c1 == 'd' || c1 == 'D') && (c2 == 'l' || c2 == 'L') && (c3 == 'e'
        || c3 == 'E')
}

fn is_ws(c: char) -> (r: bool)
    ensures
        r == is_ascii_ws(c),
{
    c == ' ' || c == '\t' || c == '\n' || c == '\r' || c == '\u{c}'
}

/// Whether a decoded queue entry carries the given fields of its
/// attribute group.
pub open spec fn playlist_item_matches(item: PlaylistItem, a: Seq<AttrPair>) -> bool {
    &&& item.file@ == first_value(a, "file"@).unwrap()
    &&& Some(item.pos) == crate::text::parse_i64_spec(first_value(a, "Pos"@).unwrap())
    &&& item.id@ == first_value(a, "Id"@).unwrap()
    &&& (match first_value(a, "Title"@) {
        Some(v) => item.title matches Some(t) && t@ == v,
        None => item.title is None,
    })
    &&& (match first_value(a, "Name"@) {
        Some(v) => item.name matches Some(t) && t@ == v,
        None => item.name is None,
    })
}

/// Decodes a full queue listing: the response's pairs are carved into
/// one group per `file` key, and each group decodes into one entry.
pub fn parse_playlist(attrs: Attributes) -> (r: Result<Playlist, AttrError>)
    ensures
        ({
            let groups = crate::attrs::split_at_spec(attrs@, "file"@);
            &&& (r is Ok <==> (forall|g: int|
                0 <= g < groups.len() ==> playlist_item_ok(#[trigger] groups[g])))
            &&& (r matches Ok(pl) ==> pl.items.len() == groups.len() && (forall|g: int|
                0 <= g < groups.len() ==> playlist_item_matches(
                    #[trigger] pl.items@[g],
                    groups[g],
                )))
            &&& (r matches Err(e) ==> exists|g: int|
                0 <= g < groups.len() && !playlist_item_ok(#[trigger] groups[g])
                    && e.name_spec() == playlist_item_err_name(groups[g]))
        }),
{
    let ghost groups = crate::attrs::split_at_spec(attrs@, "file"@);
    let mut parts = attrs.split_at("file");
    assert(parts@.map_values(|a: Attributes| a@) == groups);
    let n = parts.len();
    assert(groups.len() == n);
    proof {
        assert(groups.skip(0) =~= groups);
    }
    let mut items: Vec<PlaylistItem> = Vec::new();
    let mut i: usize = 0;
    while i < n
        invariant
            i <= n,
            groups == crate::attrs::split_at_spec(attrs@, "file"@),
            groups.len() == n,
            parts.len() == n - i,
            parts@.map_values(|a: Attributes| a@) == groups.skip(i as int),
            items.len() == i,
            forall|g: int| 0 <= g < i ==> playlist_item_ok(#[trigger] groups[g]),
            forall|g: int|
                0 <= g < i ==> playlist_item_matches(#[trigger] items@[g], groups[g]),
        decreases n - i,
    {
        let ghost prev = parts@;
        let part = parts.remove(0);
        proof {
            assert(parts@ =~= prev.skip(1));
            assert(prev.map_values(|a: Attributes| a@)[0] == part@);
            assert(groups.skip(i as int)[0] == groups[i as int]);
            assert(part@ == groups[i as int]);
            assert(parts@.map_values(|a: Attributes| a@) =~= groups.skip(i + 1)) by {
                assert(forall|k: int| 0 <= k < parts@.len() ==> #[trigger] parts@[k] == prev[k + 1]);
                assert(forall|k: int|
                    0 <= k < parts@.len() ==> (#[trigger] parts@[k])@ == groups[i + 1 + k]) by {
                    assert(forall|k: int|
                        0 <= k + 1 < prev.len() ==> (#[trigger] prev[k + 1])@ == groups.skip(
                            i as int,
                        )[k + 1]);
                }
            }
        }
        match parse_playlist_item(part) {
            Ok(item) => {
                items.push(item);
            },
            Err(e) => {
                proof {
                    assert(!playlist_item_ok(groups[i as int]));
                    assert(e.name_spec() == playlist_item_err_name(groups[i as int]));
                }
                return Err(e);
            },
        }
        i += 1;
    }
    Ok(Playlist { items })
}

/// Decodes the `replay_gain_status` response: an absent mode attribute
/// means replay gain is off.
pub fn replay_gain_status_mode(attrs: &Attributes) -> (r: Result<ReplayGainMode, AttrError>)
    ensures
        match first_value(attrs@, "replay_gain_mode"@) {
            None => r matches Ok(m) && m == ReplayGainMode::Off,
            Some(v) => {
                if crate::types::replay_gain_mode_of(v) is Some {
                    r matches Ok(m) && Some(m) == crate::types::replay_gain_mode_of(v)
                } else {
                    r matches Err(e) && e is Malformed && e.name_spec() == "replay_gain_mode"@
                }
            },
        },
{
    match attrs.get_opt::<ReplayGainMode>("replay_gain_mode") {
        Ok(Some(mode)) => Ok(mode),
        Ok(None) => Ok(ReplayGainMode::Off),
        Err(e) => Err(e),
    }
}

/// A transport operation that needs the stuck-player workaround.
#[derive(Debug, Clone, Copy)]
pub enum PlayerOp {
    Next,
    Previous,
    Seek(Seconds),
}

/// The request an operation maps to.
pub open spec fn player_op_request(op: PlayerOp) -> (Seq<char>, Seq<Seq<char>>) {
    match op {
        PlayerOp::Next => ("next"@, seq![]),
        PlayerOp::Previous => ("previous"@, seq![]),
        PlayerOp::Seek(t) => ("seekcur"@, seq![millis_str(t.millis as nat)]),
    }
}

/// The workaround for skipping or seeking while the daemon is playing:
/// issuing the operation alone can leave the daemon reporting `play`
/// without advancing. The plan always pauses first, then performs the
/// operation, then resumes play exactly when the observed state was
/// playing — in that order.
pub fn player_op(state: crate::types::PlaybackState, op: PlayerOp) -> (plan: Vec<Request>)
    ensures
        plan.len() == (if state is Play {
            3int
        } else {
            2int
        }),
        req_is(plan@[0], "pause"@, seq![]),
        req_is(plan@[1], player_op_request(op).0, player_op_request(op).1),
        state is Play ==> req_is(plan@[2], "play"@, seq![]),
{
    let mut plan: Vec<Request> = Vec::new();
    plan.push(Request::pause());
    match op {
        PlayerOp::Next => plan.push(Request::next()),
        PlayerOp::Previous => plan.push(Request::previous()),
        PlayerOp::Seek(t) => plan.push(Request::seekcur(t)),
    }
    if state == crate::types::PlaybackState::Play {
        plan.push(Request::play());
    }
    plan
}

/// The name of the scratch playlist used to stage an atomic queue edit.
pub fn scratch_playlist_name() -> (r: &'static str)
    ensures
        r@ == "_sonicast_atomic_queue"@,
{
    "_sonicast_atomic_queue"
}

/// The staging plan that replaces the next queue entries in one step,
/// which the live-queue commands cannot do directly: clear the scratch
/// playlist, append each locator to it, then load it into the live queue
/// at the given position.
pub fn atomic_enqueue_tracks(urls: &Vec<String>, position: Option<i64>) -> (plan: Vec<Request>)
    ensures
        plan.len() == urls.len() + 2,
        req_is(plan@[0], "playlistclear"@, seq!["_sonicast_atomic_queue"@]),
        forall|i: int|
            0 <= i < urls.len() ==> req_is(
                #[trigger] plan@[i + 1],
                "playlistadd"@,
                seq!["_sonicast_atomic_queue"@, urls.deep_view()[i]],
            ),
        req_is(
            plan@[plan.len() - 1],
            "load"@,
            seq![
                "_sonicast_atomic_queue"@,
                "0:"@,
                (match position {
                    None => Seq::<char>::empty(),
                    Some(p) => signed_dec_str(p as int),
                }),
            ],
        ),
{
    let mut plan: Vec<Request> = Vec::new();
    plan.push(Request::playlistclear(scratch_playlist_name()));
    let n = urls.len();
    let mut i: usize = 0;
    while i < n
        invariant
            i <= n,
            n == urls.len(),
            urls.deep_view().len() == n,
            plan.len() == i + 1,
            req_is(plan@[0], "playlistclear"@, seq!["_sonicast_atomic_queue"@]),
            forall|k: int|
                0 <= k < i ==> req_is(
                    #[trigger] plan@[k + 1],
                    "playlistadd"@,
                    seq!["_sonicast_atomic_queue"@, urls.deep_view()[k]],
                ),
        decreases n - i,
    {
        assert(urls.deep_view()[i as int] == urls[i as int]@);
        plan.push(Request::playlistadd(scratch_playlist_name(), urls[i].as_str()));
        i += 1;
    }
    let last = Request::load(scratch_playlist_name(), None, position);
    plan.push(last);
    proof {
        assert(plan@[plan@.len() - 1].args.deep_view() =~= seq![
            "_sonicast_atomic_queue"@,
            "0:"@,
            (match position {
                None => Seq::<char>::empty(),
                Some(p) => signed_dec_str(p as int),
            }),
        ]);
    }
    plan
}

/// The requests that append each locator to the live queue, in order.
pub fn addid_requests(urls: &Vec<String>) -> (plan: Vec<Request>)
    ensures
        plan.len() == urls.len(),
        forall|i: int|
            0 <= i < urls.len() ==> req_is(
                #[trigger] plan@[i],
                "addid"@,
                seq![urls.deep_view()[i]],
            ),
{
    let mut plan: Vec<Request> = Vec::new();
    let n = urls.len();
    let mut i: usize = 0;
    while i < n
        invariant
            i <= n,
            n == urls.len(),
            urls.deep_view().len() == n,
            plan.len() == i,
            forall|k: int|
                0 <= k < i ==> req_is(#[trigger] plan@[k], "addid"@, seq![urls.deep_view()[k]]),
        decreases n - i,
    {
        assert(urls.deep_view()[i as int] == urls[i as int]@);
        plan.push(Request::addid(urls[i].as_str()));
        i += 1;
    }
    plan
}

/// The plan that replaces the whole queue with the given tracks and
/// starts playing: clear, set shuffle where requested, append the tracks
/// in their given order, then play — from the given index, or from the
/// start.
pub fn play_track_list(urls: &Vec<String>, index: Option<usize>, shuffle: Option<bool>) -> (plan:
    Vec<Request>)
    ensures
        ({
            let shuffle_len: int = if shuffle is Some {
                1
            } else {
                0
            };
            &&& plan.len() == urls.len() + shuffle_len + 2
            &&& req_is(plan@[0], "clear"@, seq![])
            &&& (shuffle matches Some(b) ==> req_is(
                plan@[1],
                "random"@,
                seq![
                    (if b {
                        "1"@
                    } else {
                        "0"@
                    }),
                ],
            ))
            &&& (forall|i: int|
                0 <= i < urls.len() ==> req_is(
                    #[trigger] plan@[i + 1 + shuffle_len],
                    "addid"@,
                    seq![urls.deep_view()[i]],
                ))
            &&& (match index {
                Some(p) => req_is(plan@[plan.len() - 1], "play"@, seq![dec_str(p as nat)]),
                None => req_is(plan@[plan.len() - 1], "play"@, seq![]),
            })
        }),
{
    let ghost shuffle_len: int = if shuffle is Some {
        1
    } else {
        0
    };
    let mut plan: Vec<Request> = Vec::new();
    plan.push(Request::clear());
    match shuffle {
        Some(b) => plan.push(Request::random(b)),
        None => {},
    }
    let n = urls.len();
    let mut i: usize = 0;
    while i < n
        invariant
            i <= n,
            n == urls.len(),
            urls.deep_view().len() == n,
            shuffle_len == (if shuffle is Some {
                1int
            } else {
                0int
            }),
            plan.len() == i + 1 + shuffle_len,
            req_is(plan@[0], "clear"@, seq![]),
            shuffle matches Some(b) ==> req_is(
                plan@[1],
                "random"@,
                seq![
                    (if b {
                        "1"@
                    } else {
                        "0"@
                    }),
                ],
            ),
            forall|k: int|
                0 <= k < i ==> req_is(
                    #[trigger] plan@[k + 1 + shuffle_len],
                    "addid"@,
                    seq![urls.deep_view()[k]],
                ),
        decreases n - i,
    {
        assert(urls.deep_view()[i as int] == urls[i as int]@);
        plan.push(Request::addid(urls[i].as_str()));
        i += 1;
    }
    match index {
        Some(p) => plan.push(Request::playpos(p)),
        None => plan.push(Request::play()),
    }
    plan
}

/// The queue index of the entry the status reports as playing: the first
/// entry whose identifier equals the status's song identifier.
pub fn current_track_index(items: &Vec<PlaylistItem>, song_id: &Option<Id>) -> (r: Option<usize>)
    ensures
        match song_id {
            None => r is None,
            Some(id) => {
                match r {
                    Some(i) => {
                        &&& i < items.len()
                        &&& items@[i as int].id@ == id@
                        &&& (forall|j: int|
                            0 <= j < i ==> (#[trigger] items@[j]).id@ != id@)
                    },
                    None => forall|j: int|
                        0 <= j < items.len() ==> (#[trigger] items@[j]).id@ != id@,
                }
            },
        },
{
    let id = match song_id {
        Some(id) => id,
        None => {
            return None;
        },
    };
    let n = items.len();
    let mut i: usize = 0;
    while i < n
        invariant
            i <= n,
            n == items.len(),
            song_id matches Some(x) && x@ == id@,
            forall|j: int| 0 <= j < i ==> (#[trigger] items@[j]).id@ != id@,
        decreases n - i,
    {
        if items[i].id == *id {
            return Some(i);
        }
        i += 1;
    }
    None
}

/// Which watch signals one batch of change events fires: the player,
/// playlist and options subsystems each have a signal; mixer changes
/// fire none.
pub fn signals(events: &Vec<crate::types::MpdEvent>) -> (r: (bool, bool, bool))
    ensures
        r.0 == events@.contains(crate::types::MpdEvent::Player),
        r.1 == events@.contains(crate::types::MpdEvent::Playlist),
        r.2 == events@.contains(crate::types::MpdEvent::Options),
{
    let mut player = false;
    let mut playlist = false;
    let mut options = false;
    let n = events.len();
    let mut i: usize = 0;
    while i < n
        invariant
            i <= n,
            n == events.len(),
            player == events@.take(i as int).contains(crate::types::MpdEvent::Player),
            playlist == events@.take(i as int).contains(crate::types::MpdEvent::Playlist),
            options == events@.take(i as int).contains(crate::types::MpdEvent::Options),
        decreases n - i,
    {
        proof {
            assert(events@.take(i + 1).drop_last() =~= events@.take(i as int));
            assert(events@.take(i + 1).last() == events@[i as int]);
            assert(forall|e: crate::types::MpdEvent|
                events@.take(i + 1).contains(e) <==> events@.take(i as int).contains(e) || events@[
                    i as int
                ] == e) by {
                assert(forall|e: crate::types::MpdEvent|
                    events@.take(i as int).contains(e) ==> events@.take(i + 1).contains(e)) by {
                    assert(forall|k: int|
                        0 <= k < i ==> events@.take(i + 1)[k] == events@.take(i as int)[k]);
                }
            }
        }
        match events[i] {
            crate::types::MpdEvent::Player => {
                player = true;
            },
            crate::types::MpdEvent::Playlist => {
                playlist = true;
            },
            crate::types::MpdEvent::Options => {
                options = true;
            },
            crate::types::MpdEvent::Mixer => {},
        }
        i += 1;
    }
    proof {
        assert(events@.take(n as int) =~= events@);
    }
    (player, playlist, options)
}

} // verus!
