//! The frame reader: a state machine over the incoming line stream that
//! assembles complete response frames. A frame is zero or more `key: value`
//! lines, optionally a binary segment announced by a `binary: <N>` line,
//! and exactly one terminator: the success sentinel `OK`, or an error line
//! prefixed `ACK `. A line matching none of these shapes means the peer
//! and client have desynchronized and is a fatal protocol error.

use vstd::prelude::*;
use vstd::string::StrSliceExecFns;
use vstd::string::StringExecFns;
use crate::attrs::{AttrPair, Attributes};
use crate::text::{find_char, find_char_exec, lemma_find_char, parse_u64, parse_u64_spec, str_eq};

verus! {

/// The negotiated protocol, read from the greeting line.
#[derive(Debug)]
pub struct Protocol {
    pub version: String,
}

/// A connection-fatal error: transport failure, stream end, or a protocol
/// desynchronization. An application-level error response is not one of
/// these; it is an `ErrorResponse`.
#[derive(Debug)]
pub enum Error {
    /// A transport read or write failed.
    Io { message: String },
    /// The peer closed the stream (a zero-length read).
    Closed,
    /// The byte stream no longer matches the protocol and cannot be
    /// trusted further.
    ProtocolError { message: String },
}

/// The peer's error line for one command: recoverable, scoped to that
/// command alone.
#[derive(Debug)]
pub struct ErrorResponse {
    /// The diagnostic text following the error sentinel, verbatim.
    pub line: String,
}

/// A successful response frame.
#[derive(Debug)]
pub struct OkResponse {
    pub attributes: Attributes,
    pub binary: Option<Vec<u8>>,
}

/// One complete response frame: success with data, or the peer's error.
pub type Response = Result<OkResponse, ErrorResponse>;

/// `p` is a prefix of `s`.
pub open spec fn has_prefix(s: Seq<char>, p: Seq<char>) -> bool {
    p.len() <= s.len() && s.take(p.len() as int) == p
}

/// Strips `prefix` from the front of `s`.
pub fn prefixed<'a>(prefix: &str, s: &'a str) -> (r: Option<&'a str>)
    ensures
        match r {
            Some(rest) => has_prefix(s@, prefix@) && rest@ == s@.skip(prefix@.len() as int),
            None => !has_prefix(s@, prefix@),
        },
{
    let np = prefix.unicode_len();
    let ns = s.unicode_len();
    if np > ns {
        return None;
    }
    let mut i: usize = 0;
    while i < np
        invariant
            i <= np <= ns,
            np == prefix@.len(),
            ns == s@.len(),
            forall|j: int| 0 <= j < i ==> s@[j] == prefix@[j],
        decreases np - i,
    {
        if s.get_char(i) != prefix.get_char(i) {
            assert(s@.take(np as int)[i as int] != prefix@[i as int]);
            return None;
        }
        i += 1;
    }
    assert(s@.take(np as int) =~= prefix@);
    Some(s.substring_char(np, ns))
}

/// Reads the handshake line: it must carry the greeting tag, and the
/// remainder is the negotiated protocol version.
pub fn parse_greeting(line: &str) -> (r: Result<Protocol, Error>)
    ensures
        match r {
            Ok(p) => has_prefix(line@, "OK MPD "@) && p.version@ == line@.skip("OK MPD "@.len() as int),
            Err(e) => !has_prefix(line@, "OK MPD "@) && e is ProtocolError,
        },
{
    match prefixed("OK MPD ", line) {
        Some(version) => Ok(Protocol { version: version.to_owned() }),
        None => {
            let mut message = "unexpected initial line from mpd: ".to_owned();
            message.append(line);
            Err(Error::ProtocolError { message })
        },
    }
}

/// What `feed_line` reports about one line.
#[derive(Debug)]
pub enum Step {
    /// The line completed a frame.
    Frame(Response),
    /// The line announced a binary segment of the given byte count; the
    /// caller must read that many raw bytes plus one trailing newline
    /// byte and hand them to `feed_binary`.
    Binary(usize),
    /// The line was a data line; the frame is not complete yet.
    More,
}

/// The value part of a data line: the text after the first colon, with at
/// most one leading space stripped.
pub open spec fn pair_value(l: Seq<char>, i: int) -> Seq<char> {
    let v = l.skip(i + 1);
    if v.len() > 0 && v[0] == ' ' {
        v.skip(1)
    } else {
        v
    }
}

/// Assembles response frames from decoded lines; the caller reads lines
/// (without their terminators) and raw binary segments from the transport.
pub struct FrameDecoder {
    attrs: Attributes,
    binary: Option<Vec<u8>>,
    expect: Option<usize>,
}

impl FrameDecoder {
    /// The data lines collected so far for the current frame.
    pub closed spec fn attrs_view(&self) -> Seq<AttrPair> {
        self.attrs@
    }

    /// The binary payload collected so far for the current frame.
    pub closed spec fn binary_view(&self) -> Option<Seq<u8>> {
        match self.binary {
            Some(b) => Some(b@),
            None => None,
        }
    }

    /// The byte count of an announced binary segment that has not been
    /// handed over yet.
    pub closed spec fn expecting(&self) -> Option<usize> {
        self.expect
    }

    /// No frame data collected and no binary segment outstanding.
    pub open spec fn fresh(&self) -> bool {
        self.attrs_view() == Seq::<AttrPair>::empty() && self.binary_view() is None
            && self.expecting() is None
    }

    /// Whether an announced binary segment still has to be handed over
    /// before the next line.
    pub fn awaiting_binary(&self) -> (b: bool)
        ensures
            b == (self.expecting() is Some),
    {
        self.expect.is_some()
    }

    pub fn new() -> (r: FrameDecoder)
        ensures
            r.fresh(),
    {
        let r = FrameDecoder { attrs: Attributes::new(), binary: None, expect: None };
        assert(r.attrs_view() =~= Seq::<AttrPair>::empty());
        r
    }

    /// Consumes one line of the response stream.
    ///
    /// The line must be handed over without its terminating newline. The
    /// success sentinel or an error line completes the frame and leaves
    /// the decoder fresh for the next one; a `binary: <N>` line demands a
    /// `feed_binary` call next; a `key: value` line is attached to the
    /// current frame's attributes; any other line is a fatal protocol
    /// error.
    pub fn feed_line(&mut self, line: &str) -> (r: Result<Step, Error>)
        requires
            old(self).expecting() is None,
        ensures
            ({
                let l = line@;
                if l == "OK"@ {
                    &&& r matches Ok(Step::Frame(Ok(ok)))
                    &&& ok.attributes@ == old(self).attrs_view()
                    &&& (match ok.binary {
                        Some(b) => old(self).binary_view() == Some(b@),
                        None => old(self).binary_view() is None,
                    })
                    &&& final(self).fresh()
                } else if has_prefix(l, "ACK "@) {
                    &&& r matches Ok(Step::Frame(Err(e))) && e.line@ == l.skip(4)
                    &&& final(self).fresh()
                } else if has_prefix(l, "binary: "@) {
                    match parse_u64_spec(l.skip(8)) {
                        Some(n) => {
                            if n <= usize::MAX as u64 {
                                &&& r matches Ok(Step::Binary(m)) && m == n
                                &&& final(self).expecting() == Some(n as usize)
                                &&& final(self).attrs_view() == old(self).attrs_view()
                                &&& final(self).binary_view() == old(self).binary_view()
                            } else {
                                &&& r matches Err(e) && e is ProtocolError
                                &&& final(self).attrs_view() == old(self).attrs_view()
                                &&& final(self).binary_view() == old(self).binary_view()
                                &&& final(self).expecting() is None
                            }
                        },
                        None => {
                            &&& r matches Err(e) && e is ProtocolError
                            &&& final(self).attrs_view() == old(self).attrs_view()
                            &&& final(self).binary_view() == old(self).binary_view()
                            &&& final(self).expecting() is None
                        },
                    }
                } else {
                    match find_char(l, ':') {
                        Some(i) => {
                            &&& r matches Ok(Step::More)
                            &&& final(self).attrs_view() == old(self).attrs_view().push(
                                (l.take(i), pair_value(l, i)),
                            )
                            &&& final(self).binary_view() == old(self).binary_view()
                            &&& final(self).expecting() is None
                        },
                        None => {
                            &&& r matches Err(e) && e is ProtocolError
                            &&& final(self).attrs_view() == old(self).attrs_view()
                            &&& final(self).binary_view() == old(self).binary_view()
                            &&& final(self).expecting() is None
                        },
                    }
                }
            }),
    {
        proof {
            lemma_find_char(line@, ':');
            reveal_strlit("ACK ");
            reveal_strlit("binary: ");
        }
        if str_eq(line, "OK") {
            let mut attrs = Attributes::new();
            let mut binary: Option<Vec<u8>> = None;
            core::mem::swap(&mut self.attrs, &mut attrs);
            core::mem::swap(&mut self.binary, &mut binary);
            assert(self.attrs_view() =~= Seq::<AttrPair>::empty());
            return Ok(Step::Frame(Ok(OkResponse { attributes: attrs, binary })));
        }
        if let Some(rest) = prefixed("ACK ", line) {
            let mut attrs = Attributes::new();
            self.attrs = attrs;
            self.binary = None;
            assert(self.attrs_view() =~= Seq::<AttrPair>::empty());
            return Ok(Step::Frame(Err(ErrorResponse { line: rest.to_owned() })));
        }
        if let Some(len_text) = prefixed("binary: ", line) {
            match parse_u64(len_text) {
                Some(n) => {
                    if n <= usize::MAX as u64 {
                        self.expect = Some(n as usize);
                        return Ok(Step::Binary(n as usize));
                    } else {
                        let mut message = "parsing length of binary data: ".to_owned();
                        message.append(len_text);
                        return Err(Error::ProtocolError { message });
                    }
                },
                None => {
                    let mut message = "parsing length of binary data: ".to_owned();
                    message.append(len_text);
                    return Err(Error::ProtocolError { message });
                },
            }
        }
        let n = line.unicode_len();
        match find_char_exec(line, ':') {
            Some(i) => {
                let key = line.substring_char(0, i);
                let raw = line.substring_char(i + 1, n);
                let value = if raw.unicode_len() > 0 && raw.get_char(0) == ' ' {
                    let v = raw.substring_char(1, raw.unicode_len());
                    proof {
                        assert(raw@.skip(1) =~= line@.skip(i + 1).skip(1));
                    }
                    v
                } else {
                    raw
                };
                assert(value@ == pair_value(line@, i as int));
                self.attrs.push(key.to_owned(), value.to_owned());
                Ok(Step::More)
            },
            None => {
                let mut message = "unrecognised response line from mpd: ".to_owned();
                message.append(line);
                Err(Error::ProtocolError { message })
            },
        }
    }

    /// Consumes an announced binary segment: exactly the announced byte
    /// count, and the mandatory single trailing newline byte. Anything
    /// else is a fatal protocol error for the frame.
    pub fn feed_binary(&mut self, data: Vec<u8>, trailing: u8) -> (r: Result<(), Error>)
        requires
            old(self).expecting() is Some,
        ensures
            ({
                let n = old(self).expecting().unwrap();
                if data@.len() == n && trailing == 10u8 {
                    &&& r is Ok
                    &&& final(self).binary_view() == Some(data@)
                    &&& final(self).attrs_view() == old(self).attrs_view()
                    &&& final(self).expecting() is None
                } else {
                    r matches Err(e) && e is ProtocolError
                }
            }),
    {
        let expect = match self.expect {
            Some(n) => n,
            None => 0,
        };
        if data.len() != expect {
            return Err(
                Error::ProtocolError {
                    message: "binary data truncated before trailing newline".to_owned(),
                },
            );
        }
        if trailing != 10u8 {
            return Err(
                Error::ProtocolError {
                    message: "binary data did not end with trailing newline".to_owned(),
                },
            );
        }
        self.binary = Some(data);
        self.expect = None;
        Ok(())
    }
}

} // verus!
