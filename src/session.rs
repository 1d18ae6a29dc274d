//! The decisions of a bridge session, as a state machine: the caller performs
//! each action it is handed (prepare the transport, connect, read so many
//! bytes) and reports what came of it; the machine answers with the event to
//! write, if any, and the next action.
use vstd::prelude::*;
use vstd::string::StringExecFns;

use crate::event::{stream_error_prefix, Event};
use crate::wire::{
    encode_frame, lemma_frame_decodes, media_type_of, records_of, FrameHeader, MediaType, Record,
    HEADER_LEN,
};

verus! {

/// Where a session stands.
#[derive(Debug, Clone, Copy, PartialEq, Eq, Structural)]
pub enum Stage {
    /// The transport is being prepared.
    Preparing,
    /// The connection is being opened.
    Connecting,
    /// A frame header is to be read.
    Header,
    /// The payload of a frame whose header was read is to be read.
    Payload { tag: u8, len: u32 },
    /// The stream failed; nothing follows.
    Ended,
}

/// What the caller is to do next.
#[derive(Debug, Clone, Copy, PartialEq, Eq, Structural)]
pub enum Action {
    /// Run the transport preparation step and report its outcome.
    PrepareTransport,
    /// Open the connection to the frame source.
    Connect,
    /// Read exactly this many bytes from the stream and report them, or the
    /// failure.
    ReadExact(usize),
    /// Stop: the session is over.
    Stop,
}

/// A session's state.
#[derive(Debug, Clone, Copy, PartialEq, Eq, Structural)]
pub struct Session {
    pub stage: Stage,
}

/// Whether a platform hint calls for the transport preparation step: no hint
/// means Android, and any hint that starts with `android` does.
pub open spec fn prepares_transport(platform: Option<&str>) -> bool {
    match platform {
        None => true,
        Some(p) => p@.len() >= 7 && p@.subrange(0, 7) == "android"@,
    }
}

/// The detail that a read past the end of the bytes at hand reports.
pub open spec fn short_read_detail() -> Seq<char> {
    "failed to fill whole buffer"@
}

fn short_read_text() -> (s: &'static str)
    ensures
        s@ == short_read_detail(),
{
    "failed to fill whole buffer"
}

fn starts_with_android(p: &str) -> (r: bool)
    ensures
        r == (p@.len() >= 7 && p@.subrange(0, 7) == "android"@),
{
    let prefix = "android";
    proof {
        reveal_strlit("android");
    }
    let n = p.unicode_len();
    if n < 7 {
        return false;
    }
    let mut i: usize = 0;
    while i < 7
        invariant
            i <= 7,
            n == p@.len(),
            n >= 7,
            prefix@ == "android"@,
            prefix@.len() == 7,
            forall|k: int| 0 <= k < i ==> p@[k] == prefix@[k],
        decreases 7 - i,
    {
        if p.get_char(i) != prefix.get_char(i) {
            assert(p@.subrange(0, 7)[i as int] != prefix@[i as int]);
            return false;
        }
        i = i + 1;
    }
    assert(p@.subrange(0, 7) =~= prefix@);
    true
}

impl Session {
    /// The number of bytes that a read in the session's stage takes.
    pub open spec fn spec_read_len(self) -> int {
        match self.stage {
            Stage::Header => HEADER_LEN as int,
            Stage::Payload { len, .. } => len as int,
            _ => 0,
        }
    }

    /// Whether the session is waiting for the outcome of a read.
    pub open spec fn is_reading(self) -> bool {
        self.stage is Header || self.stage is Payload
    }

    /// Starts a session: it prepares the transport first where the platform
    /// hint calls for it, and otherwise connects at once.
    pub fn new(platform: Option<&str>) -> (r: (Session, Action))
        ensures
            prepares_transport(platform) ==> r.0.stage == Stage::Preparing && r.1
                == Action::PrepareTransport,
            !prepares_transport(platform) ==> r.0.stage == Stage::Connecting && r.1
                == Action::Connect,
    {
        let prepare = match platform {
            None => true,
            Some(p) => starts_with_android(p),
        };
        if prepare {
            (Session { stage: Stage::Preparing }, Action::PrepareTransport)
        } else {
            (Session { stage: Stage::Connecting }, Action::Connect)
        }
    }

    /// Takes the outcome of the preparation step. A failure is reported as an
    /// error event but is not fatal: the session connects either way.
    pub fn on_prepared(&mut self, outcome: Result<(), String>) -> (r: (Option<Event>, Action))
        requires
            old(self).stage == Stage::Preparing,
        ensures
            final(self).stage == Stage::Connecting,
            r.1 == Action::Connect,
            match outcome {
                Ok(_) => r.0 is None,
                Err(m) => r.0 matches Some(e) && e.is_error_of(m@),
            },
    {
        self.stage = Stage::Connecting;
        match outcome {
            Ok(()) => (None, Action::Connect),
            Err(m) => (Some(Event::error(m)), Action::Connect),
        }
    }

    /// Takes the news that the connection is open: the first header is read.
    pub fn on_connected(&mut self) -> (a: Action)
        requires
            old(self).stage == Stage::Connecting,
        ensures
            final(self).stage == Stage::Header,
            a == Action::ReadExact(HEADER_LEN),
    {
        self.stage = Stage::Header;
        Action::ReadExact(HEADER_LEN)
    }

    /// Takes the outcome of a read: the bytes asked for, or the failure's
    /// detail. A header leads to the read of its payload; a payload gives a
    /// frame event and the read of the next header; a failure (the end of
    /// the stream included) gives one error event and ends the session.
    pub fn on_read(&mut self, read: Result<Vec<u8>, String>) -> (r: (Option<Event>, Action))
        requires
            old(self).is_reading(),
            read matches Ok(b) ==> b@.len() == old(self).spec_read_len() && b@.len()
                <= isize::MAX,
        ensures
            match read {
                Err(d) => {
                    &&& final(self).stage == Stage::Ended
                    &&& r.1 == Action::Stop
                    &&& r.0 matches Some(e) && e.is_error_of(stream_error_prefix() + d@)
                },
                Ok(b) => match old(self).stage {
                    Stage::Payload { tag, len } => {
                        &&& final(self).stage == Stage::Header
                        &&& r.1 == Action::ReadExact(HEADER_LEN)
                        &&& r.0 matches Some(e) && e.is_frame_of(media_type_of(tag), b@)
                    },
                    _ => {
                        let h = FrameHeader::spec_parse(b@);
                        &&& final(self).stage == (Stage::Payload { tag: h.tag, len: h.len })
                        &&& r.1 == Action::ReadExact(h.len as usize)
                        &&& r.0 is None
                    },
                },
            },
    {
        match read {
            Err(d) => {
                self.stage = Stage::Ended;
                (Some(Event::stream_error(d.as_str())), Action::Stop)
            },
            Ok(b) => match self.stage {
                Stage::Payload { tag, len } => {
                    self.stage = Stage::Header;
                    let e = Event::frame(MediaType::from_tag(tag), b.as_slice());
                    (Some(e), Action::ReadExact(HEADER_LEN))
                },
                _ => {
                    let h = FrameHeader::read(b.as_slice());
                    self.stage = Stage::Payload { tag: h.tag, len: h.len };
                    (None, Action::ReadExact(h.len as usize))
                },
            },
        }
    }
}

/// The event that stands for the first record of a stream that opens with a
/// well-formed frame is a frame event with the tag's media type and the
/// radix-64 text of exactly the payload that was sent.
pub proof fn lemma_frame_event(tag: u8, payload: Seq<u8>, rest: Seq<u8>, e: Event, detail: Seq<char>)
    requires
        payload.len() <= u32::MAX,
        e.stands_for(records_of(encode_frame(tag, payload) + rest)[0], detail),
    ensures
        e.is_frame_of(media_type_of(tag), payload),
{
    lemma_frame_decodes(tag, payload, rest);
}

/// The bytes `input[pos..pos + n]`.
fn take(input: &[u8], pos: usize, n: usize) -> (r: Vec<u8>)
    requires
        pos + n <= input@.len(),
    ensures
        r@ == input@.subrange(pos as int, pos + n),
{
    let mut r: Vec<u8> = Vec::new();
    let total = input.len();
    let mut i: usize = 0;
    while i < n
        invariant
            i <= n,
            total == input@.len(),
            pos + n <= total,
            r@ == input@.subrange(pos as int, pos + i),
        decreases n - i,
    {
        r.push(input[pos + i]);
        i = i + 1;
        assert(r@ =~= input@.subrange(pos as int, pos + i));
    }
    r
}

/// Decodes a stream that holds exactly `input` and then closes: one frame
/// event for each complete frame at its front, in order, then one error
/// event for the header or payload that the end cut short.
pub fn decode_stream(input: &[u8]) -> (r: Vec<Event>)
    requires
        input@.len() <= isize::MAX,
    ensures
        r@.len() == records_of(input@).len(),
        forall|i: int|
            0 <= i < r@.len() ==> #[trigger] r@[i].stands_for(
                records_of(input@)[i],
                short_read_detail(),
            ),
{
    let mut session = Session { stage: Stage::Header };
    let mut next = Action::ReadExact(HEADER_LEN);
    let mut events: Vec<Event> = Vec::new();
    let mut pos: usize = 0;
    let ghost recs: Seq<Record> = Seq::empty();
    let ghost len: int = input@.len() as int;
    assert(input@.subrange(0, len) =~= input@);
    loop
        invariant
            len == input@.len(),
            len <= isize::MAX,
            pos <= len,
            events@.len() == recs.len(),
            forall|i: int|
                0 <= i < events@.len() ==> #[trigger] events@[i].stands_for(
                    recs[i],
                    short_read_detail(),
                ),
            session.stage is Ended ==> next == Action::Stop && recs == records_of(input@),
            session.stage is Header ==> {
                &&& next == Action::ReadExact(HEADER_LEN)
                &&& records_of(input@) == recs + records_of(input@.subrange(pos as int, len))
            },
            session.stage is Payload ==> {
                &&& pos >= HEADER_LEN
                &&& next == Action::ReadExact(session.spec_read_len() as usize)
                &&& session.stage == (Stage::Payload {
                    tag: FrameHeader::spec_parse(input@.subrange(pos - HEADER_LEN, len)).tag,
                    len: FrameHeader::spec_parse(input@.subrange(pos - HEADER_LEN, len)).len,
                })
                &&& records_of(input@) == recs + records_of(
                    input@.subrange(pos - HEADER_LEN, len),
                )
            },
            !(session.stage is Preparing) && !(session.stage is Connecting),
        ensures
            events@.len() == records_of(input@).len(),
            forall|i: int|
                0 <= i < events@.len() ==> #[trigger] events@[i].stands_for(
                    records_of(input@)[i],
                    short_read_detail(),
                ),
        decreases 2 * (len - pos) + match session.stage {
            Stage::Payload { .. } => 2int,
            Stage::Header => 1int,
            _ => 0int,
        },
    {
        let n = match next {
            Action::ReadExact(n) => n,
            _ => break,
        };
        let ghost before = session;
        let ghost start = pos;
        let read = if n <= input.len() - pos {
            let b = take(input, pos, n);
            pos = pos + n;
            Ok(b)
        } else {
            Err(String::from_str(short_read_text()))
        };
        let (ev, act) = session.on_read(read);
        proof {
            let rest = input@.subrange(start as int, len);
            match before.stage {
                Stage::Header => {
                    if n > len - start {
                        recs = recs.push(Record::Failure);
                    } else {
                        let h = FrameHeader::spec_parse(rest);
                        assert(input@.subrange(pos - HEADER_LEN, len) =~= rest);
                        assert(FrameHeader::spec_parse(input@.subrange(start as int, start + n))
                            == h);
                    }
                },
                Stage::Payload { tag, len: plen } => {
                    let frame_start = start - HEADER_LEN;
                    let whole = input@.subrange(frame_start, len);
                    if n > len - start {
                        recs = recs.push(Record::Failure);
                    } else {
                        let payload = input@.subrange(start as int, pos as int);
                        assert(whole.subrange(HEADER_LEN as int, HEADER_LEN + plen) =~= payload);
                        assert(whole.subrange(HEADER_LEN + plen, whole.len() as int)
                            =~= input@.subrange(pos as int, len));
                        recs = recs.push(Record::Frame { tag, payload });
                    }
                },
                _ => {},
            }
        }
        match ev {
            Some(e) => events.push(e),
            None => {},
        }
        next = act;
    }
    events
}

} // verus!
