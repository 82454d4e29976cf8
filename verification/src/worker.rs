//! Host/worker IPC framing: the host numbers each message it sends, wraps it in
//! a one-line JSON envelope, and reads the worker's replies line by line.
use vstd::prelude::*;
use crate::text::{chars_of, decimal, u64_decimal};

verus! {

broadcast use vstd::string::group_string_axioms;

/// Version of the envelope format written into every frame.
pub const DESKTOP_PROTOCOL_VERSION: u64 = 1;

/// Why a frame could not be written or read.
#[derive(Clone, Copy, Debug, PartialEq, Eq, Structural)]
pub enum DesktopIpcFrameError {
    /// The message would span more than one line.
    EmbeddedNewline,
    /// The stream ended inside a frame.
    TruncatedFrame,
}

/// The bytes of ASCII text.
pub open spec fn ascii_bytes(s: Seq<char>) -> Seq<u8> {
    s.map_values(|c: char| (c as u32) as u8)
}

/// The one-line envelope around message `msg` with sequence number `seq`:
/// `{"version":V,"sequence":N,"payload":MSG}`.
pub open spec fn envelope_bytes(seq: u64, msg: Seq<u8>) -> Seq<u8> {
    ascii_bytes("{\"version\":"@ + decimal(DESKTOP_PROTOCOL_VERSION as nat) + ",\"sequence\":"@
        + decimal(seq as nat) + ",\"payload\":"@) + msg + ascii_bytes("}"@)
}

/// A frame: an envelope followed by a newline.
pub open spec fn frame_bytes(seq: u64, msg: Seq<u8>) -> Seq<u8> {
    envelope_bytes(seq, msg).push(10u8)
}

pub open spec fn has_newline(s: Seq<u8>) -> bool {
    exists|i: int| 0 <= i < s.len() && s[i] == 10u8
}

fn push_ascii(out: &mut Vec<u8>, s: &[char])
    ensures
        final(out)@ == old(out)@ + ascii_bytes(s@),
{
    let ghost start = out@;
    let mut i: usize = 0;
    while i < s.len()
        invariant
            i <= s.len(),
            out@ == start + ascii_bytes(s@.take(i as int)),
        decreases s.len() - i,
    {
        #[verifier::truncate]
        let b: u8 = (s[i] as u32) as u8;
        out.push(b);
        assert(ascii_bytes(s@.take(i + 1)) =~= ascii_bytes(s@.take(i as int)).push(b));
        i = i + 1;
    }
    assert(s@.take(s.len() as int) == s@);
}

fn push_bytes(out: &mut Vec<u8>, s: &[u8])
    ensures
        final(out)@ == old(out)@ + s@,
{
    let ghost start = out@;
    let mut i: usize = 0;
    while i < s.len()
        invariant
            i <= s.len(),
            out@ == start + s@.take(i as int),
        decreases s.len() - i,
    {
        out.push(s[i]);
        assert(s@.take(i + 1) =~= s@.take(i as int).push(s@[i as int]));
        i = i + 1;
    }
    assert(s@.take(s.len() as int) == s@);
}

fn contains_newline(s: &[u8]) -> (r: bool)
    ensures
        r == has_newline(s@),
{
    let mut i: usize = 0;
    while i < s.len()
        invariant
            i <= s.len(),
            forall|j: int| 0 <= j < i ==> s@[j] != 10u8,
        decreases s.len() - i,
    {
        if s[i] == 10u8 {
            return true;
        }
        i = i + 1;
    }
    false
}

/// The host side of the pipe to an app worker: numbers each message and
/// frames it into `output`.
#[derive(Debug)]
pub struct DesktopWorkerIpcWriter {
    pub output: Vec<u8>,
    pub next_sequence: u64,
}

impl DesktopWorkerIpcWriter {
    /// `new`: a writer appending to `output`; the first message is number 1.
    pub fn new(output: Vec<u8>) -> (r: Self)
        ensures
            r.output@ == output@,
            r.next_sequence == 1,
    {
        DesktopWorkerIpcWriter { output, next_sequence: 1 }
    }

    /// `send`: frames `message` (its JSON encoding) under the next sequence
    /// number. The number is used up even when the message is refused.
    pub fn send(&mut self, message: &[u8]) -> (r: Result<(), DesktopIpcFrameError>)
        requires
            old(self).next_sequence < u64::MAX,
        ensures
            final(self).next_sequence == old(self).next_sequence + 1,
            has_newline(message@) ==> r == Err::<(), DesktopIpcFrameError>(
                DesktopIpcFrameError::EmbeddedNewline,
            ) && final(self).output@ == old(self).output@,
            !has_newline(message@) ==> r is Ok && final(self).output@ == old(self).output@
                + frame_bytes(old(self).next_sequence, message@),
    {
        let sequence = self.next_sequence;
        self.next_sequence = self.next_sequence + 1;
        if contains_newline(message) {
            return Err(DesktopIpcFrameError::EmbeddedNewline);
        }
        let version = u64_decimal(DESKTOP_PROTOCOL_VERSION);
        let number = u64_decimal(sequence);
        let a = chars_of("{\"version\":");
        let b = chars_of(",\"sequence\":");
        let c = chars_of(",\"payload\":");
        let d = chars_of("}");
        let ghost start = self.output@;
        let mut head: Vec<char> = Vec::new();
        crate::text::extend_chars(&mut head, a.as_slice());
        crate::text::extend_chars(&mut head, version.as_slice());
        crate::text::extend_chars(&mut head, b.as_slice());
        crate::text::extend_chars(&mut head, number.as_slice());
        crate::text::extend_chars(&mut head, c.as_slice());
        push_ascii(&mut self.output, head.as_slice());
        push_bytes(&mut self.output, message);
        push_ascii(&mut self.output, d.as_slice());
        self.output.push(10u8);
        assert(self.output@ =~= start + frame_bytes(sequence, message@));
        Ok(())
    }

    /// `into_inner`: the bytes written so far.
    pub fn into_inner(self) -> (r: Vec<u8>)
        ensures
            r@ == self.output@,
    {
        self.output
    }
}

// ---------------------------------------------------------------------------
// Reading frames
// ---------------------------------------------------------------------------

/// Index of the first newline in `s`.
pub open spec fn first_newline(s: Seq<u8>) -> Option<nat>
    decreases s.len(),
{
    if s.len() == 0 {
        None
    } else if s[0] == 10u8 {
        Some(0)
    } else {
        match first_newline(s.drop_first()) {
            Some(i) => Some(i + 1),
            None => None,
        }
    }
}

/// What a reader makes of a byte stream: one entry per newline-terminated
/// frame, in order, and an error for bytes left after the last newline.
pub open spec fn split_frames(s: Seq<u8>) -> Seq<Result<Seq<u8>, DesktopIpcFrameError>>
    decreases s.len(),
{
    if s.len() == 0 {
        Seq::empty()
    } else {
        match first_newline(s) {
            Some(i) => if i < s.len() {
                seq![Ok::<Seq<u8>, DesktopIpcFrameError>(s.take(i as int))] + split_frames(
                    s.skip((i + 1) as int),
                )
            } else {
                Seq::empty()
            },
            None => seq![Err::<Seq<u8>, DesktopIpcFrameError>(DesktopIpcFrameError::TruncatedFrame)],
        }
    }
}

proof fn lemma_first_newline_bound(s: Seq<u8>)
    ensures
        first_newline(s) matches Some(i) ==> i < s.len() && s[i as int] == 10u8 && forall|j: int|
            0 <= j < i ==> s[j] != 10u8,
        first_newline(s) is None ==> forall|j: int| 0 <= j < s.len() ==> s[j] != 10u8,
    decreases s.len(),
{
    if s.len() > 0 {
        lemma_first_newline_bound(s.drop_first());
        if s[0] != 10u8 {
            assert forall|j: int| 1 <= j < s.len() implies s.drop_first()[j - 1] == s[j] by {}
            assert forall|j: int| 0 <= j < s.len() && s[j] == 10u8 implies (first_newline(
                s.drop_first(),
            ) matches Some(k) && k + 1 <= j) by {
                if j > 0 {
                    assert(s.drop_first()[j - 1] == 10u8);
                }
            }
        }
    }
}

proof fn lemma_first_newline_at(s: Seq<u8>, i: int)
    requires
        0 <= i < s.len(),
        s[i] == 10u8,
        forall|j: int| 0 <= j < i ==> s[j] != 10u8,
    ensures
        first_newline(s) == Some(i as nat),
    decreases i,
{
    if i > 0 {
        lemma_first_newline_at(s.drop_first(), i - 1);
    }
}

proof fn lemma_first_newline_none(s: Seq<u8>)
    requires
        forall|j: int| 0 <= j < s.len() ==> s[j] != 10u8,
    ensures
        first_newline(s) is None,
    decreases s.len(),
{
    if s.len() > 0 {
        lemma_first_newline_none(s.drop_first());
    }
}

/// Everything one pass of the worker reader hands on.
#[derive(Debug)]
pub struct DesktopWorkerEvents {
    /// The frames read, in order; a read error ends the list.
    pub events: Vec<Result<Vec<u8>, DesktopIpcFrameError>>,
    /// How often the reader woke the event loop.
    pub notifications: usize,
}

pub open spec fn event_views(v: Seq<Result<Vec<u8>, DesktopIpcFrameError>>) -> Seq<
    Result<Seq<u8>, DesktopIpcFrameError>,
> {
    v.map_values(
        |e: Result<Vec<u8>, DesktopIpcFrameError>|
            match e {
                Ok(b) => Ok(b@),
                Err(x) => Err(x),
            },
    )
}

/// `read_desktop_worker_events`: reads frames from `input` until it ends or a
/// frame is broken, handing on each frame and waking the event loop after
/// each frame and once more at the end.
pub fn read_desktop_worker_events(input: &[u8]) -> (r: DesktopWorkerEvents)
    requires
        input@.len() < usize::MAX,
    ensures
        event_views(r.events@) == split_frames(input@),
        r.notifications == split_frames(input@).len() + (if split_frames(input@).len() > 0
            && split_frames(input@).last() is Err {
            0int
        } else {
            1int
        }),
{
    let mut events: Vec<Result<Vec<u8>, DesktopIpcFrameError>> = Vec::new();
    let mut notifications: usize = 0;
    let mut pos: usize = 0;
    assert(input@.skip(0) =~= input@);
    assert(event_views(events@) + split_frames(input@) =~= split_frames(input@));
    loop
        invariant
            input@.len() < usize::MAX,
            pos <= input.len(),
            split_frames(input@) == event_views(events@) + split_frames(input@.skip(pos as int)),
            notifications == events@.len(),
            events@.len() <= pos,
            forall|k: int| 0 <= k < events@.len() ==> events@[k] is Ok,
        decreases input.len() - pos,
    {
        let ghost rest = input@.skip(pos as int);
        if pos == input.len() {
            assert(rest.len() == 0);
            notifications = notifications + 1;
            assert(split_frames(input@) == event_views(events@)) by {
                assert(split_frames(rest) =~= Seq::empty());
                assert(event_views(events@) + Seq::empty() =~= event_views(events@));
            }
            proof {
                if events@.len() > 0 {
                    assert(event_views(events@).last() == Ok::<Seq<u8>, DesktopIpcFrameError>(
                        events@.last()->Ok_0@,
                    ));
                }
            }
            return DesktopWorkerEvents { events, notifications };
        }
        let mut end: usize = pos;
        while end < input.len() && input[end] != 10u8
            invariant
                pos <= end <= input.len(),
                forall|j: int| pos <= j < end ==> input@[j] != 10u8,
            decreases input.len() - end,
        {
            end = end + 1;
        }
        if end == input.len() {
            proof {
                lemma_first_newline_none(rest);
            }
            let ghost before = events@;
            events.push(Err(DesktopIpcFrameError::TruncatedFrame));
            notifications = notifications + 1;
            assert(event_views(events@) =~= event_views(before).push(
                Err(DesktopIpcFrameError::TruncatedFrame),
            ));
            assert(split_frames(rest) =~= seq![
                Err::<Seq<u8>, DesktopIpcFrameError>(DesktopIpcFrameError::TruncatedFrame),
            ]);
            return DesktopWorkerEvents { events, notifications };
        }
        proof {
            lemma_first_newline_at(rest, end - pos);
            assert(rest.skip(end - pos + 1) =~= input@.skip(end + 1));
        }
        let mut frame: Vec<u8> = Vec::new();
        let mut k: usize = pos;
        while k < end
            invariant
                pos <= k <= end < input.len(),
                frame@ == input@.subrange(pos as int, k as int),
            decreases end - k,
        {
            frame.push(input[k]);
            k = k + 1;
        }
        assert(frame@ =~= rest.take(end - pos));
        let ghost before = events@;
        events.push(Ok(frame));
        notifications = notifications + 1;
        assert(event_views(events@) =~= event_views(before).push(Ok(rest.take(end - pos))));
        assert(split_frames(rest) =~= seq![Ok::<Seq<u8>, DesktopIpcFrameError>(rest.take(end - pos))]
            + split_frames(input@.skip(end + 1)));
        assert(event_views(events@) + split_frames(input@.skip(end + 1)) =~= event_views(before)
            + split_frames(rest));
        pos = end + 1;
    }
}

// ---------------------------------------------------------------------------
// Writing then reading gives the envelopes back
// ---------------------------------------------------------------------------

/// The bytes a fresh writer holds after sending `msgs`, numbered from `first`.
pub open spec fn sent_frames(msgs: Seq<Seq<u8>>, first: u64) -> Seq<u8>
    decreases msgs.len(),
{
    if msgs.len() == 0 {
        Seq::empty()
    } else {
        sent_frames(msgs.drop_last(), first) + frame_bytes(
            (first + msgs.len() - 1) as u64,
            msgs.last(),
        )
    }
}

/// The envelopes of `msgs`, numbered from `first`.
pub open spec fn sent_envelopes(msgs: Seq<Seq<u8>>, first: u64) -> Seq<
    Result<Seq<u8>, DesktopIpcFrameError>,
> {
    Seq::new(
        msgs.len(),
        |i: int| Ok::<Seq<u8>, DesktopIpcFrameError>(envelope_bytes((first + i) as u64, msgs[i])),
    )
}

proof fn lemma_ascii_no_newline(s: Seq<char>)
    requires
        forall|i: int| 0 <= i < s.len() ==> (s[i] as u32) != 10u32 && (s[i] as u32) < 128u32,
    ensures
        !has_newline(ascii_bytes(s)),
{
    assert forall|i: int| 0 <= i < ascii_bytes(s).len() implies ascii_bytes(s)[i] != 10u8 by {
        let v: u32 = s[i] as u32;
        assert((v as u8) != 10u8) by (bit_vector)
            requires
                v < 128u32,
                v != 10u32,
        ;
    }
}

proof fn lemma_envelope_no_newline(seq: u64, msg: Seq<u8>)
    requires
        !has_newline(msg),
    ensures
        !has_newline(envelope_bytes(seq, msg)),
{
    reveal_strlit("{\"version\":");
    reveal_strlit(",\"sequence\":");
    reveal_strlit(",\"payload\":");
    reveal_strlit("}");
    crate::text::lemma_decimal_digits(DESKTOP_PROTOCOL_VERSION as nat);
    crate::text::lemma_decimal_digits(seq as nat);
    let head = "{\"version\":"@ + decimal(DESKTOP_PROTOCOL_VERSION as nat) + ",\"sequence\":"@
        + decimal(seq as nat) + ",\"payload\":"@;
    assert forall|i: int| 0 <= i < head.len() implies (head[i] as u32) != 10u32 && (head[i] as u32)
        < 128u32 by {
        let v = decimal(DESKTOP_PROTOCOL_VERSION as nat);
        let d = decimal(seq as nat);
        let a = "{\"version\":"@;
        let b = ",\"sequence\":"@;
        let c = ",\"payload\":"@;
        if i < a.len() {
        } else if i < a.len() + v.len() {
            assert(crate::text::is_digit(v[i - a.len()]));
        } else if i < a.len() + v.len() + b.len() {
        } else if i < a.len() + v.len() + b.len() + d.len() {
            assert(crate::text::is_digit(d[i - a.len() - v.len() - b.len()]));
        } else {
        }
    }
    lemma_ascii_no_newline(head);
    lemma_ascii_no_newline("}"@);
    let e = envelope_bytes(seq, msg);
    assert forall|i: int| 0 <= i < e.len() implies e[i] != 10u8 by {
        let h = ascii_bytes(head);
        if i < h.len() {
            assert(e[i] == h[i]);
        } else if i < h.len() + msg.len() {
            assert(e[i] == msg[i - h.len()]);
        } else {
            assert(e[i] == ascii_bytes("}"@)[i - h.len() - msg.len()]);
        }
    }
}

proof fn lemma_split_one_frame(env: Seq<u8>)
    requires
        !has_newline(env),
    ensures
        split_frames(env.push(10u8)) == seq![Ok::<Seq<u8>, DesktopIpcFrameError>(env)],
{
    let f = env.push(10u8);
    lemma_first_newline_at(f, env.len() as int);
    assert(f.take(env.len() as int) =~= env);
    assert(f.skip(env.len() + 1 as int) =~= Seq::<u8>::empty());
    assert(split_frames(Seq::<u8>::empty()) =~= Seq::empty());
    assert(seq![Ok::<Seq<u8>, DesktopIpcFrameError>(env)] + Seq::empty() =~= seq![
        Ok::<Seq<u8>, DesktopIpcFrameError>(env),
    ]);
}

proof fn lemma_split_frames_append(x: Seq<u8>, y: Seq<u8>)
    requires
        x.len() == 0 || x.last() == 10u8,
    ensures
        split_frames(x + y) == split_frames(x) + split_frames(y),
    decreases x.len(),
{
    if x.len() == 0 {
        assert(x + y =~= y);
        assert(split_frames(x) =~= Seq::empty());
        assert(Seq::empty() + split_frames(y) =~= split_frames(y));
    } else {
        lemma_first_newline_bound(x);
        let i = first_newline(x)->0 as int;
        assert(first_newline(x) is Some) by {
            if first_newline(x) is None {
                assert(x[x.len() - 1] != 10u8);
            }
        }
        let xy = x + y;
        assert forall|j: int| 0 <= j < i implies xy[j] != 10u8 by {
            assert(xy[j] == x[j]);
        }
        lemma_first_newline_at(xy, i);
        assert(xy.take(i) =~= x.take(i));
        assert(xy.skip(i + 1) =~= x.skip(i + 1) + y);
        let rest = x.skip(i + 1);
        assert(rest.len() == 0 || rest.last() == 10u8) by {
            if rest.len() > 0 {
                assert(rest.last() == x.last());
            }
        }
        lemma_split_frames_append(rest, y);
        assert(split_frames(xy) =~= split_frames(x) + split_frames(y));
    }
}

/// Reading what a writer sent gives back each message's envelope, in order,
/// numbered consecutively from the writer's first sequence number.
pub proof fn lemma_sent_frames_read_back(msgs: Seq<Seq<u8>>, first: u64)
    requires
        forall|i: int| 0 <= i < msgs.len() ==> !has_newline(#[trigger] msgs[i]),
        first + msgs.len() <= u64::MAX,
    ensures
        split_frames(sent_frames(msgs, first)) == sent_envelopes(msgs, first),
    decreases msgs.len(),
{
    if msgs.len() == 0 {
        assert(split_frames(Seq::<u8>::empty()) =~= Seq::empty());
        assert(sent_envelopes(msgs, first) =~= Seq::empty());
    } else {
        let init = msgs.drop_last();
        assert forall|i: int| 0 <= i < init.len() implies !has_newline(#[trigger] init[i]) by {
            assert(init[i] == msgs[i]);
        }
        lemma_sent_frames_read_back(init, first);
        let seq = (first + msgs.len() - 1) as u64;
        lemma_envelope_no_newline(seq, msgs.last());
        lemma_split_one_frame(envelope_bytes(seq, msgs.last()));
        let prev = sent_frames(init, first);
        assert(prev.len() == 0 || prev.last() == 10u8) by {
            if init.len() > 0 {
                let f = frame_bytes((first + init.len() - 1) as u64, init.last());
                assert(prev =~= sent_frames(init.drop_last(), first) + f);
                assert(prev.last() == f.last());
            }
        }
        lemma_split_frames_append(prev, frame_bytes(seq, msgs.last()));
        assert(sent_envelopes(msgs, first) =~= sent_envelopes(init, first) + seq![
            Ok::<Seq<u8>, DesktopIpcFrameError>(envelope_bytes(seq, msgs.last())),
        ]);
    }
}

} // verus!
