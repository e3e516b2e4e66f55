//! The framing rules every peer shares: the 12-byte timestamped heartbeat
//! ping, chunking of large frames into continuations, reassembly of inbound
//! continuations, and the heartbeat timeout discipline.

use vstd::prelude::*;

verus! {

/// Peers ping each other this often, in milliseconds.
pub const HEARTBEAT_INTERVAL_MS: u64 = 5000;

/// A peer with no inbound activity for this long is dropped, in
/// milliseconds.
pub const CLIENT_TIMEOUT_MS: u64 = 10000;

/// An outbound frame larger than this many bytes is chunked into
/// continuations.
pub const MAX_FRAME_BYTES: usize = 65536;

// ---------------------------------------------------------------------------
// Timestamped pings
// ---------------------------------------------------------------------------
/// The value of a big-endian byte string.
pub open spec fn spec_be_val(s: Seq<u8>) -> int
    decreases s.len(),
{
    if s.len() == 0 {
        0
    } else {
        spec_be_val(s.drop_last()) * 256 + s.last()
    }
}

proof fn lemma_be_val_push(s: Seq<u8>, b: u8)
    ensures
        spec_be_val(s.push(b)) == spec_be_val(s) * 256 + b,
{
    assert(s.push(b).drop_last() =~= s);
    assert(s.push(b).last() == b);
}

/// 256 to the `n`.
pub open spec fn pow256(n: nat) -> int
    decreases n,
{
    if n == 0 {
        1
    } else {
        256 * pow256((n - 1) as nat)
    }
}

proof fn lemma_pow256_values()
    ensures
        pow256(0) == 1,
        pow256(1) == 0x100,
        pow256(2) == 0x1_0000,
        pow256(3) == 0x100_0000,
        pow256(4) == 0x1_0000_0000,
        pow256(5) == 0x100_0000_0000,
        pow256(6) == 0x1_0000_0000_0000,
        pow256(7) == 0x100_0000_0000_0000,
        pow256(8) == 0x1_0000_0000_0000_0000,
{
    assert(pow256(0) == 1);
    assert(pow256(1) == 0x100);
    assert(pow256(2) == 0x1_0000);
    assert(pow256(3) == 0x100_0000);
    assert(pow256(4) == 0x1_0000_0000);
    assert(pow256(5) == 0x100_0000_0000);
    assert(pow256(6) == 0x1_0000_0000_0000);
    assert(pow256(7) == 0x100_0000_0000_0000);
    assert(pow256(8) == 0x1_0000_0000_0000_0000);
}

proof fn lemma_be_val_bound(s: Seq<u8>)
    ensures
        0 <= spec_be_val(s) < pow256(s.len()),
    decreases s.len(),
{
    if s.len() > 0 {
        lemma_be_val_bound(s.drop_last());
    }
}

fn be_byte_64(v: u64, shift: u64) -> (r: u8)
    requires
        shift <= 56,
    ensures
        r == (v >> shift) % 256,
{
    let b = (v >> shift) & 0xff;
    proof {
        assert((v >> shift) & 0xff == (v >> shift) % 256) by (bit_vector);
        assert((v >> shift) & 0xff < 256) by (bit_vector);
    }
    b as u8
}

fn be_byte_32(v: u32, shift: u32) -> (r: u8)
    requires
        shift <= 24,
    ensures
        r == (v >> shift) % 256,
{
    let b = (v >> shift) & 0xff;
    proof {
        assert((v >> shift) & 0xff == (v >> shift) % 256) by (bit_vector);
        assert((v >> shift) & 0xff < 256) by (bit_vector);
    }
    b as u8
}

/// Build the 12-byte heartbeat ping payload: the elapsed time since the
/// session's origin, seconds as a big-endian u64 then nanoseconds as a
/// big-endian u32.
pub fn send_ts_ping(secs: u64, nanos: u32) -> (r: Vec<u8>)
    ensures
        r@.len() == 12,
        spec_be_val(r@.subrange(0, 8)) == secs,
        spec_be_val(r@.subrange(8, 12)) == nanos,
{
    let mut r: Vec<u8> = Vec::new();
    r.push(be_byte_64(secs, 56));
    r.push(be_byte_64(secs, 48));
    r.push(be_byte_64(secs, 40));
    r.push(be_byte_64(secs, 32));
    r.push(be_byte_64(secs, 24));
    r.push(be_byte_64(secs, 16));
    r.push(be_byte_64(secs, 8));
    r.push(be_byte_64(secs, 0));
    proof {
        let p = r@;
        assert(spec_be_val(p) == secs) by {
            assert(p.len() == 8);
            assert(p[0] == (secs >> 56) % 256);
            assert(p[1] == (secs >> 48) % 256);
            assert(p[2] == (secs >> 40) % 256);
            assert(p[3] == (secs >> 32) % 256);
            assert(p[4] == (secs >> 24) % 256);
            assert(p[5] == (secs >> 16) % 256);
            assert(p[6] == (secs >> 8) % 256);
            assert(p[7] == (secs >> 0) % 256);
            assert(spec_be_val(p) == ((((((((secs >> 56) % 256) * 256 + (secs >> 48) % 256) * 256
                + (secs >> 40) % 256) * 256 + (secs >> 32) % 256) * 256 + (secs >> 24) % 256) * 256
                + (secs >> 16) % 256) * 256 + (secs >> 8) % 256) * 256 + (secs >> 0) % 256) by {
                reveal_with_fuel(spec_be_val, 9);
                assert(p.drop_last() =~= p.subrange(0, 7));
                assert(p.subrange(0, 7).drop_last() =~= p.subrange(0, 6));
                assert(p.subrange(0, 6).drop_last() =~= p.subrange(0, 5));
                assert(p.subrange(0, 5).drop_last() =~= p.subrange(0, 4));
                assert(p.subrange(0, 4).drop_last() =~= p.subrange(0, 3));
                assert(p.subrange(0, 3).drop_last() =~= p.subrange(0, 2));
                assert(p.subrange(0, 2).drop_last() =~= p.subrange(0, 1));
                assert(p.subrange(0, 1).drop_last() =~= Seq::<u8>::empty());
                assert(p.subrange(0, 1).last() == p[0]);
                assert(p.subrange(0, 2).last() == p[1]);
                assert(p.subrange(0, 3).last() == p[2]);
                assert(p.subrange(0, 4).last() == p[3]);
                assert(p.subrange(0, 5).last() == p[4]);
                assert(p.subrange(0, 6).last() == p[5]);
                assert(p.subrange(0, 7).last() == p[6]);
                assert(p.last() == p[7]);
            }
            assert(((((((((secs >> 56) % 256) * 256 + (secs >> 48) % 256) * 256 + (secs >> 40)
                % 256) * 256 + (secs >> 32) % 256) * 256 + (secs >> 24) % 256) * 256 + (secs >> 16)
                % 256) * 256 + (secs >> 8) % 256) * 256 + (secs >> 0) % 256 == secs)
                by (bit_vector);
        }
    }
    let ghost secs_part = r@;
    r.push(be_byte_32(nanos, 24));
    r.push(be_byte_32(nanos, 16));
    r.push(be_byte_32(nanos, 8));
    r.push(be_byte_32(nanos, 0));
    proof {
        let q = r@.subrange(8, 12);
        assert(q.len() == 4);
        assert(q[0] == (nanos >> 24) % 256);
        assert(q[1] == (nanos >> 16) % 256);
        assert(q[2] == (nanos >> 8) % 256);
        assert(q[3] == (nanos >> 0) % 256);
        assert(spec_be_val(q) == (((((nanos >> 24) % 256) * 256 + (nanos >> 16) % 256) * 256 + (
        nanos >> 8) % 256) * 256 + (nanos >> 0) % 256)) by {
            reveal_with_fuel(spec_be_val, 5);
            assert(q.drop_last() =~= q.subrange(0, 3));
            assert(q.subrange(0, 3).drop_last() =~= q.subrange(0, 2));
            assert(q.subrange(0, 2).drop_last() =~= q.subrange(0, 1));
            assert(q.subrange(0, 1).drop_last() =~= Seq::<u8>::empty());
            assert(q.subrange(0, 1).last() == q[0]);
            assert(q.subrange(0, 2).last() == q[1]);
            assert(q.subrange(0, 3).last() == q[2]);
            assert(q.last() == q[3]);
        }
        assert((((((nanos >> 24) % 256) * 256 + (nanos >> 16) % 256) * 256 + (nanos >> 8) % 256)
            * 256 + (nanos >> 0) % 256) == nanos) by (bit_vector);
        assert(r@.subrange(0, 8) =~= secs_part);
    }
    r
}

/// Read a 12-byte heartbeat payload back into seconds and nanoseconds.
/// Payloads of any other length carry no timestamp.
pub fn parse_ts_ping(bytes: &Vec<u8>) -> (r: Option<(u64, u32)>)
    ensures
        r is Some <==> bytes@.len() == 12,
        r is Some ==> (r->0).0 == spec_be_val(bytes@.subrange(0, 8)) && (r->0).1 == spec_be_val(
            bytes@.subrange(8, 12),
        ),
{
    if bytes.len() != 12 {
        return None;
    }
    let mut secs: u64 = 0;
    let mut i: usize = 0;
    while i < 8
        invariant
            i <= 8,
            bytes@.len() == 12,
            secs == spec_be_val(bytes@.subrange(0, i as int)),
            secs < 0x1_0000_0000_0000_0000,
        decreases 8 - i,
    {
        proof {
            assert(bytes@.subrange(0, i + 1) =~= bytes@.subrange(0, i as int).push(
                bytes@[i as int],
            ));
            lemma_be_val_push(bytes@.subrange(0, i as int), bytes@[i as int]);
            assert(spec_be_val(bytes@.subrange(0, i as int)) < 0x100_0000_0000_0000) by {
                lemma_be_val_bound(bytes@.subrange(0, i as int));
                lemma_pow256_values();
                lemma_pow256_monotone(bytes@.subrange(0, i as int).len(), 7);
            }
        }
        secs = secs * 256 + (bytes[i] as u64);
        i += 1;
    }
    let mut nanos: u32 = 0;
    let mut j: usize = 8;
    while j < 12
        invariant
            8 <= j <= 12,
            bytes@.len() == 12,
            nanos == spec_be_val(bytes@.subrange(8, j as int)),
            nanos < 0x1_0000_0000,
        decreases 12 - j,
    {
        proof {
            assert(bytes@.subrange(8, j + 1) =~= bytes@.subrange(8, j as int).push(
                bytes@[j as int],
            ));
            lemma_be_val_push(bytes@.subrange(8, j as int), bytes@[j as int]);
            assert(spec_be_val(bytes@.subrange(8, j as int)) < 0x100_0000) by {
                lemma_be_val_bound(bytes@.subrange(8, j as int));
                lemma_pow256_values();
                lemma_pow256_monotone(bytes@.subrange(8, j as int).len(), 3);
            }
        }
        nanos = nanos * 256 + (bytes[j] as u32);
        j += 1;
    }
    Some((secs, nanos))
}

proof fn lemma_pow256_monotone(a: nat, b: nat)
    requires
        a <= b,
    ensures
        pow256(a) <= pow256(b),
    decreases b,
{
    if a < b {
        lemma_pow256_monotone(a, (b - 1) as nat);
        assert(pow256((b - 1) as nat) >= 1) by {
            lemma_pow256_positive((b - 1) as nat);
        }
    }
}

proof fn lemma_pow256_positive(n: nat)
    ensures
        pow256(n) >= 1,
    decreases n,
{
    if n > 0 {
        lemma_pow256_positive((n - 1) as nat);
    }
}

/// A heartbeat payload decodes to exactly the elapsed time it was built
/// from: a payload that encodes `(secs, nanos)` and also decodes to
/// `(s2, n2)` carries the same values.
pub proof fn lemma_ts_ping_round_trip(sent: Seq<u8>, secs: u64, nanos: u32, s2: u64, n2: u32)
    requires
        sent.len() == 12,
        spec_be_val(sent.subrange(0, 8)) == secs,
        spec_be_val(sent.subrange(8, 12)) == nanos,
        spec_be_val(sent.subrange(0, 8)) == s2,
        spec_be_val(sent.subrange(8, 12)) == n2,
    ensures
        s2 == secs,
        n2 == nanos,
{
}

// ---------------------------------------------------------------------------
// Chunking and reassembly
// ---------------------------------------------------------------------------
/// One outbound websocket frame carrying application bytes.
#[derive(Clone, Debug, PartialEq, Eq)]
pub enum OutFrame {
    /// A payload small enough for a single binary frame.
    Single(Vec<u8>),
    /// The first chunk of a continued payload.
    First(Vec<u8>),
    /// A middle chunk of a continued payload.
    Middle(Vec<u8>),
    /// The last chunk of a continued payload.
    Last(Vec<u8>),
}

impl OutFrame {
    /// The bytes this frame carries.
    pub open spec fn payload(&self) -> Seq<u8> {
        match self {
            OutFrame::Single(b) => b@,
            OutFrame::First(b) => b@,
            OutFrame::Middle(b) => b@,
            OutFrame::Last(b) => b@,
        }
    }
}

/// The concatenation of the payloads of a frame sequence.
pub open spec fn frames_payload(frames: Seq<OutFrame>) -> Seq<u8>
    decreases frames.len(),
{
    if frames.len() == 0 {
        Seq::empty()
    } else {
        frames_payload(frames.drop_last()) + frames.last().payload()
    }
}

/// Frames of a well-chunked message: one `Single`, or `First`, zero or more
/// `Middle`, then `Last`.
pub open spec fn well_chunked(frames: Seq<OutFrame>) -> bool {
    if frames.len() == 1 {
        frames[0] is Single || (frames[0] is First && frames[0] is Last)
    } else {
        &&& frames.len() >= 2
        &&& frames[0] is First
        &&& frames.last() is Last
        &&& forall|i: int| 0 < i < frames.len() - 1 ==> frames[i] is Middle
    }
}

/// Split an outbound payload into websocket frames: one binary frame when
/// it fits, else continuation chunks of at most `MAX_FRAME_BYTES` bytes.
pub fn chunk_frames(payload: Vec<u8>) -> (r: Vec<OutFrame>)
    ensures
        frames_payload(r@) == payload@,
        well_chunked(r@),
        forall|i: int| 0 <= i < r@.len() ==> #[trigger] r@[i].payload().len() <= MAX_FRAME_BYTES,
        payload@.len() <= MAX_FRAME_BYTES ==> r@.len() == 1 && r@[0] is Single,
{
    let n = payload.len();
    if n <= MAX_FRAME_BYTES {
        let mut r: Vec<OutFrame> = Vec::new();
        let ghost p = payload@;
        let frame = OutFrame::Single(payload);
        let ghost fv = frame;
        r.push(frame);
        proof {
            assert(r@.drop_last() =~= Seq::<OutFrame>::empty());
            assert(r@.last() == fv);
            assert(fv.payload() == p);
            assert(frames_payload(Seq::<OutFrame>::empty()) =~= Seq::<u8>::empty());
            assert(frames_payload(r@) == frames_payload(r@.drop_last()) + r@.last().payload());
            assert(frames_payload(r@) =~= p);
        }
        return r;
    }
    let mut r: Vec<OutFrame> = Vec::new();
    let mut at: usize = 0;
    while n - at > MAX_FRAME_BYTES
        invariant
            at <= n,
            n == payload@.len(),
            n > MAX_FRAME_BYTES,
            at % MAX_FRAME_BYTES == 0,
            frames_payload(r@) =~= payload@.take(at as int),
            r@.len() == at / MAX_FRAME_BYTES,
            at > 0 ==> r@[0] is First,
            forall|i: int| 0 < i < r@.len() ==> r@[i] is Middle,
            forall|i: int|
                0 <= i < r@.len() ==> #[trigger] r@[i].payload().len() <= MAX_FRAME_BYTES,
        decreases n - at,
    {
        let mut chunk: Vec<u8> = Vec::new();
        let mut t: usize = at;
        while t < at + MAX_FRAME_BYTES
            invariant
                at <= t <= at + MAX_FRAME_BYTES,
                at + MAX_FRAME_BYTES < n,
                n == payload@.len(),
                chunk@ =~= payload@.subrange(at as int, t as int),
            decreases at + MAX_FRAME_BYTES - t,
        {
            chunk.push(payload[t]);
            proof {
                assert(chunk@ =~= payload@.subrange(at as int, t + 1));
            }
            t += 1;
        }
        let ghost old_frames = r@;
        let ghost chunk_view = chunk@;
        if at == 0 {
            r.push(OutFrame::First(chunk));
        } else {
            r.push(OutFrame::Middle(chunk));
        }
        proof {
            assert(r@.drop_last() =~= old_frames);
            assert(r@.last().payload() == chunk_view);
            assert(frames_payload(r@) =~= payload@.take(at + MAX_FRAME_BYTES));
        }
        at += MAX_FRAME_BYTES;
    }
    // the final chunk
    let mut chunk: Vec<u8> = Vec::new();
    let mut t: usize = at;
    while t < n
        invariant
            at <= t <= n,
            n == payload@.len(),
            chunk@ =~= payload@.subrange(at as int, t as int),
        decreases n - t,
    {
        chunk.push(payload[t]);
        proof {
            assert(chunk@ =~= payload@.subrange(at as int, t + 1));
        }
        t += 1;
    }
    let ghost old_frames = r@;
    let ghost chunk_view = chunk@;
    r.push(OutFrame::Last(chunk));
    proof {
        assert(r@.drop_last() =~= old_frames);
        assert(r@.last().payload() == chunk_view);
        assert(frames_payload(r@) =~= payload@.take(payload@.len() as int));
        assert(payload@.take(payload@.len() as int) =~= payload@);
    }
    r
}

/// One inbound continuation item, as the websocket layer hands it over.
#[derive(Clone, Debug, PartialEq, Eq)]
pub enum ContItem {
    /// An unexpected text continuation; a protocol violation.
    FirstText(Vec<u8>),
    /// The first chunk of a continued binary payload.
    FirstBinary(Vec<u8>),
    /// A middle chunk.
    Continue(Vec<u8>),
    /// The last chunk; the whole payload is delivered.
    Last(Vec<u8>),
}

/// The buffer a session accumulates continuation chunks in.
#[derive(Clone, Debug, PartialEq, Eq)]
pub struct ContinuationBuffer {
    buf: Vec<u8>,
}

impl View for ContinuationBuffer {
    type V = Seq<u8>;

    closed spec fn view(&self) -> Seq<u8> {
        self.buf@
    }
}

/// What one continuation item does to the buffer, and what it delivers: a
/// text continuation is dropped, chunks accumulate, and the last chunk
/// delivers the whole payload and clears the buffer.
pub open spec fn spec_cont_step(buf: Seq<u8>, item: ContItem) -> (Seq<u8>, Option<Seq<u8>>) {
    match item {
        ContItem::FirstText(_) => (buf, None),
        ContItem::FirstBinary(b) => (buf + b@, None),
        ContItem::Continue(b) => (buf + b@, None),
        ContItem::Last(b) => (Seq::empty(), Some(buf + b@)),
    }
}

impl ContinuationBuffer {
    /// A fresh, empty buffer.
    pub fn new() -> (r: ContinuationBuffer)
        ensures
            r@ == Seq::<u8>::empty(),
    {
        ContinuationBuffer { buf: Vec::new() }
    }

    /// Feed one continuation item; a delivered payload is returned whole.
    pub fn handle(&mut self, item: ContItem) -> (r: Option<Vec<u8>>)
        ensures
            final(self)@ == spec_cont_step(old(self)@, item).0,
            match spec_cont_step(old(self)@, item).1 {
                None => r is None,
                Some(p) => r is Some && r->0@ == p,
            },
    {
        match item {
            ContItem::FirstText(_) => None,
            ContItem::FirstBinary(b) => {
                append_bytes(&mut self.buf, &b);
                None
            },
            ContItem::Continue(b) => {
                append_bytes(&mut self.buf, &b);
                None
            },
            ContItem::Last(b) => {
                let mut whole: Vec<u8> = Vec::new();
                append_bytes(&mut whole, &self.buf);
                append_bytes(&mut whole, &b);
                self.buf.clear();
                Some(whole)
            },
        }
    }
}

/// Append the bytes of `src` to `dst`.
fn append_bytes(dst: &mut Vec<u8>, src: &Vec<u8>)
    ensures
        final(dst)@ == old(dst)@ + src@,
{
    let mut i: usize = 0;
    while i < src.len()
        invariant
            i <= src@.len(),
            dst@ =~= old(dst)@ + src@.take(i as int),
        decreases src@.len() - i,
    {
        dst.push(src[i]);
        proof {
            assert(dst@ =~= old(dst)@ + src@.take(i + 1));
        }
        i += 1;
    }
    proof {
        assert(dst@ =~= old(dst)@ + src@);
    }
}

/// The buffer contents and delivery after feeding a sequence of items.
pub open spec fn spec_cont_run(buf: Seq<u8>, items: Seq<ContItem>) -> (Seq<u8>, Option<Seq<u8>>)
    decreases items.len(),
{
    if items.len() == 0 {
        (buf, None)
    } else {
        let first = spec_cont_step(buf, items[0]);
        if items.len() == 1 {
            first
        } else {
            spec_cont_run(first.0, items.drop_first())
        }
    }
}

/// The view of a sequence of outbound frames as inbound continuation items.
pub open spec fn as_cont_items(frames: Seq<OutFrame>) -> Seq<ContItem> {
    frames.map_values(
        |f: OutFrame|
            match f {
                OutFrame::Single(b) => ContItem::Last(b),
                OutFrame::First(b) => ContItem::FirstBinary(b),
                OutFrame::Middle(b) => ContItem::Continue(b),
                OutFrame::Last(b) => ContItem::Last(b),
            },
    )
}

proof fn lemma_cont_run_accumulates(buf: Seq<u8>, items: Seq<ContItem>)
    requires
        forall|i: int|
            0 <= i < items.len() ==> (items[i] is FirstBinary || items[i] is Continue),
    ensures
        spec_cont_run(buf, items).0 == buf + spec_items_bytes(items),
        spec_cont_run(buf, items).1 is None,
    decreases items.len(),
{
    if items.len() == 0 {
        assert(spec_items_bytes(items) =~= Seq::<u8>::empty());
        assert(buf + spec_items_bytes(items) =~= buf);
    } else {
        let first = spec_cont_step(buf, items[0]);
        assert(first.0 =~= buf + item_bytes(items[0]));
        if items.len() == 1 {
            assert(spec_items_bytes(items.drop_first()) =~= Seq::<u8>::empty());
            assert(buf + item_bytes(items[0]) =~= buf + spec_items_bytes(items));
        } else {
            lemma_cont_run_accumulates(first.0, items.drop_first());
            assert(buf + item_bytes(items[0]) + spec_items_bytes(items.drop_first()) =~= buf + (
            item_bytes(items[0]) + spec_items_bytes(items.drop_first())));
            assert(spec_items_bytes(items) == item_bytes(items[0]) + spec_items_bytes(
                items.drop_first(),
            ));
        }
    }
}

/// The bytes one continuation item carries.
pub open spec fn item_bytes(item: ContItem) -> Seq<u8> {
    match item {
        ContItem::FirstText(b) => b@,
        ContItem::FirstBinary(b) => b@,
        ContItem::Continue(b) => b@,
        ContItem::Last(b) => b@,
    }
}

/// The concatenation of the bytes of a sequence of items.
pub open spec fn spec_items_bytes(items: Seq<ContItem>) -> Seq<u8>
    decreases items.len(),
{
    if items.len() == 0 {
        Seq::empty()
    } else {
        item_bytes(items[0]) + spec_items_bytes(items.drop_first())
    }
}

/// Chunked frames reassemble to what was sent: feeding the frames of a
/// well-chunked message into an empty continuation buffer delivers exactly
/// the original payload on the last frame, and leaves the buffer empty.
pub proof fn lemma_chunks_reassemble(frames: Seq<OutFrame>)
    requires
        well_chunked(frames),
    ensures
        spec_cont_run(Seq::empty(), as_cont_items(frames)).1 == Some(frames_payload(frames)),
        spec_cont_run(Seq::empty(), as_cont_items(frames)).0 == Seq::<u8>::empty(),
{
    let items = as_cont_items(frames);
    let middles = items.drop_last();
    assert(forall|i: int|
        0 <= i < middles.len() ==> (middles[i] is FirstBinary || middles[i] is Continue));
    lemma_cont_run_split(Seq::empty(), items);
    lemma_cont_run_accumulates(Seq::empty(), middles);
    assert(Seq::<u8>::empty() + spec_items_bytes(middles) =~= spec_items_bytes(middles));
    lemma_frames_payload_items(frames);
    assert(spec_items_bytes(middles) + item_bytes(items.last()) =~= frames_payload(frames));
}

proof fn lemma_cont_run_split(buf: Seq<u8>, items: Seq<ContItem>)
    requires
        items.len() >= 1,
        items.last() is Last,
        forall|i: int|
            0 <= i < items.len() - 1 ==> (items[i] is FirstBinary || items[i] is Continue),
    ensures
        spec_cont_run(buf, items).1 == Some(
            spec_cont_run(buf, items.drop_last()).0 + item_bytes(items.last()),
        ),
        spec_cont_run(buf, items).0 == Seq::<u8>::empty(),
    decreases items.len(),
{
    if items.len() == 1 {
        assert(items.drop_last().len() == 0);
    } else {
        let first = spec_cont_step(buf, items[0]);
        lemma_cont_run_split(first.0, items.drop_first());
        assert(items.drop_first().drop_last() =~= items.drop_last().drop_first());
        assert(items.drop_first().last() == items.last());
        assert(spec_cont_run(buf, items.drop_last()).0 == spec_cont_run(
            first.0,
            items.drop_last().drop_first(),
        ).0) by {
            assert(items.drop_last()[0] == items[0]);
            assert(spec_cont_step(buf, items.drop_last()[0]) == first);
        }
    }
}

proof fn lemma_frames_payload_items(frames: Seq<OutFrame>)
    ensures
        frames.len() >= 1 ==> frames_payload(frames) == spec_items_bytes(
            as_cont_items(frames).drop_last(),
        ) + item_bytes(as_cont_items(frames).last()),
    decreases frames.len(),
{
    if frames.len() >= 1 {
        lemma_items_bytes_frames(frames.drop_last());
        assert(as_cont_items(frames).drop_last() =~= as_cont_items(frames.drop_last()));
        assert(as_cont_items(frames).last() == as_cont_items(frames)[frames.len() - 1]);
        assert(item_bytes(as_cont_items(frames).last()) == frames.last().payload());
    }
}

proof fn lemma_items_bytes_frames(frames: Seq<OutFrame>)
    ensures
        spec_items_bytes(as_cont_items(frames)) == frames_payload(frames),
    decreases frames.len(),
{
    if frames.len() == 0 {
    } else {
        lemma_items_bytes_frames(frames.drop_last());
        assert(as_cont_items(frames).drop_first() =~= as_cont_items(frames.drop_first()));
        lemma_items_bytes_snoc(as_cont_items(frames.drop_last()), as_cont_items(frames).last());
        assert(as_cont_items(frames.drop_last()).push(as_cont_items(frames).last())
            =~= as_cont_items(frames));
        assert(item_bytes(as_cont_items(frames).last()) == frames.last().payload());
    }
}

proof fn lemma_items_bytes_snoc(items: Seq<ContItem>, last: ContItem)
    ensures
        spec_items_bytes(items.push(last)) == spec_items_bytes(items) + item_bytes(last),
    decreases items.len(),
{
    if items.len() == 0 {
        assert(items.push(last)[0] == last);
        assert(items.push(last).drop_first() =~= Seq::<ContItem>::empty());
        assert(spec_items_bytes(Seq::<ContItem>::empty()) =~= Seq::<u8>::empty());
        assert(spec_items_bytes(items.push(last)) == item_bytes(last) + spec_items_bytes(
            Seq::<ContItem>::empty(),
        ));
        assert(spec_items_bytes(items) + item_bytes(last) =~= item_bytes(last));
        assert(item_bytes(last) + Seq::<u8>::empty() =~= item_bytes(last));
    } else {
        lemma_items_bytes_snoc(items.drop_first(), last);
        assert(items.push(last)[0] == items[0]);
        assert(items.push(last).drop_first() =~= items.drop_first().push(last));
        assert(item_bytes(items[0]) + (spec_items_bytes(items.drop_first()) + item_bytes(last))
            =~= (item_bytes(items[0]) + spec_items_bytes(items.drop_first())) + item_bytes(last));
    }
}

// ---------------------------------------------------------------------------
// Heartbeat discipline
// ---------------------------------------------------------------------------
/// A session's heartbeat clock: when the connection began and when the last
/// inbound activity arrived, in milliseconds of some monotonic clock.
#[derive(Clone, Copy, Debug, PartialEq, Eq)]
pub struct Heartbeat {
    /// When the connection began.
    pub origin_ms: u64,
    /// When the last inbound activity arrived.
    pub hb_ms: u64,
}

/// Has the peer been silent for longer than the timeout?
pub open spec fn spec_timed_out(hb_ms: u64, now_ms: u64) -> bool {
    now_ms > hb_ms + CLIENT_TIMEOUT_MS
}

impl Heartbeat {
    /// A fresh clock for a connection that just opened.
    pub fn new(now_ms: u64) -> (r: Heartbeat)
        ensures
            r.origin_ms == now_ms,
            r.hb_ms == now_ms,
    {
        Heartbeat { origin_ms: now_ms, hb_ms: now_ms }
    }

    /// Record inbound activity.
    pub fn on_activity(&mut self, now_ms: u64)
        ensures
            final(self).hb_ms == now_ms,
            final(self).origin_ms == old(self).origin_ms,
    {
        self.hb_ms = now_ms;
    }

    /// Decide, at a heartbeat check, whether the peer has timed out.
    pub fn timed_out(&self, now_ms: u64) -> (r: bool)
        ensures
            r == spec_timed_out(self.hb_ms, now_ms),
    {
        now_ms > self.hb_ms && now_ms - self.hb_ms > CLIENT_TIMEOUT_MS
    }

    /// The elapsed time since the connection began, for the ping payload.
    pub fn elapsed_ms(&self, now_ms: u64) -> (r: u64)
        requires
            now_ms >= self.origin_ms,
        ensures
            r == now_ms - self.origin_ms,
    {
        now_ms - self.origin_ms
    }
}

/// The heartbeat discipline: a session whose peer stays silent past the
/// timeout is seen as dead by every later check, and a session whose peer
/// was heard within the timeout is kept.
pub proof fn lemma_heartbeat_discipline(hb_ms: u64, now_ms: u64)
    ensures
        now_ms <= hb_ms + CLIENT_TIMEOUT_MS ==> !spec_timed_out(hb_ms, now_ms),
        now_ms > hb_ms + CLIENT_TIMEOUT_MS ==> spec_timed_out(hb_ms, now_ms),
        forall|later: u64| spec_timed_out(hb_ms, now_ms) && later >= now_ms ==> spec_timed_out(
            hb_ms,
            later,
        ),
{
}

} // verus!
