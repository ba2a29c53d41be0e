//! Recorded voices: writing them as WAV and drawing their shape.
use crate::store::{
    is_marked, marked, riff_mark, sniffed, wave_mark, gif87_mark, gif89_mark, jpeg_mark, png_mark,
    webp_mark,
};
use crate::protocol::AttachmentKind;
use vstd::prelude::*;

verus! {

/// The shape of a voice: its bars and its length.
///
/// It is counted from the real samples. A made-up picture would be a fraud: nobody
/// could tell from it where there is a pause and where there is speech.
#[derive(Debug, PartialEq, Eq)]
pub struct Waveform {
    /// The loudness of each bar, from 0 to 8.
    pub bars: Vec<u8>,
    /// The length in milliseconds.
    pub millis: u64,
}

#[verifier::ext_equal]
pub struct WaveformView {
    pub bars: Seq<u8>,
    pub millis: u64,
}

impl DeepView for Waveform {
    type V = WaveformView;

    open spec fn deep_view(&self) -> WaveformView {
        WaveformView { bars: self.bars@, millis: self.millis }
    }
}

impl Clone for Waveform {
    fn clone(&self) -> (r: Self)
        ensures
            r.deep_view() == self.deep_view(),
    {
        let bars = self.bars.clone();
        assert(bars@ =~= self.bars@);
        Waveform { bars, millis: self.millis }
    }
}

/// How many bars are drawn.
pub const WAVE_BARS: usize = 28;

/// The number in two bytes, the smaller first.
pub open spec fn le16(bytes: Seq<u8>, at: int) -> int {
    bytes[at] + 256 * bytes[at + 1]
}

/// The number in four bytes, the smallest first.
pub open spec fn le32(bytes: Seq<u8>, at: int) -> int {
    bytes[at] + 256 * bytes[at + 1] + 65536 * bytes[at + 2] + 16777216 * bytes[at + 3]
}

/// What the chunks of a file say about its sound.
#[derive(Clone, Copy)]
pub struct Chunks {
    pub channels: u16,
    pub rate: u32,
    pub bits: u16,
    /// Where the samples begin and end.
    pub data: Option<(usize, usize)>,
}

/// The mark of the chunk that describes the sound.
pub open spec fn fmt_mark() -> Seq<u8> {
    seq![0x66u8, 0x6du8, 0x74u8, 0x20u8]
}

/// The mark of the chunk that holds the samples.
pub open spec fn data_mark() -> Seq<u8> {
    seq![0x64u8, 0x61u8, 0x74u8, 0x61u8]
}

pub open spec fn at_least(n: int, low: int) -> int {
    if n < low {
        low
    } else {
        n
    }
}

pub open spec fn at_most(n: int, high: int) -> int {
    if n > high {
        high
    } else {
        n
    }
}

/// What is known after one more chunk.
pub open spec fn read_chunk(bytes: Seq<u8>, at: int, known: Chunks) -> Chunks {
    let size = le32(bytes, at + 4);
    let body = at + 8;
    let end = at_most(body + size, bytes.len() as int);
    if marked(bytes, at, fmt_mark()) && end - body >= 16 {
        Chunks {
            channels: at_least(le16(bytes, body + 2), 1) as u16,
            rate: at_least(le32(bytes, body + 4), 1) as u32,
            bits: le16(bytes, body + 14) as u16,
            ..known
        }
    } else if marked(bytes, at, data_mark()) {
        Chunks { data: Some((body as usize, end as usize)), ..known }
    } else {
        known
    }
}

/// Where the next chunk begins: chunks begin at even places.
pub open spec fn next_chunk(bytes: Seq<u8>, at: int) -> int {
    let size = le32(bytes, at + 4);
    at + 8 + size + size % 2
}

/// What is known after all chunks from a place on; nothing where a size is absurd.
pub open spec fn read_chunks(bytes: Seq<u8>, at: int, known: Chunks) -> Option<Chunks>
    decreases at_least(bytes.len() - at, 0),
    via chunks_go_on
{
    if at < 0 || at + 8 > bytes.len() {
        Some(known)
    } else if at + 8 + le32(bytes, at + 4) > usize::MAX {
        None
    } else {
        read_chunks(bytes, next_chunk(bytes, at), read_chunk(bytes, at, known))
    }
}

#[via_fn]
proof fn chunks_go_on(bytes: Seq<u8>, at: int, known: Chunks) {
    if at >= 0 && at + 8 <= bytes.len() {
        lemma_le32(bytes, at + 4);
    }
}

proof fn lemma_le32(bytes: Seq<u8>, at: int)
    ensures
        0 <= le32(bytes, at) <= u32::MAX,
{
    let (a, b, c, d) = (bytes[at], bytes[at + 1], bytes[at + 2], bytes[at + 3]);
    assert(0 <= a + 256 * b + 65536 * c + 16777216 * d <= u32::MAX);
}

/// What is taken for granted until the file says otherwise.
pub open spec fn usual_chunks() -> Chunks {
    Chunks { channels: 1, rate: 16_000, bits: 16, data: None }
}

/// How far a sample of two bytes is from silence.
pub open spec fn loudness(low: u8, high: u8) -> int {
    let n = low + 256 * high;
    if n < 32768 {
        n
    } else {
        65536 - n
    }
}

/// The loudest sample between two places.
pub open spec fn peak(data: Seq<u8>, from: int, to: int) -> int
    decreases to - from,
{
    if from + 2 > to {
        0
    } else {
        at_least(peak(data, from + 2, to), loudness(data[from], data[from + 1]))
    }
}

/// The loudest sample of each window, from a place on.
pub open spec fn peaks(data: Seq<u8>, from: int, to: int, step: int, count: nat) -> Seq<int>
    decreases count,
{
    if count == 0 || from >= to {
        Seq::empty()
    } else {
        seq![peak(data, from, at_most(from + step, to))] + peaks(
            data,
            from + step,
            to,
            step,
            (count - 1) as nat,
        )
    }
}

/// The highest of some numbers, but no less than one.
pub open spec fn highest(s: Seq<int>) -> int
    decreases s.len(),
{
    if s.len() == 0 {
        1
    } else {
        at_least(highest(s.drop_first()), s[0])
    }
}

/// The shape of the sound that the chunks describe.
pub open spec fn drawn(bytes: Seq<u8>, chunks: Chunks) -> Option<WaveformView> {
    match chunks.data {
        None => None,
        Some((from, to)) => {
            let len = to - from;
            if chunks.bits != 16 || len < 2 {
                None
            } else {
                let tops = peaks(
                    bytes,
                    from as int,
                    to as int,
                    2 * at_least(len / 2 / WAVE_BARS as int, 1),
                    WAVE_BARS as nat,
                );
                Some(
                    WaveformView {
                        bars: tops.map_values(
                            |top: int| at_most(top * 8 / highest(tops), 8) as u8,
                        ),
                        millis: (len / 2 / chunks.channels as int * 1000 / chunks.rate as int) as u64,
                    },
                )
            }
        },
    }
}

/// The shape of a voice. Only WAV can be read; of anything else nothing is drawn.
pub open spec fn shape(bytes: Seq<u8>) -> Option<WaveformView> {
    if bytes.len() < 44 || !marked(bytes, 0, riff_mark()) || !marked(bytes, 8, wave_mark()) {
        None
    } else {
        match read_chunks(bytes, 12, usual_chunks()) {
            None => None,
            Some(chunks) => drawn(bytes, chunks),
        }
    }
}

fn read16(bytes: &Vec<u8>, at: usize) -> (n: u16)
    requires
        at + 2 <= bytes@.len(),
    ensures
        n == le16(bytes@, at as int),
{
    let ghost len = bytes.len();
    let (low, high) = (bytes[at], bytes[at + 1]);
    low as u16 + 256 * (high as u16)
}

fn read32(bytes: &Vec<u8>, at: usize) -> (n: u32)
    requires
        at + 4 <= bytes@.len(),
    ensures
        n == le32(bytes@, at as int),
{
    let ghost len = bytes.len();
    let (a, b, c, d) = (bytes[at], bytes[at + 1], bytes[at + 2], bytes[at + 3]);
    a as u32 + 256 * (b as u32) + 65536 * (c as u32) + 16777216 * (d as u32)
}

/// The samples lie inside the file.
proof fn lemma_read_chunk(bytes: Seq<u8>, at: int, known: Chunks)
    requires
        0 <= at,
        at + 8 <= bytes.len() <= usize::MAX,
        known.data matches Some((from, to)) ==> from <= to <= bytes.len(),
        known.channels >= 1,
        known.rate >= 1,
    ensures
        ({
            let after = read_chunk(bytes, at, known);
            &&& after.data matches Some((from, to)) ==> from <= to <= bytes.len()
            &&& after.channels >= 1
            &&& after.rate >= 1
        }),
{
}

/// Reads all chunks: between the head and the samples there may be anything.
#[verifier::loop_isolation(false)]
fn find_chunks(bytes: &Vec<u8>) -> (r: Option<Chunks>)
    ensures
        r == read_chunks(bytes@, 12, usual_chunks()),
        r matches Some(chunks) ==> {
            &&& chunks.data matches Some((from, to)) ==> from <= to <= bytes@.len()
            &&& chunks.channels >= 1
            &&& chunks.rate >= 1
        },
{
    let fmt: Vec<u8> = vec![0x66, 0x6d, 0x74, 0x20];
    let data: Vec<u8> = vec![0x64, 0x61, 0x74, 0x61];
    assert(fmt@ =~= fmt_mark());
    assert(data@ =~= data_mark());
    let mut at: usize = 12;
    let mut known = Chunks { channels: 1, rate: 16_000, bits: 16, data: None };
    while at <= bytes.len() && bytes.len() - at >= 8
        invariant
            read_chunks(bytes@, 12, usual_chunks()) == read_chunks(bytes@, at as int, known),
            known.data matches Some((from, to)) ==> from <= to <= bytes@.len(),
            known.channels >= 1,
            known.rate >= 1,
        decreases at_least(bytes@.len() - at, 0),
    {
        let size: u32 = read32(bytes, at + 4);
        let body: usize = at + 8;
        if size as u64 > (usize::MAX - body) as u64 {
            return None;
        }
        let far: usize = body + size as usize;
        let end: usize = if far > bytes.len() {
            bytes.len()
        } else {
            far
        };
        proof {
            lemma_read_chunk(bytes@, at as int, known);
        }
        if is_marked(bytes, at, &fmt) && end - body >= 16 {
            let channels: u16 = read16(bytes, body + 2);
            let rate: u32 = read32(bytes, body + 4);
            known = Chunks {
                channels: if channels < 1 {
                    1
                } else {
                    channels
                },
                rate: if rate < 1 {
                    1
                } else {
                    rate
                },
                bits: read16(bytes, body + 14),
                data: known.data,
            };
        } else if is_marked(bytes, at, &data) {
            known = Chunks {
                channels: known.channels,
                rate: known.rate,
                bits: known.bits,
                data: Some((body, end)),
            };
        }
        if far == usize::MAX {
            // Nothing can follow: the next chunk would begin behind the end.
            proof {
                let next = next_chunk(bytes@, at as int);
                assert(read_chunks(bytes@, next, known) == Some(known));
            }
            return Some(known);
        }
        assert(at < far);
        at = far + (size % 2) as usize;
    }
    Some(known)
}

/// The loudest sample between two places.
#[verifier::loop_isolation(false)]
fn find_peak(bytes: &Vec<u8>, from: usize, to: usize) -> (r: u16)
    requires
        from <= to <= bytes@.len(),
    ensures
        r == peak(bytes@, from as int, to as int),
        r <= 32768,
{
    // The samples are gone through from the last to the first.
    let even: usize = (to - from) / 2;
    let mut i: usize = even;
    let mut top: u16 = 0;
    while i > 0
        invariant
            i <= even,
            even == (to - from) / 2,
            top == peak(bytes@, from + 2 * i, to as int),
            top <= 32768,
        decreases i,
    {
        i = i - 1;
        let at: usize = from + 2 * i;
        let n: u32 = bytes[at] as u32 + 256 * bytes[at + 1] as u32;
        let loud: u16 = if n < 32768 {
            n as u16
        } else {
            (65536 - n) as u16
        };
        if loud > top {
            top = loud;
        }
    }
    top
}

/// The shape of a voice.
///
/// The head is read by hand: there are two fields of interest in it. Formats other
/// than WAV give nothing, which is more honest than to draw something.
#[verifier::loop_isolation(false)]
pub fn waveform(bytes: &Vec<u8>) -> (r: Option<Waveform>)
    requires
        bytes@.len() <= u64::MAX / 500,
    ensures
        r.deep_view() == shape(bytes@),
{
    let riff: Vec<u8> = vec![0x52, 0x49, 0x46, 0x46];
    let wave: Vec<u8> = vec![0x57, 0x41, 0x56, 0x45];
    assert(riff@ =~= riff_mark());
    assert(wave@ =~= wave_mark());
    if bytes.len() < 44 || !is_marked(bytes, 0, &riff) || !is_marked(bytes, 8, &wave) {
        return None;
    }
    let chunks = match find_chunks(bytes) {
        Some(chunks) => chunks,
        None => {
            return None;
        },
    };
    let (start, end) = match chunks.data {
        Some(place) => place,
        None => {
            return None;
        },
    };
    let len: usize = end - start;
    if chunks.bits != 16 || len < 2 {
        return None;
    }
    let frames: u64 = (len / 2) as u64 / chunks.channels as u64;
    assert(frames <= len / 2) by (nonlinear_arith)
        requires
            frames == (len / 2) as u64 / chunks.channels as u64,
            chunks.channels >= 1,
    ;
    let millis: u64 = frames * 1000 / chunks.rate as u64;
    // The loudest sample of each window: it is what the eye takes for loudness.
    let per_bar: usize = if len / 2 / WAVE_BARS < 1 {
        1
    } else {
        len / 2 / WAVE_BARS
    };
    let step: usize = 2 * per_bar;
    let ghost tops = peaks(bytes@, start as int, end as int, step as int, WAVE_BARS as nat);
    let mut found: Vec<u16> = Vec::new();
    let mut from: usize = start;
    let mut loudest: u16 = 1;
    let ghost seen: Seq<int> = Seq::empty();
    let mut left: usize = WAVE_BARS;
    assert(seen + tops =~= tops);
    while left > 0 && from < end
        invariant
            left <= WAVE_BARS,
            start <= from,
            from <= end,
            found@.len() == WAVE_BARS - left || from == end,
            found@.len() <= WAVE_BARS,
            tops == found@.map_values(|n: u16| n as int) + peaks(
                bytes@,
                from as int,
                end as int,
                step as int,
                left as nat,
            ),
            forall|i: int| 0 <= i < found@.len() ==> found@[i] <= loudest && found@[i] <= 32768,
            1 <= loudest <= 32768,
            loudest == 1 || exists|i: int| 0 <= i < found@.len() && found@[i] == loudest,
        decreases left,
    {
        let to: usize = if end - from < step {
            end
        } else {
            from + step
        };
        let ghost before = found@.map_values(|n: u16| n as int);
        let top = find_peak(bytes, from, to);
        let ghost was = found@;
        found.push(top);
        if top > loudest {
            loudest = top;
            assert(found@[found@.len() - 1] == loudest);
        } else {
            proof {
                if loudest != 1 {
                    let k = choose|i: int| 0 <= i < was.len() && was[i] == loudest;
                    assert(found@[k] == loudest);
                }
            }
        }
        proof {
            let rest = peaks(bytes@, from + step, end as int, step as int, (left - 1) as nat);
            assert(found@.map_values(|n: u16| n as int) =~= before.push(top as int));
            assert(before + (seq![top as int] + rest) =~= before.push(top as int) + rest);
            if from + step >= end {
                assert(rest =~= Seq::<int>::empty());
                assert(peaks(bytes@, end as int, end as int, step as int, (left - 1) as nat)
                    =~= Seq::<int>::empty());
            }
        }
        left = left - 1;
        from = to;
    }
    proof {
        assert(peaks(bytes@, from as int, end as int, step as int, left as nat) =~= Seq::<
            int,
        >::empty());
        assert(tops =~= found@.map_values(|n: u16| n as int));
        if loudest != 1 {
            let k = choose|i: int| 0 <= i < found@.len() && found@[i] == loudest;
            assert(tops[k] == loudest);
        }
        lemma_highest(tops, loudest as int);
    }
    let mut bars: Vec<u8> = Vec::new();
    let ghost goal = tops.map_values(|top: int| at_most(top * 8 / highest(tops), 8) as u8);
    let mut i: usize = 0;
    while i < found.len()
        invariant
            i <= found@.len(),
            bars@ == goal.take(i as int),
        decreases found@.len() - i,
    {
        let bar: u32 = found[i] as u32 * 8 / loudest as u32;
        let bar: u32 = if bar > 8 {
            8
        } else {
            bar
        };
        bars.push(bar as u8);
        assert(tops[i as int] == found@[i as int]);
        i = i + 1;
        assert(bars@ =~= goal.take(i as int));
    }
    assert(bars@ =~= goal);
    Some(Waveform { bars, millis })
}

/// Only one number is the highest.
proof fn lemma_highest(s: Seq<int>, top: int)
    requires
        top >= 1,
        forall|i: int| 0 <= i < s.len() ==> s[i] <= top,
        top == 1 || exists|i: int| 0 <= i < s.len() && s[i] == top,
    ensures
        highest(s) == top,
    decreases s.len(),
{
    lemma_highest_bound(s);
    if top != 1 {
        let k = choose|i: int| 0 <= i < s.len() && s[i] == top;
        assert(s[k] <= highest(s));
    }
}

proof fn lemma_highest_bound(s: Seq<int>)
    ensures
        highest(s) >= 1,
        forall|i: int| 0 <= i < s.len() ==> s[i] <= highest(s),
        highest(s) == 1 || exists|i: int| 0 <= i < s.len() && s[i] == highest(s),
    decreases s.len(),
{
    if s.len() > 0 {
        let d = s.drop_first();
        lemma_highest_bound(d);
        assert forall|i: int| 0 <= i < s.len() implies s[i] <= highest(s) by {
            if i > 0 {
                assert(d[i - 1] == s[i]);
            }
        }
        if highest(s) != 1 && highest(s) != s[0] {
            let k = choose|i: int| 0 <= i < d.len() && d[i] == highest(d);
            assert(s[k + 1] == highest(s));
        }
    }
}

/// A number as two bytes, the smaller first; what does not fit is cut off.
pub open spec fn two_bytes(n: int) -> Seq<u8> {
    seq![(n % 256) as u8, (n / 256 % 256) as u8]
}

/// A number as four bytes, the smallest first; what does not fit is cut off.
pub open spec fn four_bytes(n: int) -> Seq<u8> {
    seq![
        (n % 256) as u8,
        (n / 256 % 256) as u8,
        (n / 65536 % 256) as u8,
        (n / 16777216 % 256) as u8,
    ]
}

/// The samples one after another.
pub open spec fn packed(samples: Seq<i16>) -> Seq<u8>
    decreases samples.len(),
{
    if samples.len() == 0 {
        Seq::empty()
    } else {
        packed(samples.drop_last()) + two_bytes(samples.last() as int)
    }
}

/// The head of a recording with one channel and sixteen bits per sample.
pub open spec fn wav_head(count: int, rate: int) -> Seq<u8> {
    riff_mark() + four_bytes(36 + 2 * count) + wave_mark() + fmt_mark() + four_bytes(16)
        + two_bytes(1) + two_bytes(1) + four_bytes(rate) + four_bytes(2 * rate) + two_bytes(2)
        + two_bytes(16) + data_mark() + four_bytes(2 * count)
}

/// A recording as a file.
pub open spec fn recorded(samples: Seq<i16>, rate: int) -> Seq<u8> {
    wav_head(samples.len() as int, rate) + packed(samples)
}

fn put16(out: &mut Vec<u8>, n: u16)
    ensures
        final(out)@ == old(out)@ + two_bytes(n as int),
{
    out.push((n % 256) as u8);
    out.push((n / 256 % 256) as u8);
    assert(out@ =~= old(out)@ + two_bytes(n as int));
}

fn put32(out: &mut Vec<u8>, n: usize)
    ensures
        final(out)@ == old(out)@ + four_bytes(n as int),
{
    out.push((n % 256) as u8);
    out.push((n / 256 % 256) as u8);
    out.push((n / 65536 % 256) as u8);
    out.push((n / 16777216 % 256) as u8);
    assert(out@ =~= old(out)@ + four_bytes(n as int));
}

fn put_mark(out: &mut Vec<u8>, a: u8, b: u8, c: u8, d: u8)
    ensures
        final(out)@ == old(out)@ + seq![a, b, c, d],
{
    out.push(a);
    out.push(b);
    out.push(c);
    out.push(d);
    assert(out@ =~= old(out)@ + seq![a, b, c, d]);
}

/// Writes the head of a recording.
fn put_head(count: usize, rate: u32) -> (out: Vec<u8>)
    requires
        36 + 2 * count <= usize::MAX,
        2 * rate <= u32::MAX,
    ensures
        out@ == wav_head(count as int, rate as int),
{
    let mut out: Vec<u8> = Vec::new();
    put_mark(&mut out, 0x52, 0x49, 0x46, 0x46);
    assert(out@ =~= riff_mark());
    put32(&mut out, 36 + 2 * count);
    put_mark(&mut out, 0x57, 0x41, 0x56, 0x45);
    put_mark(&mut out, 0x66, 0x6d, 0x74, 0x20);
    put32(&mut out, 16);
    put16(&mut out, 1);
    put16(&mut out, 1);
    put32(&mut out, rate as usize);
    put32(&mut out, 2 * rate as usize);
    put16(&mut out, 2);
    put16(&mut out, 16);
    put_mark(&mut out, 0x64, 0x61, 0x74, 0x61);
    put32(&mut out, 2 * count);
    out
}

fn put_sample(out: &mut Vec<u8>, sample: i16)
    ensures
        final(out)@ == old(out)@ + two_bytes(sample as int),
{
    if sample < 0 {
        put16(out, (65536 + sample as i32) as u16);
        assert(two_bytes(sample as int) =~= two_bytes(65536 + sample));
    } else {
        put16(out, sample as u16);
    }
}

/// Makes a WAV file of one channel out of its samples.
///
/// The head is written by hand: it has forty-four bytes.
pub fn wav(samples: &Vec<i16>, rate: u32) -> (out: Vec<u8>)
    requires
        36 + 2 * samples@.len() <= usize::MAX,
        2 * rate <= u32::MAX,
    ensures
        out@ == recorded(samples@, rate as int),
{
    let mut out = put_head(samples.len(), rate);
    let ghost head = out@;
    let mut i: usize = 0;
    assert(samples@.take(0) =~= Seq::<i16>::empty());
    assert(out@ =~= head + packed(samples@.take(0)));
    while i < samples.len()
        invariant
            i <= samples@.len(),
            out@ == head + packed(samples@.take(i as int)),
        decreases samples@.len() - i,
    {
        put_sample(&mut out, samples[i]);
        proof {
            let done = packed(samples@.take(i as int));
            let next = two_bytes(samples@[i as int] as int);
            assert(samples@.take(i + 1).drop_last() =~= samples@.take(i as int));
            assert((head + done) + next =~= head + (done + next));
        }
        i = i + 1;
    }
    assert(samples@.take(samples@.len() as int) =~= samples@);
    out
}

proof fn lemma_recorded(samples: Seq<i16>, rate: int)
    ensures
        recorded(samples, rate).len() == 44 + 2 * samples.len(),
        recorded(samples, rate).take(44) == wav_head(samples.len() as int, rate),
{
    lemma_packed_len(samples);
    assert(wav_head(samples.len() as int, rate).len() == 44);
    assert(recorded(samples, rate).take(44) =~= wav_head(samples.len() as int, rate));
}

proof fn lemma_packed_len(samples: Seq<i16>)
    ensures
        packed(samples).len() == 2 * samples.len(),
    decreases samples.len(),
{
    if samples.len() > 0 {
        lemma_packed_len(samples.drop_last());
    }
}

/// A number that fits is read back from its four bytes.
proof fn lemma_four_bytes(bytes: Seq<u8>, at: int, n: int)
    requires
        0 <= n <= u32::MAX,
        bytes.subrange(at, at + 4) == four_bytes(n),
        0 <= at,
        at + 4 <= bytes.len(),
    ensures
        le32(bytes, at) == n,
{
    let part = bytes.subrange(at, at + 4);
    assert(part[0] == bytes[at]);
    assert(part[1] == bytes[at + 1]);
    assert(part[2] == bytes[at + 2]);
    assert(part[3] == bytes[at + 3]);
}

/// What the head of a recording says.
spec fn head_says(bytes: Seq<u8>, count: int, rate: int) -> bool {
    &&& marked(bytes, 0, riff_mark())
    &&& marked(bytes, 8, wave_mark())
    &&& marked(bytes, 12, fmt_mark())
    &&& marked(bytes, 36, data_mark())
    &&& !marked(bytes, 36, fmt_mark())
    &&& le32(bytes, 16) == 16
    &&& le16(bytes, 22) == 1
    &&& le32(bytes, 24) == rate
    &&& le16(bytes, 34) == 16
    &&& le32(bytes, 40) == 2 * count
}

proof fn lemma_head(bytes: Seq<u8>, count: int, rate: int)
    requires
        0 <= count,
        36 + 2 * count <= u32::MAX,
        0 <= rate,
        2 * rate <= u32::MAX,
        bytes.len() == 44 + 2 * count,
        bytes.take(44) == wav_head(count, rate),
    ensures
        head_says(bytes, count, rate),
{
    let head = wav_head(count, rate);
    assert(head.len() == 44);
    assert forall|i: int| 0 <= i < 44 implies bytes[i] == head[i] by {
        assert(bytes.take(44)[i] == bytes[i]);
    }
    assert(bytes.subrange(0, 4) =~= riff_mark());
    assert(bytes.subrange(8, 12) =~= wave_mark());
    assert(bytes.subrange(12, 16) =~= fmt_mark());
    assert(bytes.subrange(16, 20) =~= four_bytes(16));
    assert(bytes.subrange(24, 28) =~= four_bytes(rate));
    assert(bytes.subrange(36, 40) =~= data_mark());
    assert(bytes.subrange(40, 44) =~= four_bytes(2 * count));
    lemma_four_bytes(bytes, 16, 16);
    lemma_four_bytes(bytes, 24, rate);
    lemma_four_bytes(bytes, 40, 2 * count);
    assert(data_mark()[0] != fmt_mark()[0]);
    assert(bytes.subrange(36, 40)[0] == data_mark()[0]);
}

/// What was recorded can be drawn: its length comes from the samples and the rate, and it
/// has as many bars as are drawn at most, or one for each sample where there are fewer.
pub proof fn law_recording_is_drawn(samples: Seq<i16>, rate: int)
    requires
        1 <= samples.len(),
        36 + 2 * samples.len() <= u32::MAX,
        44 + 2 * samples.len() <= usize::MAX,
        1 <= rate,
        2 * rate <= u32::MAX,
    ensures
        shape(recorded(samples, rate)) matches Some(wave) && wave.millis == samples.len() as int
            * 1000 / rate && wave.bars.len() == at_most(WAVE_BARS as int, samples.len() as int),
{
    let bytes = recorded(samples, rate);
    lemma_recorded(samples, rate);
    lemma_head(bytes, samples.len() as int, rate);
    lemma_drawn(bytes, samples.len() as int, rate);
}

/// There are as many peaks as asked for, where there is sound for the last of them.
proof fn lemma_all_peaks(data: Seq<u8>, from: int, to: int, step: int, count: nat)
    requires
        count > 0,
        step > 0,
        step * (count - 1) < to - from,
    ensures
        peaks(data, from, to, step, count).len() == count,
    decreases count,
{
    assert(step * (count - 1) == step * (count - 2) + step) by (nonlinear_arith);
    assert(step * (count - 1) >= 0) by (nonlinear_arith)
        requires
            count > 0,
            step > 0,
    ;
    if count > 1 {
        lemma_all_peaks(data, from + step, to, step, (count - 1) as nat);
    } else {
        assert(peaks(data, from + step, to, step, 0).len() == 0);
    }
}

/// Where there are few samples, there is a peak for each.
proof fn lemma_few_peaks(data: Seq<u8>, from: int, to: int, count: nat)
    requires
        from <= to <= from + 2 * count,
        (to - from) % 2 == 0,
    ensures
        peaks(data, from, to, 2, count).len() == (to - from) / 2,
    decreases count,
{
    if count > 0 && from < to {
        lemma_few_peaks(data, from + 2, to, (count - 1) as nat);
    }
}

proof fn lemma_drawn(bytes: Seq<u8>, count: int, rate: int)
    requires
        1 <= count,
        36 + 2 * count <= u32::MAX,
        44 + 2 * count <= usize::MAX,
        1 <= rate,
        2 * rate <= u32::MAX,
        bytes.len() == 44 + 2 * count,
        head_says(bytes, count, rate),
    ensures
        shape(bytes) matches Some(wave) && wave.millis == count * 1000 / rate && wave.bars.len()
            == at_most(WAVE_BARS as int, count),
{
    let one = read_chunk(bytes, 12, usual_chunks());
    assert(one == Chunks { channels: 1, rate: rate as u32, bits: 16, data: None });
    let two = read_chunk(bytes, 36, one);
    assert(two.data == Some((44usize, (44 + 2 * count) as usize)));
    assert(next_chunk(bytes, 12) == 36);
    assert(next_chunk(bytes, 36) == bytes.len());
    assert(read_chunks(bytes, bytes.len() as int, two) == Some(two));
    assert(read_chunks(bytes, 36, one) == Some(two));
    assert(read_chunks(bytes, 12, usual_chunks()) == Some(two));
    assert(0 <= count * 1000 / rate <= count * 1000) by (nonlinear_arith)
        requires
            count >= 0,
            rate >= 1,
    ;
    let (from, to) = two.data->0;
    assert(from == 44 && to == 44 + 2 * count);
    assert(to - from == 2 * count);
    assert((to - from) / 2 == count);
    assert(two.channels == 1 && two.rate == rate && two.bits == 16);
    assert((to - from) / 2 / two.channels as int == count);
    assert(drawn(bytes, two) is Some);
    assert(shape(bytes) == drawn(bytes, two));
    let step = 2 * at_least(count / WAVE_BARS as int, 1);
    if count < WAVE_BARS {
        lemma_few_peaks(bytes, from as int, to as int, WAVE_BARS as nat);
    } else {
        assert(step * 27 < to - from);
        lemma_all_peaks(bytes, from as int, to as int, step, WAVE_BARS as nat);
    }
    assert((drawn(bytes, two)->0).millis == ((to - from) / 2 / two.channels as int * 1000
        / two.rate as int) as u64);
}

/// The server takes what was recorded for a voice.
pub proof fn law_recording_is_recognized(samples: Seq<i16>, rate: int)
    requires
        36 + 2 * samples.len() <= u32::MAX,
        0 <= rate,
        2 * rate <= u32::MAX,
    ensures
        sniffed(recorded(samples, rate)) == Some(("audio/wav"@, AttachmentKind::Audio)),
{
    lemma_recorded(samples, rate);
    lemma_head(recorded(samples, rate), samples.len() as int, rate);
    lemma_recognized(recorded(samples, rate));
}

proof fn lemma_recognized(bytes: Seq<u8>)
    requires
        bytes.len() > 12,
        marked(bytes, 0, riff_mark()),
        marked(bytes, 8, wave_mark()),
    ensures
        sniffed(bytes) == Some(("audio/wav"@, AttachmentKind::Audio)),
{
    assert(bytes[0] == 0x52) by {
        assert(bytes.subrange(0, 4)[0] == riff_mark()[0]);
    }
    assert(bytes[8] == 0x57 && bytes[10] == 0x56) by {
        assert(bytes.subrange(8, 12)[0] == wave_mark()[0]);
        assert(bytes.subrange(8, 12)[2] == wave_mark()[2]);
    }
    if marked(bytes, 0, jpeg_mark()) {
        assert(bytes.subrange(0, jpeg_mark().len() as int)[0] == jpeg_mark()[0]);
    }
    if marked(bytes, 0, png_mark()) {
        assert(bytes.subrange(0, png_mark().len() as int)[0] == png_mark()[0]);
    }
    if marked(bytes, 0, gif87_mark()) {
        assert(bytes.subrange(0, gif87_mark().len() as int)[0] == gif87_mark()[0]);
    }
    if marked(bytes, 0, gif89_mark()) {
        assert(bytes.subrange(0, gif89_mark().len() as int)[0] == gif89_mark()[0]);
    }
    if marked(bytes, 8, webp_mark()) {
        assert(bytes.subrange(8, 8 + webp_mark().len() as int)[2] == webp_mark()[2]);
    }
}

pub proof fn lemma_peaks(data: Seq<u8>, from: int, to: int, step: int, count: nat)
    ensures
        peaks(data, from, to, step, count).len() <= count,
        count > 0 && from < to ==> peaks(data, from, to, step, count).len() > 0,
        forall|i: int|
            0 <= i < peaks(data, from, to, step, count).len() ==> 0 <= #[trigger] peaks(
                data,
                from,
                to,
                step,
                count,
            )[i],
    decreases count,
{
    if count > 0 && from < to {
        lemma_peaks(data, from + step, to, step, (count - 1) as nat);
        lemma_peak_not_negative(data, from, at_most(from + step, to));
    }
}

proof fn lemma_peak_not_negative(data: Seq<u8>, from: int, to: int)
    ensures
        0 <= peak(data, from, to),
    decreases to - from,
{
    if from + 2 <= to {
        lemma_peak_not_negative(data, from + 2, to);
    }
}

/// A drawing has some bars, no bar is taller than eight, and the loudest place is
/// drawn to the full: a quiet voice is seen as well as a loud one.
pub proof fn law_loudest_is_full(bytes: Seq<u8>)
    ensures
        shape(bytes) matches Some(wave) ==> {
            &&& 1 <= wave.bars.len() <= WAVE_BARS
            &&& forall|i: int| 0 <= i < wave.bars.len() ==> wave.bars[i] <= 8
            &&& (exists|i: int| 0 <= i < wave.bars.len() && wave.bars[i] == 8) || (forall|i: int|
                0 <= i < wave.bars.len() ==> wave.bars[i] == 0)
        },
{
    if let Some(wave) = shape(bytes) {
        let chunks = read_chunks(bytes, 12, usual_chunks())->0;
        let (from, to) = chunks.data->0;
        let len = to - from;
        let step = 2 * at_least(len / 2 / WAVE_BARS as int, 1);
        let tops = peaks(bytes, from as int, to as int, step, WAVE_BARS as nat);
        let top = highest(tops);
        lemma_peaks(bytes, from as int, to as int, step, WAVE_BARS as nat);
        lemma_highest_bound(tops);
        assert forall|i: int| 0 <= i < wave.bars.len() implies wave.bars[i] == tops[i] * 8 / top
            && 0 <= tops[i] * 8 / top <= 8 by {
            assert(0 <= tops[i] * 8 / top <= 8) by (nonlinear_arith)
                requires
                    0 <= tops[i] <= top,
                    top >= 1,
            ;
        }
        if exists|i: int| 0 <= i < tops.len() && tops[i] == top {
            let k = choose|i: int| 0 <= i < tops.len() && tops[i] == top;
            assert(top * 8 / top == 8) by (nonlinear_arith)
                requires
                    top >= 1,
            ;
            assert(wave.bars[k] == 8);
        } else {
            assert forall|i: int| 0 <= i < wave.bars.len() implies wave.bars[i] == 0 by {
                assert(tops[i] == 0);
                assert(0int * 8 / top == 0) by (nonlinear_arith)
                    requires
                        top >= 1,
                ;
            }
        }
    }
}

} // verus!
