use vstd::prelude::*;

verus! {

/// The sample width, in bits, of every stream: signed 16-bit mono samples.
pub const BIT_SIZE: u16 = 16;

/// The sample rate of a new stream, in samples per second.
pub const SAMPLE_RATE: u32 = 44100;

/// The size of the header that comes before the samples.
pub const HEADER_SIZE: u32 = 44;

/// The largest payload whose file size, header included, still fits 32 bits.
pub const MAX_DATA_SIZE: u32 = 0xffff_ffff - 44;

/// What a stream holds: its format and the samples of each segment, in order.
pub struct WavModel {
    pub data_size: nat,
    pub bit_size: nat,
    pub sample_rate: nat,
    pub segments: Seq<Seq<i16>>,
}

/// The number of samples over all of `segs`.
pub open spec fn total_samples(segs: Seq<Seq<i16>>) -> nat
    decreases segs.len(),
{
    if segs.len() == 0 {
        0
    } else {
        total_samples(segs.drop_last()) + segs.last().len()
    }
}

/// `n` as four little-endian bytes.
pub open spec fn le32(n: nat) -> Seq<u8> {
    seq![
        (n % 256) as u8,
        ((n / 256) % 256) as u8,
        ((n / 65536) % 256) as u8,
        ((n / 16777216) % 256) as u8,
    ]
}

/// `n` as two little-endian bytes.
pub open spec fn le16(n: nat) -> Seq<u8> {
    seq![(n % 256) as u8, ((n / 256) % 256) as u8]
}

/// The two little-endian bytes of a signed sample, in two's complement.
pub open spec fn sample_bytes(n: i16) -> Seq<u8> {
    le16((if n < 0 { n + 65536 } else { n as int }) as nat)
}

/// The bytes of the samples of `s`, in order.
pub open spec fn samples_bytes(s: Seq<i16>) -> Seq<u8>
    decreases s.len(),
{
    if s.len() == 0 {
        Seq::empty()
    } else {
        samples_bytes(s.drop_last()) + sample_bytes(s.last())
    }
}

/// The bytes of the samples of every segment of `segs`, in order.
pub open spec fn segments_bytes(segs: Seq<Seq<i16>>) -> Seq<u8>
    decreases segs.len(),
{
    if segs.len() == 0 {
        Seq::empty()
    } else {
        segments_bytes(segs.drop_last()) + samples_bytes(segs.last())
    }
}

/// The ASCII bytes of a tag.
pub open spec fn tag(c: Seq<char>) -> Seq<u8> {
    c.map_values(|x: char| (x as u32) as u8)
}

/// The 44-byte header of a mono PCM stream.
pub open spec fn header(data_size: nat, sample_rate: nat, bit_size: nat) -> Seq<u8> {
    tag(seq!['R', 'I', 'F', 'F']) + le32(data_size + 36) + tag(seq!['W', 'A', 'V', 'E']) + tag(
        seq!['f', 'm', 't', ' '],
    ) + le32(16) + le16(1) + le16(1) + le32(sample_rate) + le32(sample_rate * (bit_size / 8))
        + le16(bit_size / 8) + le16(bit_size) + tag(seq!['d', 'a', 't', 'a']) + le32(data_size)
}

/// The whole file: header, samples, and one zero byte of padding after an odd payload.
pub open spec fn wav_bytes(m: WavModel) -> Seq<u8> {
    header(m.data_size, m.sample_rate, m.bit_size) + segments_bytes(m.segments) + if m.data_size
        % 2 == 1 {
        seq![0u8]
    } else {
        Seq::empty()
    }
}

/// A mono stream of signed 16-bit samples, built from segments appended one after another.
pub struct WavStream {
    data_size: u32,
    bit_size: u16,
    sample_rate: u32,
    segments: Vec<Vec<i16>>,
}

impl View for WavStream {
    type V = WavModel;

    closed spec fn view(&self) -> WavModel {
        WavModel {
            data_size: self.data_size as nat,
            bit_size: self.bit_size as nat,
            sample_rate: self.sample_rate as nat,
            segments: Seq::new(self.segments@.len(), |i: int| self.segments@[i]@),
        }
    }
}

impl WavStream {
    /// The payload size is two bytes per sample, and the file size fits 32 bits.
    pub open spec fn wf(&self) -> bool {
        &&& self@.bit_size == BIT_SIZE
        &&& self@.sample_rate * 2 <= u32::MAX
        &&& self@.data_size == 2 * total_samples(self@.segments)
        &&& self@.data_size <= MAX_DATA_SIZE
    }

    /// An empty stream at 44100 samples per second.
    pub fn new() -> (r: Self)
        ensures
            r.wf(),
            r@.data_size == 0,
            r@.bit_size == 16,
            r@.sample_rate == 44100,
            r@.segments == Seq::<Seq<i16>>::empty(),
    {
        let r = WavStream {
            data_size: 0,
            bit_size: BIT_SIZE,
            sample_rate: SAMPLE_RATE,
            segments: Vec::new(),
        };
        assert(r@.segments =~= Seq::<Seq<i16>>::empty());
        r
    }

    /// The payload size in bytes: two for each sample appended so far.
    pub fn data_size(&self) -> (r: u32)
        ensures
            r == self@.data_size,
    {
        self.data_size
    }

    /// The sample rate, in samples per second.
    pub fn sample_rate(&self) -> (r: u32)
        ensures
            r == self@.sample_rate,
    {
        self.sample_rate
    }

    /// Appends a segment that holds `samples`; the payload grows by two bytes per sample.
    pub fn wave_abs(&mut self, samples: Vec<i16>)
        requires
            old(self).wf(),
            old(self)@.data_size + 2 * samples@.len() <= MAX_DATA_SIZE,
        ensures
            final(self).wf(),
            final(self)@.segments == old(self)@.segments.push(samples@),
            final(self)@.data_size == old(self)@.data_size + 2 * samples@.len(),
            final(self)@.data_size == 2 * total_samples(final(self)@.segments),
            final(self)@.sample_rate == old(self)@.sample_rate,
            final(self)@.bit_size == old(self)@.bit_size,
    {
        let ghost old_segs = self@.segments;
        let n = samples.len();
        self.segments.push(samples);
        self.data_size = self.data_size + (BIT_SIZE / 8) as u32 * n as u32;
        proof {
            assert(self@.segments =~= old_segs.push(samples@));
            assert(self@.segments.drop_last() =~= old_segs);
        }
    }

    /// Appends a segment of `count` silent samples, each zero.
    pub fn silence(&mut self, count: u32)
        requires
            old(self).wf(),
            old(self)@.data_size + 2 * count <= MAX_DATA_SIZE,
        ensures
            final(self).wf(),
            final(self)@.segments == old(self)@.segments.push(Seq::new(count as nat, |i: int| 0i16)),
            final(self)@.data_size == old(self)@.data_size + 2 * count,
            final(self)@.data_size == 2 * total_samples(final(self)@.segments),
            final(self)@.sample_rate == old(self)@.sample_rate,
            final(self)@.bit_size == old(self)@.bit_size,
    {
        let mut samples: Vec<i16> = Vec::new();
        let mut i: u32 = 0;
        while i < count
            invariant
                i <= count,
                samples@ == Seq::new(i as nat, |k: int| 0i16),
            decreases count - i,
        {
            samples.push(0);
            assert(samples@ =~= Seq::new((i + 1) as nat, |k: int| 0i16));
            i = i + 1;
        }
        self.wave_abs(samples);
    }

    /// The bytes of the whole file: the header, every segment's samples in the order they were
    /// appended, and a zero byte of padding after a payload of odd size.
    pub fn finish(self) -> (r: Vec<u8>)
        requires
            self.wf(),
        ensures
            r@ == wav_bytes(self@),
    {
        let mut out: Vec<u8> = Vec::new();
        let file_size = self.data_size + HEADER_SIZE;
        write_chars(&mut out, ['R', 'I', 'F', 'F']);
        write_u32(&mut out, file_size - 8);
        write_chars(&mut out, ['W', 'A', 'V', 'E']);
        write_chars(&mut out, ['f', 'm', 't', ' ']);
        write_u32(&mut out, 16);
        write_u16(&mut out, 1);  // PCM
        write_u16(&mut out, 1);  // mono
        write_u32(&mut out, self.sample_rate);
        write_u32(&mut out, self.sample_rate * (self.bit_size / 8) as u32);
        write_u16(&mut out, self.bit_size / 8);
        write_u16(&mut out, self.bit_size);
        write_chars(&mut out, ['d', 'a', 't', 'a']);
        write_u32(&mut out, self.data_size);
        let ghost head = out@;
        assert(head =~= header(self@.data_size, self@.sample_rate, self@.bit_size));
        let mut k: usize = 0;
        while k < self.segments.len()
            invariant
                0 <= k <= self.segments@.len(),
                out@ == head + segments_bytes(self@.segments.subrange(0, k as int)),
            decreases self.segments@.len() - k,
        {
            let seg = &self.segments[k];
            let ghost before = out@;
            let mut j: usize = 0;
            while j < seg.len()
                invariant
                    0 <= j <= seg@.len(),
                    out@ == before + samples_bytes(seg@.subrange(0, j as int)),
                decreases seg@.len() - j,
            {
                write_i16(&mut out, seg[j]);
                assert(seg@.subrange(0, j + 1).drop_last() =~= seg@.subrange(0, j as int));
                j = j + 1;
            }
            proof {
                assert(seg@.subrange(0, j as int) =~= seg@);
                let segs = self@.segments;
                assert(segs.subrange(0, k + 1).drop_last() =~= segs.subrange(0, k as int));
                assert(segs[k as int] == seg@);
            }
            k = k + 1;
        }
        assert(self@.segments.subrange(0, k as int) =~= self@.segments);
        if self.data_size % 2 == 1 {
            out.push(0);
        } else {
            assert(out@ + Seq::<u8>::empty() =~= out@);
        }
        out
    }

    /// The largest amplitude that a sample can take, `2^(bit size - 1)`.
    pub fn max_amplitude(&self) -> (r: u32)
        requires
            self.wf(),
        ensures
            r == 32768,
    {
        let mut r: u32 = 1;
        let mut k: u16 = 1;
        proof {
            vstd::arithmetic::power2::lemma2_to64();
        }
        while k < self.bit_size
            invariant
                self.bit_size == 16,
                1 <= k <= 16,
                r == vstd::arithmetic::power2::pow2((k - 1) as nat),
            decreases 16 - k,
        {
            proof {
                vstd::arithmetic::power2::lemma_pow2_unfold(k as nat);
                vstd::arithmetic::power2::lemma2_to64();
            }
            r = r * 2;
            k = k + 1;
        }
        proof {
            vstd::arithmetic::power2::lemma2_to64();
        }
        r
    }
}


/// The file holds its size, less the eight bytes of the RIFF tag and size, at bytes 4 to 8, and
/// the exact payload size at bytes 40 to 44, both little-endian, after a 44-byte header.
pub proof fn lemma_size_fields(m: WavModel)
    ensures
        header(m.data_size, m.sample_rate, m.bit_size).len() == 44,
        wav_bytes(m).subrange(4, 8) == le32((m.data_size + 44 - 8) as nat),
        wav_bytes(m).subrange(40, 44) == le32(m.data_size),
{
    let h = header(m.data_size, m.sample_rate, m.bit_size);
    assert(h.len() == 44);
    let b = wav_bytes(m);
    assert(b.subrange(4, 8) =~= le32(m.data_size + 36));
    assert(b.subrange(40, 44) =~= le32(m.data_size));
}

/// Two well-formed streams with the same segments, in the same order, and the same sample rate
/// encode to the same bytes.
pub proof fn lemma_same_segments_same_bytes(a: WavStream, b: WavStream)
    requires
        a.wf(),
        b.wf(),
        a@.segments == b@.segments,
        a@.sample_rate == b@.sample_rate,
    ensures
        wav_bytes(a@) == wav_bytes(b@),
{
    assert(a@ == b@);
}

/// Appends `n` as four little-endian bytes.
fn write_u32(out: &mut Vec<u8>, n: u32)
    ensures
        final(out)@ == old(out)@ + le32(n as nat),
{
    out.push((n % 256) as u8);
    out.push((n / 256 % 256) as u8);
    out.push((n / 65536 % 256) as u8);
    out.push((n / 16777216 % 256) as u8);
    assert(final(out)@ =~= old(out)@ + le32(n as nat));
}

/// Appends `n` as two little-endian bytes.
fn write_u16(out: &mut Vec<u8>, n: u16)
    ensures
        final(out)@ == old(out)@ + le16(n as nat),
{
    out.push((n % 256) as u8);
    out.push((n / 256 % 256) as u8);
    assert(final(out)@ =~= old(out)@ + le16(n as nat));
}

/// Appends a signed sample as two little-endian bytes.
fn write_i16(out: &mut Vec<u8>, n: i16)
    ensures
        final(out)@ == old(out)@ + sample_bytes(n),
{
    let u: u16 = if n < 0 {
        (n as i32 + 65536) as u16
    } else {
        n as u16
    };
    write_u16(out, u);
}

/// Appends the ASCII bytes of a four-character tag.
fn write_chars(out: &mut Vec<u8>, chars: [char; 4])
    requires
        forall|i: int| 0 <= i < 4 ==> (chars@[i] as int) < 128,
    ensures
        final(out)@ == old(out)@ + tag(chars@),
{
    let mut i: usize = 0;
    while i < 4
        invariant
            0 <= i <= 4,
            forall|j: int| 0 <= j < 4 ==> (chars@[j] as int) < 128,
            out@ == old(out)@ + tag(chars@.subrange(0, i as int)),
        decreases 4 - i,
    {
        let c = chars[i];
        out.push((c as u32) as u8);
        assert(chars@.subrange(0, i + 1) =~= chars@.subrange(0, i as int).push(c));
        assert(tag(chars@.subrange(0, i + 1)) =~= tag(chars@.subrange(0, i as int)).push(
            (c as u32) as u8,
        ));
        i = i + 1;
    }
    assert(chars@.subrange(0, 4) =~= chars@);
}

} // verus!
