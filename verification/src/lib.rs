pub mod sample;

use vstd::prelude::*;

verus! {

use crate::sample::{Sample, Samples};

/// Little-endian bytes of a 16-bit header field.
pub open spec fn le2(v: int) -> Seq<u8> {
    seq![(v % 256) as u8, (v / 256 % 256) as u8]
}

/// Little-endian bytes of a 32-bit header field.
pub open spec fn le4(v: int) -> Seq<u8> {
    seq![
        (v % 256) as u8,
        (v / 256 % 256) as u8,
        (v / 0x1_0000 % 256) as u8,
        (v / 0x100_0000 % 256) as u8,
    ]
}

/// The ASCII tag "RIFF".
pub open spec fn riff_tag() -> Seq<u8> {
    seq![82u8, 73u8, 70u8, 70u8]
}

/// The ASCII tag "WAVE".
pub open spec fn wave_tag() -> Seq<u8> {
    seq![87u8, 65u8, 86u8, 69u8]
}

/// The ASCII tag "fmt " (with a trailing space).
pub open spec fn fmt_tag() -> Seq<u8> {
    seq![102u8, 109u8, 116u8, 32u8]
}

/// The ASCII tag "data".
pub open spec fn data_tag() -> Seq<u8> {
    seq![100u8, 97u8, 116u8, 97u8]
}

/// The sample payload: every sample's little-endian encoding, in buffer order.
pub open spec fn payload_bytes<T: Sample>(s: Seq<T>) -> Seq<u8>
    decreases s.len(),
{
    if s.len() == 0 {
        Seq::empty()
    } else {
        payload_bytes(s.drop_last()) + s.last().encoded()
    }
}

/// The complete RIFF/WAVE byte stream for `data`, interleaved over `ch`
/// channels at `rate` Hz: RIFF header, format chunk, data chunk header,
/// payload, and one zero pad byte exactly when the payload length is odd
/// (the declared data size stays odd).
pub open spec fn wav_bytes<T: Sample>(data: Seq<T>, ch: u16, rate: u32) -> Seq<u8> {
    let width = T::spec_byte_width() as int;
    let data_size = data.len() * width;
    let fmt_code: int = if T::spec_is_float() {
        3
    } else {
        1
    };
    riff_tag() + le4(36 + data_size) + wave_tag() + fmt_tag() + le4(16) + le2(fmt_code) + le2(
        ch as int,
    ) + le4(rate as int) + le4(rate * ch * width) + le2(ch * width) + le2(8 * width) + data_tag()
        + le4(data_size) + payload_bytes(data) + (if data_size % 2 == 1 {
        seq![0u8]
    } else {
        Seq::<u8>::empty()
    })
}

struct RiffHeader {
    size: u32,
}

enum AudioFormat {
    Pcm,
    Float,
}

impl AudioFormat {
    /// The format code of the fmt chunk: 1 for integer PCM, 3 for IEEE float.
    spec fn spec_code(self) -> int {
        match self {
            AudioFormat::Pcm => 1,
            AudioFormat::Float => 3,
        }
    }

    fn code(&self) -> (r: u16)
        ensures
            r as int == self.spec_code(),
    {
        match self {
            AudioFormat::Pcm => 1,
            AudioFormat::Float => 3,
        }
    }
}

struct FmtChunk {
    audio_format: AudioFormat,
    num_channels: u16,
    samples_per_sec: u32,
    bytes_per_sec: u32,
    block_align: u16,
    bits_per_sample: u16,
}

struct DataChunk {
    size: u32,
}

/// Audio data arranged for WAV serialization: derived header fields plus the
/// sample buffer they were derived from.
pub struct Wav<T: Sample> {
    riff_header: RiffHeader,
    fmt_chunk: FmtChunk,
    data_chunk: DataChunk,
    data: Samples<T>,
}

impl<T: Sample> Wav<T> {
    pub closed spec fn spec_samples(self) -> Samples<T> {
        self.data
    }

    /// Every header field holds exactly the value the WAV layout derives from
    /// the attached buffer, and all of them fit their binary fields.
    pub closed spec fn wf(self) -> bool {
        let width = T::spec_byte_width() as int;
        let len = self.data@.len() as int;
        let ch = self.data.spec_num_channels() as int;
        let rate = self.data.spec_sample_rate() as int;
        &&& self.data.wf()
        &&& len * width + 36 <= u32::MAX
        &&& rate * ch * width <= u32::MAX
        &&& ch * width <= u16::MAX
        &&& self.data_chunk.size == len * width
        &&& self.riff_header.size == 36 + len * width
        &&& self.fmt_chunk.audio_format.spec_code() == (if T::spec_is_float() {
            3int
        } else {
            1int
        })
        &&& self.fmt_chunk.num_channels == ch
        &&& self.fmt_chunk.samples_per_sec == rate
        &&& self.fmt_chunk.bytes_per_sec == rate * ch * width
        &&& self.fmt_chunk.block_align == ch * width
        &&& self.fmt_chunk.bits_per_sample == 8 * width
    }

    /// Derives all header fields from the buffer and takes ownership of it.
    pub fn from_samples(samples: Samples<T>) -> (r: Self)
        requires
            samples.wf(),
            samples@.len() * T::spec_byte_width() + 36 <= u32::MAX,
            samples.spec_sample_rate() * samples.spec_num_channels() * T::spec_byte_width()
                <= u32::MAX,
            samples.spec_num_channels() * T::spec_byte_width() <= u16::MAX,
        ensures
            r.wf(),
            r.spec_samples() == samples,
    {
        proof {
            T::byte_width_bounds();
            vstd::arithmetic::mul::lemma_mul_inequality(
                1,
                T::spec_byte_width() as int,
                samples@.len() as int,
            );
            vstd::arithmetic::mul::lemma_mul_inequality(
                1,
                T::spec_byte_width() as int,
                samples.spec_sample_rate() as int * samples.spec_num_channels() as int,
            );
            vstd::arithmetic::mul::lemma_mul_is_commutative(
                T::spec_byte_width() as int,
                samples@.len() as int,
            );
            vstd::arithmetic::mul::lemma_mul_is_commutative(
                T::spec_byte_width() as int,
                samples.spec_sample_rate() as int * samples.spec_num_channels() as int,
            );
            assert(samples@.len() as int <= u32::MAX);
            assert(samples.spec_sample_rate() as int * samples.spec_num_channels() as int
                <= u32::MAX);
        }
        let width = T::byte_width();
        let num_channels = samples.num_channels();
        let samples_per_sec = samples.sample_rate();
        let bits_per_sample: u16 = (width as u16) * 8;
        let byte_rate: u32 = ((samples_per_sec as u64) * (num_channels as u64) * (width as u64))
            as u32;
        let block_align: u16 = ((num_channels as u32) * (width as u32)) as u16;
        let data_size: u32 = ((samples.len() as u64) * (width as u64)) as u32;
        Wav {
            riff_header: RiffHeader { size: 36 + data_size },
            fmt_chunk: FmtChunk {
                audio_format: if T::is_float() {
                    AudioFormat::Float
                } else {
                    AudioFormat::Pcm
                },
                num_channels,
                samples_per_sec,
                bytes_per_sec: byte_rate,
                block_align,
                bits_per_sample,
            },
            data_chunk: DataChunk { size: data_size },
            data: samples,
        }
    }

    /// Serializes the stream in one ordered pass, appending the complete byte
    /// image to `out`.
    pub fn write_to(&self, out: &mut Vec<u8>)
        requires
            self.wf(),
        ensures
            final(out)@ == old(out)@ + wav_bytes(
                self.spec_samples()@,
                self.spec_samples().spec_num_channels(),
                self.spec_samples().spec_sample_rate(),
            ),
    {
        proof {
            T::byte_width_bounds();
        }
        let ghost pre = out@;
        out.push(82);
        out.push(73);
        out.push(70);
        out.push(70);
        push_le4(out, self.riff_header.size);
        out.push(87);
        out.push(65);
        out.push(86);
        out.push(69);
        out.push(102);
        out.push(109);
        out.push(116);
        out.push(32);
        push_le4(out, 16);
        push_le2(out, self.fmt_chunk.audio_format.code());
        push_le2(out, self.fmt_chunk.num_channels);
        push_le4(out, self.fmt_chunk.samples_per_sec);
        push_le4(out, self.fmt_chunk.bytes_per_sec);
        push_le2(out, self.fmt_chunk.block_align);
        push_le2(out, self.fmt_chunk.bits_per_sample);
        out.push(100);
        out.push(97);
        out.push(116);
        out.push(97);
        push_le4(out, self.data_chunk.size);
        let ghost width = T::spec_byte_width() as int;
        let ghost data_size = self.data@.len() as int * width;
        let ghost ch = self.data.spec_num_channels();
        let ghost rate = self.data.spec_sample_rate();
        let ghost header = riff_tag() + le4(36 + data_size) + wave_tag() + fmt_tag() + le4(16)
            + le2(if T::spec_is_float() { 3int } else { 1int }) + le2(ch as int) + le4(rate as int)
            + le4(rate as int * ch as int * width) + le2(ch as int * width) + le2(8 * width)
            + data_tag() + le4(data_size);
        proof {
            assert(out@ =~= pre + header);
        }
        let ghost head = out@;
        let s = self.data.as_slice();
        let len = self.data.len();
        let mut i: usize = 0;
        while i < len
            invariant
                s@ == self.data@,
                len == s@.len(),
                i <= len,
                out@ == head + payload_bytes(s@.take(i as int)),
            decreases len - i,
        {
            let sample = *vstd::slice::slice_index_get(s, i);
            let mut bytes = sample.to_bytes();
            out.append(&mut bytes);
            proof {
                assert(s@.take(i as int + 1).drop_last() =~= s@.take(i as int));
                assert(s@.take(i as int + 1).last() == s@[i as int]);
            }
            i = i + 1;
        }
        proof {
            assert(s@.take(len as int) =~= s@);
        }
        if self.data_chunk.size % 2 == 1 {
            out.push(0);
        }
        proof {
            assert(out@ =~= pre + wav_bytes(self.data@, ch, rate));
        }
    }
}

/// Appends the two little-endian bytes of a 16-bit field.
fn push_le2(out: &mut Vec<u8>, v: u16)
    ensures
        final(out)@ == old(out)@ + le2(v as int),
{
    out.push((v % 256) as u8);
    out.push((v / 256) as u8);
    proof {
        assert(out@ =~= old(out)@ + le2(v as int));
    }
}

/// Appends the four little-endian bytes of a 32-bit field.
fn push_le4(out: &mut Vec<u8>, v: u32)
    ensures
        final(out)@ == old(out)@ + le4(v as int),
{
    out.push((v % 256) as u8);
    out.push((v / 256 % 256) as u8);
    out.push((v / 0x1_0000 % 256) as u8);
    out.push((v / 0x100_0000) as u8);
    proof {
        assert(out@ =~= old(out)@ + le4(v as int));
    }
}

/// The payload is exactly `byteWidth` bytes per sample.
pub proof fn payload_bytes_len<T: Sample>(s: Seq<T>)
    ensures
        payload_bytes(s).len() == s.len() * T::spec_byte_width(),
    decreases s.len(),
{
    if s.len() == 0 {
    } else {
        payload_bytes_len::<T>(s.drop_last());
        T::encoded_len(s.last());
        assert((s.len() - 1) * T::spec_byte_width() + T::spec_byte_width() == s.len()
            * T::spec_byte_width()) by (nonlinear_arith);
    }
}

/// A serialized stream is 44 header bytes, the payload, and one pad byte
/// exactly when the data size is odd.
pub proof fn wav_bytes_len<T: Sample>(data: Seq<T>, ch: u16, rate: u32)
    ensures
        wav_bytes::<T>(data, ch, rate).len() == 44 + data.len() * T::spec_byte_width() + (
        if (data.len() * T::spec_byte_width()) % 2 == 1 {
            1int
        } else {
            0int
        }),
{
    payload_bytes_len::<T>(data);
}

} // verus!
