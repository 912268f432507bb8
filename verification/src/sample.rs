use vstd::prelude::*;

verus! {

/// A sample value of one numeric representation, encoded to and decoded from a
/// fixed-width little-endian byte sequence.
pub trait Sample: Copy + Sized + 'static {
    /// Width of the encoding in bytes: 1, 2, 3 or 4.
    spec fn spec_byte_width() -> usize;

    /// True only for the IEEE-754 binary32 representation.
    spec fn spec_is_float() -> bool;

    /// The little-endian encoding of this value.
    spec fn encoded(self) -> Seq<u8>;

    /// The value that a byte sequence of exactly `spec_byte_width()` bytes decodes to.
    spec fn decoded(bytes: Seq<u8>) -> Self;

    /// Which values this representation can hold; every value built by
    /// executable code satisfies it.
    spec fn wf(self) -> bool;

    proof fn byte_width_bounds()
        ensures
            1 <= Self::spec_byte_width() <= 4,
    ;

    proof fn encoded_len(v: Self)
        ensures
            v.encoded().len() == Self::spec_byte_width(),
    ;

    /// Decoding an encoding recovers the value exactly.
    proof fn round_trip(v: Self)
        requires
            v.wf(),
        ensures
            Self::decoded(v.encoded()) == v,
    ;

    fn byte_width() -> (r: usize)
        ensures
            r == Self::spec_byte_width(),
    ;

    fn is_float() -> (r: bool)
        ensures
            r == Self::spec_is_float(),
    ;

    fn to_bytes(&self) -> (r: Vec<u8>)
        ensures
            r@ == self.encoded(),
    ;

    fn from_bytes(bytes: &[u8]) -> (r: Self)
        requires
            bytes@.len() >= Self::spec_byte_width(),
        ensures
            r == Self::decoded(bytes@.take(Self::spec_byte_width() as int)),
            r.wf(),
    ;
}

impl Sample for u8 {
    open spec fn spec_byte_width() -> usize {
        1
    }

    open spec fn spec_is_float() -> bool {
        false
    }

    open spec fn encoded(self) -> Seq<u8> {
        seq![self]
    }

    open spec fn decoded(bytes: Seq<u8>) -> Self {
        bytes[0]
    }

    open spec fn wf(self) -> bool {
        true
    }

    proof fn byte_width_bounds() {
    }

    proof fn encoded_len(v: Self) {
    }

    proof fn round_trip(v: Self) {
    }

    fn byte_width() -> usize {
        1
    }

    fn is_float() -> bool {
        false
    }

    fn to_bytes(&self) -> (r: Vec<u8>) {
        let mut r: Vec<u8> = Vec::new();
        r.push(*self);
        proof {
            assert(r@ =~= self.encoded());
        }
        r
    }

    fn from_bytes(bytes: &[u8]) -> (r: Self) {
        let r = bytes[0];
        proof {
            assert(bytes@.take(1)[0] == bytes@[0]);
        }
        r
    }
}

/// Two's-complement image of a 16-bit signed value in `0 .. 0x10000`.
pub open spec fn rep16(v: int) -> int {
    if v < 0 {
        v + 0x10000
    } else {
        v
    }
}

/// Inverse of `rep16` on `0 .. 0x10000`.
pub open spec fn unrep16(n: int) -> int {
    if n >= 0x8000 {
        n - 0x10000
    } else {
        n
    }
}

impl Sample for i16 {
    open spec fn spec_byte_width() -> usize {
        2
    }

    open spec fn spec_is_float() -> bool {
        false
    }

    open spec fn encoded(self) -> Seq<u8> {
        seq![(rep16(self as int) % 256) as u8, (rep16(self as int) / 256) as u8]
    }

    open spec fn decoded(bytes: Seq<u8>) -> Self {
        unrep16(bytes[0] + 256 * bytes[1]) as i16
    }

    open spec fn wf(self) -> bool {
        true
    }

    proof fn byte_width_bounds() {
    }

    proof fn encoded_len(v: Self) {
    }

    proof fn round_trip(v: Self) {
        let rep = rep16(v as int);
        assert(0 <= rep < 0x10000);
        assert(rep % 256 + 256 * (rep / 256) == rep) by {
            vstd::arithmetic::div_mod::lemma_fundamental_div_mod(rep, 256);
        }
        assert(v.encoded().take(2) =~= v.encoded());
    }

    fn byte_width() -> usize {
        2
    }

    fn is_float() -> bool {
        false
    }

    fn to_bytes(&self) -> (r: Vec<u8>) {
        let u: u16 = if *self < 0 {
            ((*self as i32) + 0x10000) as u16
        } else {
            *self as u16
        };
        let mut r: Vec<u8> = Vec::new();
        r.push((u % 256) as u8);
        r.push((u / 256) as u8);
        proof {
            assert(u == rep16(*self as int));
            assert(r@ =~= self.encoded());
        }
        r
    }

    fn from_bytes(bytes: &[u8]) -> (r: Self) {
        let n: u32 = bytes[0] as u32 + 256 * (bytes[1] as u32);
        let r: i16 = if n >= 0x8000 {
            ((n as i32) - 0x10000) as i16
        } else {
            n as i16
        };
        proof {
            let t = bytes@.take(2);
            assert(t[0] == bytes@[0] && t[1] == bytes@[1]);
        }
        r
    }
}

/// A 24-bit signed sample, stored in exactly three bytes in a WAV stream.
#[derive(Clone, Copy, PartialEq, Eq, Structural, Debug)]
pub struct I24 {
    value: i32,
}

impl I24 {
    /// The values representable in 24 bits, two's complement.
    #[verifier::type_invariant]
    pub closed spec fn in_range(self) -> bool {
        -0x80_0000 <= self.value < 0x80_0000
    }

    pub closed spec fn spec_value(self) -> i32 {
        self.value
    }

    /// Builds a 24-bit sample; rejects values outside `-8388608 ..= 8388607`.
    pub fn new(value: i32) -> (r: Option<I24>)
        ensures
            (r is Some) <==> (-0x80_0000 <= value < 0x80_0000),
            r matches Some(s) ==> s.spec_value() == value,
    {
        if -0x80_0000 <= value && value < 0x80_0000 {
            Some(I24 { value })
        } else {
            None
        }
    }

    pub fn value(&self) -> (r: i32)
        ensures
            r == self.spec_value(),
            -0x80_0000 <= r < 0x80_0000,
    {
        proof {
            use_type_invariant(&*self);
        }
        self.value
    }

    /// What a three-byte sequence decodes to, as a plain value.
    pub proof fn decoded_value(bytes: Seq<u8>)
        ensures
            <I24 as Sample>::decoded(bytes).spec_value() == unrep24(
                bytes[0] + 256 * bytes[1] + 0x1_0000 * bytes[2],
            ),
    {
    }
}

/// Two's-complement image of a 24-bit signed value in `0 .. 0x100_0000`.
pub open spec fn rep24(v: int) -> int {
    if v < 0 {
        v + 0x100_0000
    } else {
        v
    }
}

/// Inverse of `rep24` on `0 .. 0x100_0000`.
pub open spec fn unrep24(n: int) -> int {
    if n >= 0x80_0000 {
        n - 0x100_0000
    } else {
        n
    }
}

impl Sample for I24 {
    open spec fn spec_byte_width() -> usize {
        3
    }

    open spec fn spec_is_float() -> bool {
        false
    }

    open spec fn encoded(self) -> Seq<u8> {
        seq![
            (rep24(self.spec_value() as int) % 256) as u8,
            (rep24(self.spec_value() as int) / 256 % 256) as u8,
            (rep24(self.spec_value() as int) / 0x1_0000) as u8,
        ]
    }

    closed spec fn decoded(bytes: Seq<u8>) -> Self {
        I24 { value: unrep24(bytes[0] + 256 * bytes[1] + 0x1_0000 * bytes[2]) as i32 }
    }

    open spec fn wf(self) -> bool {
        self.in_range()
    }

    proof fn byte_width_bounds() {
    }

    proof fn encoded_len(v: Self) {
    }

    proof fn round_trip(v: Self) {
        let rep = rep24(v.spec_value() as int);
        assert(0 <= rep < 0x100_0000);
        assert(rep % 256 + 256 * (rep / 256 % 256) + 0x1_0000 * (rep / 0x1_0000) == rep) by {
            vstd::arithmetic::div_mod::lemma_fundamental_div_mod(rep, 256);
            vstd::arithmetic::div_mod::lemma_fundamental_div_mod(rep / 256, 256);
            assert(rep / 256 / 256 == rep / 0x1_0000) by {
                vstd::arithmetic::div_mod::lemma_div_denominator(rep, 256, 256);
            }
        }
        assert(v.encoded().take(3) =~= v.encoded());
    }

    fn byte_width() -> usize {
        3
    }

    fn is_float() -> bool {
        false
    }

    fn to_bytes(&self) -> (r: Vec<u8>) {
        proof {
            use_type_invariant(&*self);
        }
        let u: u32 = if self.value < 0 {
            (self.value + 0x100_0000) as u32
        } else {
            self.value as u32
        };
        let mut r: Vec<u8> = Vec::new();
        r.push((u % 256) as u8);
        r.push((u / 256 % 256) as u8);
        r.push((u / 0x1_0000) as u8);
        proof {
            assert(u == rep24(self.spec_value() as int));
            assert(r@ =~= self.encoded());
        }
        r
    }

    fn from_bytes(bytes: &[u8]) -> (r: Self) {
        let n: u32 = bytes[0] as u32 + 256 * (bytes[1] as u32) + 0x1_0000 * (bytes[2] as u32);
        let value: i32 = if n >= 0x80_0000 {
            n as i32 - 0x100_0000
        } else {
            n as i32
        };
        let r = I24 { value };
        proof {
            let t = bytes@.take(3);
            assert(t[0] == bytes@[0] && t[1] == bytes@[1] && t[2] == bytes@[2]);
        }
        r
    }
}

/// The bit pattern of an IEEE-754 binary32 sample, kept as its raw 32-bit image.
#[derive(Clone, Copy, PartialEq, Eq, Structural, Debug)]
pub struct FloatBits {
    bits: u32,
}

impl FloatBits {
    pub closed spec fn spec_bits(self) -> u32 {
        self.bits
    }

    /// Wraps a raw binary32 bit pattern.
    pub fn from_bits(bits: u32) -> (r: FloatBits)
        ensures
            r.spec_bits() == bits,
    {
        FloatBits { bits }
    }

    pub fn bits(&self) -> (r: u32)
        ensures
            r == self.spec_bits(),
    {
        self.bits
    }

    /// What a four-byte sequence decodes to, as a plain bit pattern.
    pub proof fn decoded_bits(bytes: Seq<u8>)
        ensures
            <FloatBits as Sample>::decoded(bytes).spec_bits() == (bytes[0] + 256 * bytes[1]
                + 0x1_0000 * bytes[2] + 0x100_0000 * bytes[3]) as u32,
    {
    }
}

impl Sample for FloatBits {
    open spec fn spec_byte_width() -> usize {
        4
    }

    open spec fn spec_is_float() -> bool {
        true
    }

    open spec fn encoded(self) -> Seq<u8> {
        seq![
            (self.spec_bits() % 256) as u8,
            (self.spec_bits() / 256 % 256) as u8,
            (self.spec_bits() / 0x1_0000 % 256) as u8,
            (self.spec_bits() / 0x100_0000) as u8,
        ]
    }

    closed spec fn decoded(bytes: Seq<u8>) -> Self {
        FloatBits {
            bits: (bytes[0] + 256 * bytes[1] + 0x1_0000 * bytes[2] + 0x100_0000 * bytes[3]) as u32,
        }
    }

    open spec fn wf(self) -> bool {
        true
    }

    proof fn byte_width_bounds() {
    }

    proof fn encoded_len(v: Self) {
    }

    proof fn round_trip(v: Self) {
        let b = v.spec_bits() as int;
        assert(b % 256 + 256 * (b / 256 % 256) + 0x1_0000 * (b / 0x1_0000 % 256) + 0x100_0000 * (b
            / 0x100_0000) == b) by {
            vstd::arithmetic::div_mod::lemma_fundamental_div_mod(b, 256);
            vstd::arithmetic::div_mod::lemma_fundamental_div_mod(b / 256, 256);
            vstd::arithmetic::div_mod::lemma_fundamental_div_mod(b / 0x1_0000, 256);
            assert(b / 256 / 256 == b / 0x1_0000) by {
                vstd::arithmetic::div_mod::lemma_div_denominator(b, 256, 256);
            }
            assert(b / 0x1_0000 / 256 == b / 0x100_0000) by {
                vstd::arithmetic::div_mod::lemma_div_denominator(b, 0x1_0000, 256);
            }
        }
        assert(v.encoded().take(4) =~= v.encoded());
    }

    fn byte_width() -> usize {
        4
    }

    fn is_float() -> bool {
        true
    }

    fn to_bytes(&self) -> (r: Vec<u8>) {
        let u: u32 = self.bits;
        let mut r: Vec<u8> = Vec::new();
        r.push((u % 256) as u8);
        r.push((u / 256 % 256) as u8);
        r.push((u / 0x1_0000 % 256) as u8);
        r.push((u / 0x100_0000) as u8);
        proof {
            assert(r@ =~= self.encoded());
        }
        r
    }

    fn from_bytes(bytes: &[u8]) -> (r: Self) {
        let n: u32 = bytes[0] as u32 + 256 * (bytes[1] as u32) + 0x1_0000 * (bytes[2] as u32)
            + 0x100_0000 * (bytes[3] as u32);
        let r = FloatBits { bits: n };
        proof {
            let t = bytes@.take(4);
            assert(t[0] == bytes@[0] && t[1] == bytes@[1] && t[2] == bytes@[2] && t[3] == bytes@[3]);
        }
        r
    }
}

/// How a buffer holds its samples: exclusively owned storage, or a read-only
/// reference to immutable external storage that outlives every buffer.
enum Storage<T: 'static> {
    Owned(Vec<T>),
    Borrowed(&'static [T]),
}

/// An interleaved multi-channel sequence of samples with copy-on-write
/// ownership, a channel count and a sample rate in Hz.
pub struct Samples<T: Sample> {
    data: Storage<T>,
    num_channels: u16,
    samples_per_sec: u32,
}

/// How many samples of a buffer of `len` interleaved samples over `ch`
/// channels fall on channel `c`: the indices `c`, `c + ch`, `c + 2·ch`, ...
/// below `len`.
pub open spec fn channel_sample_count(len: int, ch: int, c: int) -> int {
    if c >= len {
        0
    } else {
        (len - c - 1) / ch + 1
    }
}

impl<T: Sample> View for Samples<T> {
    type V = Seq<T>;

    closed spec fn view(&self) -> Seq<T> {
        match self.data {
            Storage::Owned(v) => v@,
            Storage::Borrowed(s) => s@,
        }
    }
}

impl<T: Sample> Samples<T> {
    /// A valid buffer has at least one channel and a positive sample rate;
    /// both constructors establish this and every operation preserves it.
    pub open spec fn wf(self) -> bool {
        self.spec_num_channels() >= 1 && self.spec_sample_rate() >= 1
    }

    pub closed spec fn spec_is_owned(self) -> bool {
        self.data is Owned
    }

    pub closed spec fn spec_num_channels(self) -> u16 {
        self.num_channels
    }

    pub closed spec fn spec_sample_rate(self) -> u32 {
        self.samples_per_sec
    }

    /// Takes ownership of `vec`; no copy is made.
    pub fn from_vec(vec: Vec<T>, num_channels: u16, samples_per_sec: u32) -> (r: Self)
        requires
            num_channels >= 1,
            samples_per_sec >= 1,
        ensures
            r@ == vec@,
            r.spec_is_owned(),
            r.spec_num_channels() == num_channels,
            r.spec_sample_rate() == samples_per_sec,
            r.wf(),
    {
        Samples { data: Storage::Owned(vec), num_channels, samples_per_sec }
    }

    /// References external immutable storage; no copy is made.
    pub fn borrowed(data: &'static [T], num_channels: u16, samples_per_sec: u32) -> (r: Self)
        requires
            num_channels >= 1,
            samples_per_sec >= 1,
        ensures
            r@ == data@,
            !r.spec_is_owned(),
            r.spec_num_channels() == num_channels,
            r.spec_sample_rate() == samples_per_sec,
            r.wf(),
    {
        Samples { data: Storage::Borrowed(data), num_channels, samples_per_sec }
    }

    /// Total sample count, all channels combined.
    pub fn len(&self) -> (r: usize)
        ensures
            r == self@.len(),
    {
        match &self.data {
            Storage::Owned(v) => v.len(),
            Storage::Borrowed(s) => s.len(),
        }
    }

    pub fn is_empty(&self) -> (r: bool)
        ensures
            r == (self@.len() == 0),
    {
        self.len() == 0
    }

    pub fn num_channels(&self) -> (r: u16)
        ensures
            r == self.spec_num_channels(),
    {
        self.num_channels
    }

    pub fn sample_rate(&self) -> (r: u32)
        ensures
            r == self.spec_sample_rate(),
    {
        self.samples_per_sec
    }

    /// The whole sample sequence, read-only and zero-copy in either mode.
    pub fn as_slice(&self) -> (r: &[T])
        ensures
            r@ == self@,
    {
        match &self.data {
            Storage::Owned(v) => v.as_slice(),
            Storage::Borrowed(s) => s,
        }
    }

    /// Single-sample random access, bounds-checked, zero-copy in either mode.
    pub fn get(&self, index: usize) -> (r: Option<&T>)
        ensures
            (r is Some) <==> index < self@.len(),
            r matches Some(v) ==> *v == self@[index as int],
    {
        if index < self.len() {
            Some(vstd::slice::slice_index_get(self.as_slice(), index))
        } else {
            None
        }
    }

    /// Read-only traversal of every sample, in buffer order.
    pub fn iter(&self) -> (r: &[T])
        ensures
            r@ == self@,
    {
        self.as_slice()
    }

    /// Number of whole frames: truncating division, a trailing partial frame
    /// is dropped.
    pub fn frame_count(&self) -> (r: usize)
        requires
            self.wf(),
        ensures
            r == self@.len() as int / self.spec_num_channels() as int,
    {
        self.len() / (self.num_channels as usize)
    }

    /// The whole frames, in order: non-overlapping groups of `num_channels`
    /// consecutive samples; a trailing group shorter than a frame is invisible.
    pub fn frames(&self) -> (r: Vec<Vec<T>>)
        requires
            self.wf(),
        ensures
            r@.len() == self@.len() as int / self.spec_num_channels() as int,
            forall|i: int|
                0 <= i < r@.len() ==> r@[i]@ == self@.subrange(
                    i * self.spec_num_channels() as int,
                    i * self.spec_num_channels() as int + self.spec_num_channels() as int,
                ),
    {
        let ch = self.num_channels as usize;
        let n = self.len() / ch;
        let s = self.as_slice();
        let mut r: Vec<Vec<T>> = Vec::new();
        let mut i: usize = 0;
        while i < n
            invariant
                ch == self.spec_num_channels(),
                ch >= 1,
                n == self@.len() as int / ch as int,
                self@.len() <= usize::MAX,
                s@ == self@,
                i <= n,
                r@.len() == i,
                forall|j: int|
                    0 <= j < i ==> r@[j]@ == self@.subrange(j * ch as int, j * ch as int + ch as int),
            decreases n - i,
        {
            proof {
                let chi = ch as int;
                let leni = self@.len() as int;
                vstd::arithmetic::div_mod::lemma_fundamental_div_mod(leni, chi);
                vstd::arithmetic::div_mod::lemma_mod_bound(leni, chi);
                vstd::arithmetic::mul::lemma_mul_inequality(i + 1, n as int, chi);
                vstd::arithmetic::mul::lemma_mul_inequality(i as int, i + 1, chi);
                assert((i + 1) * chi == i as int * chi + chi) by (nonlinear_arith);
            }
            let frame = vstd::slice::slice_to_vec(vstd::slice::slice_subrange(s, i * ch, i * ch + ch));
            r.push(frame);
            i = i + 1;
        }
        r
    }

    /// Every `num_channels`-th sample starting at offset `channel`; rejects an
    /// out-of-range channel index.
    pub fn channel(&self, channel: u16) -> (r: Option<Vec<T>>)
        requires
            self.wf(),
        ensures
            (r is Some) <==> channel < self.spec_num_channels(),
            r matches Some(v) ==> v@.len() == channel_sample_count(
                self@.len() as int,
                self.spec_num_channels() as int,
                channel as int,
            ),
            r matches Some(v) ==> forall|k: int|
                0 <= k < v@.len() ==> v@[k] == self@[channel + k * self.spec_num_channels() as int],
    {
        if channel >= self.num_channels {
            return None;
        }
        let ch = self.num_channels as usize;
        let c = channel as usize;
        let s = self.as_slice();
        let len = s.len();
        let count: usize = if c >= len {
            0
        } else {
            (len - c - 1) / ch + 1
        };
        let mut v: Vec<T> = Vec::new();
        let mut k: usize = 0;
        while k < count
            invariant
                ch == self.spec_num_channels(),
                ch >= 1,
                c == channel as int,
                c < ch,
                s@ == self@,
                len == self@.len(),
                count == channel_sample_count(len as int, ch as int, c as int),
                count <= len,
                k <= count,
                v@.len() == k,
                forall|j: int| 0 <= j < k ==> v@[j] == self@[c + j * ch as int],
            decreases count - k,
        {
            proof {
                vstd::arithmetic::mul::lemma_mul_inequality(
                    k as int,
                    (len - c - 1) as int / ch as int,
                    ch as int,
                );
                vstd::arithmetic::div_mod::lemma_fundamental_div_mod((len - c - 1) as int, ch as int);
                vstd::arithmetic::div_mod::lemma_mod_bound((len - c - 1) as int, ch as int);
            }
            let pos = c + k * ch;
            v.push(*vstd::slice::slice_index_get(s, pos));
            k = k + 1;
        }
        Some(v)
    }

    /// If currently borrowed, copies the samples into owned storage exactly
    /// once; a no-op on an already owned buffer.
    pub fn make_owned(&mut self)
        ensures
            final(self)@ == old(self)@,
            final(self).spec_is_owned(),
            final(self).spec_num_channels() == old(self).spec_num_channels(),
            final(self).spec_sample_rate() == old(self).spec_sample_rate(),
            old(self).spec_is_owned() ==> *final(self) == *old(self),
    {
        match &self.data {
            Storage::Owned(_) => {},
            Storage::Borrowed(s) => {
                let copy: Vec<T> = vstd::slice::slice_to_vec(*s);
                self.data = Storage::Owned(copy);
            },
        }
    }

    /// Mutable access to the sample storage; promotes a borrowed buffer to
    /// owned first, so it always succeeds.
    pub fn iter_mut(&mut self) -> (r: &mut Vec<T>)
        ensures
            r@ == old(self)@,
            final(self)@ == final(r)@,
            final(self).spec_is_owned(),
            final(self).spec_num_channels() == old(self).spec_num_channels(),
            final(self).spec_sample_rate() == old(self).spec_sample_rate(),
    {
        self.make_owned();
        match &mut self.data {
            Storage::Owned(v) => v,
            Storage::Borrowed(_) => vstd::pervasive::unreached(),
        }
    }

    /// Strict mutable access: succeeds exactly when the buffer already owns
    /// its storage, and never copies.
    pub fn try_iter_mut(&mut self) -> (r: Option<&mut Vec<T>>)
        ensures
            (r is Some) <==> old(self).spec_is_owned(),
            r is None ==> *final(self) == *old(self),
            r matches Some(m) ==> m@ == old(self)@ && final(self)@ == final(m)@
                && final(self).spec_is_owned() && final(self).spec_num_channels() == old(
                self,
            ).spec_num_channels() && final(self).spec_sample_rate() == old(self).spec_sample_rate(),
    {
        match &mut self.data {
            Storage::Owned(v) => Some(v),
            Storage::Borrowed(_) => None,
        }
    }
}

/// Promotion to owned storage is idempotent: if `once` relates to `start` as
/// `make_owned`'s contract describes, and `twice` relates to `once` the same
/// way, then the second promotion was a no-op and both runs leave the same
/// buffer.
pub proof fn make_owned_idempotent<T: Sample>(start: Samples<T>, once: Samples<T>, twice: Samples<T>)
    requires
        once@ == start@,
        once.spec_is_owned(),
        once.spec_num_channels() == start.spec_num_channels(),
        once.spec_sample_rate() == start.spec_sample_rate(),
        start.spec_is_owned() ==> once == start,
        twice@ == once@,
        twice.spec_is_owned(),
        twice.spec_num_channels() == once.spec_num_channels(),
        twice.spec_sample_rate() == once.spec_sample_rate(),
        once.spec_is_owned() ==> twice == once,
    ensures
        twice == once,
        twice@ == start@,
{
}

} // verus!
