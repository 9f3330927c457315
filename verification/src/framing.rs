//! Length-prefixed framing of the relay stream: every frame is the unsigned
//! LEB128 varint of the payload length followed by the payload itself.
use vstd::prelude::*;

verus! {

/// The modulus of `usize` arithmetic: 2^64 on 64-bit targets, 2^32 on
/// 32-bit ones.
pub open spec fn usize_modulus() -> nat {
    if usize::BITS == 64 {
        0x1_0000_0000_0000_0000nat
    } else {
        0x1_0000_0000nat
    }
}

/// The index of the last byte a `usize` varint may occupy: a 64-bit number
/// takes at most ten groups of seven bits, a 32-bit one at most five.
pub open spec fn varint_last_index() -> nat {
    if usize::BITS == 64 {
        9
    } else {
        4
    }
}

/// The minimal unsigned LEB128 encoding of `n`: seven bits per byte, least
/// significant group first, the high bit set on every byte but the last.
pub open spec fn spec_varint(n: nat) -> Seq<u8>
    decreases n,
{
    if n < 128 {
        seq![n as u8]
    } else {
        seq![((n % 128) + 128) as u8] + spec_varint(n / 128)
    }
}

/// The number carried by the low seven bits of each byte, least significant
/// group first.
pub open spec fn varint_value(s: Seq<u8>) -> nat
    decreases s.len(),
{
    if s.len() == 0 {
        0
    } else {
        (s[0] % 128) as nat + 128 * varint_value(s.drop_first())
    }
}

/// Why a varint could not be decoded.
#[derive(Debug, Clone, Copy, PartialEq, Eq)]
pub enum VarintError {
    /// The input ended before a byte without the continuation bit.
    Insufficient,
    /// More bytes than a 64-bit number can hold.
    Overflow,
    /// The last byte of a multi-byte varint is zero.
    NotMinimal,
    /// Any other error the decoder may report.
    Other,
}

/// Where the varint decoder stops when it scans `s` from index `i` on: the
/// index of the first byte without the continuation bit, or the error.
pub open spec fn varint_end_from(s: Seq<u8>, i: nat) -> Result<nat, VarintError>
    decreases s.len() - i,
{
    if i >= s.len() {
        Err(VarintError::Insufficient)
    } else if s[i as int] < 128 {
        if s[i as int] == 0 && i > 0 {
            Err(VarintError::NotMinimal)
        } else {
            Ok(i)
        }
    } else if i == varint_last_index() {
        Err(VarintError::Overflow)
    } else {
        varint_end_from(s, i + 1)
    }
}

/// What decoding a `usize` varint from the front of `s` gives: the value
/// (taken modulo the `usize` modulus) and the number of bytes it used.
pub open spec fn spec_decode_varint(s: Seq<u8>) -> Result<(nat, nat), VarintError> {
    match varint_end_from(s, 0) {
        Ok(i) => Ok((varint_value(s.take((i + 1) as int)) % usize_modulus(), i + 1)),
        Err(e) => Err(e),
    }
}

/// Calls `unsigned_varint::encode::usize` on a buffer from
/// `unsigned_varint::encode::usize_buffer`. The contract claims that the bytes
/// written are the minimal LEB128 encoding of `n`.
#[verifier::external_body]
fn varint_encode_usize(n: usize) -> (r: Vec<u8>)
    ensures
        r@ == spec_varint(n as nat),
{
    let mut buf = unsigned_varint::encode::usize_buffer();
    unsigned_varint::encode::usize(n, &mut buf).to_vec()
}

/// Calls `unsigned_varint::decode::usize`. The contract claims the decoder's
/// behaviour as its source shows it: it scans for the first byte without the
/// continuation bit, fails with `NotMinimal` if that byte is a zero after the
/// first, with `Overflow` if the last byte a `usize` may take (the tenth on
/// 64-bit targets, the fifth on 32-bit ones) still has the continuation bit,
/// with `Insufficient` if the input ends first, and otherwise returns the
/// value modulo the `usize` modulus. The remaining slice is dropped.
#[verifier::external_body]
fn varint_decode_usize(buf: &[u8]) -> (r: Result<usize, VarintError>)
    ensures
        match spec_decode_varint(buf@) {
            Ok((v, _)) => r == Ok::<usize, VarintError>(v as usize),
            Err(e) => r == Err::<usize, VarintError>(e),
        },
{
    match unsigned_varint::decode::usize(buf) {
        Ok((v, _)) => Ok(v),
        Err(unsigned_varint::decode::Error::Insufficient) => Err(VarintError::Insufficient),
        Err(unsigned_varint::decode::Error::Overflow) => Err(VarintError::Overflow),
        Err(unsigned_varint::decode::Error::NotMinimal) => Err(VarintError::NotMinimal),
        Err(_) => Err(VarintError::Other),
    }
}


/// Why a frame could not be read from a byte stream.
#[derive(Debug, Clone, Copy, PartialEq, Eq)]
pub enum FrameError {
    /// Eleven length bytes in a row carried the continuation bit.
    InvalidVarint,
    /// The length prefix was complete but the varint decoder refused it.
    Decode(VarintError),
    /// The bytes ended before the frame did.
    Incomplete,
}

/// The bytes a frame carrying `data` consists of.
pub open spec fn spec_encode_frame(data: Seq<u8>) -> Seq<u8> {
    spec_varint(data.len()) + data
}

/// How reading a length prefix from the front of `s` goes once the bytes
/// before index `i` were all continuation bytes: bytes are taken one by one
/// until one lacks the continuation bit; an eleventh continuation byte is an
/// error; the bytes taken are then decoded as a varint. On success the result
/// holds the length and the number of prefix bytes.
pub open spec fn read_length_from(s: Seq<u8>, i: nat) -> Result<(nat, nat), FrameError>
    decreases s.len() - i,
{
    if i >= s.len() {
        Err(FrameError::Incomplete)
    } else if s[i as int] < 128 {
        match spec_decode_varint(s.take((i + 1) as int)) {
            Ok((v, _)) => Ok((v, i + 1)),
            Err(e) => Err(FrameError::Decode(e)),
        }
    } else if i + 1 > 10 {
        Err(FrameError::InvalidVarint)
    } else {
        read_length_from(s, i + 1)
    }
}

/// Reading one frame from the front of `s`: its payload and the number of
/// bytes the whole frame took.
pub open spec fn spec_decode_frame(s: Seq<u8>) -> Result<(Seq<u8>, nat), FrameError> {
    match read_length_from(s, 0) {
        Ok((len, used)) => if used + len <= s.len() {
            Ok((s.subrange(used as int, (used + len) as int), used + len))
        } else {
            Err(FrameError::Incomplete)
        },
        Err(e) => Err(e),
    }
}

/// The frame that carries `data`: its length as a varint, then the data.
pub fn encode_frame(data: &[u8]) -> (r: Vec<u8>)
    ensures
        r@ == spec_encode_frame(data@),
{
    let mut out = varint_encode_usize(data.len());
    let ghost prefix = out@;
    let mut i: usize = 0;
    while i < data.len()
        invariant
            i <= data.len(),
            prefix == spec_varint(data@.len()),
            out@ == prefix + data@.take(i as int),
        decreases data.len() - i,
    {
        out.push(data[i]);
        i = i + 1;
        assert(data@.take(i as int) == data@.take((i - 1) as int).push(data@[i - 1]));
    }
    assert(data@.take(data.len() as int) == data@);
    out
}

/// What a step of reading a length prefix gives.
#[derive(Debug, Clone, Copy, PartialEq, Eq)]
pub enum LengthStep {
    /// The prefix goes on: feed the next byte.
    NeedMore,
    /// The prefix is complete and carries this payload length.
    Complete(usize),
    /// The prefix is not a valid length.
    Failed(FrameError),
}

/// Reads the varint length prefix of a frame one byte at a time, as bytes
/// arrive from the stream.
pub struct LengthPrefixReader {
    length_buf: Vec<u8>,
}

impl LengthPrefixReader {
    /// The bytes taken so far.
    pub closed spec fn taken(&self) -> Seq<u8> {
        self.length_buf@
    }

    /// A reader that may take another byte: at most ten bytes so far, all
    /// with the continuation bit.
    pub open spec fn wf(&self) -> bool {
        &&& self.taken().len() <= 10
        &&& forall|j: int| 0 <= j < self.taken().len() ==> #[trigger] self.taken()[j] >= 128
    }

    /// A reader that has taken nothing yet.
    pub fn new() -> (r: Self)
        ensures
            r.wf(),
            r.taken() == Seq::<u8>::empty(),
    {
        LengthPrefixReader { length_buf: Vec::new() }
    }

    /// Takes the next byte of the stream. Once the step is not `NeedMore`
    /// the prefix is over and the reader is not fed again.
    pub fn push_byte(&mut self, b: u8) -> (step: LengthStep)
        requires
            old(self).wf(),
        ensures
            final(self).taken() == old(self).taken().push(b),
            step == LengthStep::NeedMore <==> final(self).wf(),
            ({
                let s = final(self).taken();
                let i = old(self).taken().len();
                &&& step == LengthStep::NeedMore ==> read_length_from(s, i) == read_length_from(
                    s,
                    i + 1,
                ) && b >= 128
                &&& (step matches LengthStep::Complete(n) ==> read_length_from(s, i) == Ok::<
                    (nat, nat),
                    FrameError,
                >((n as nat, i + 1)))
                &&& (step matches LengthStep::Failed(e) ==> read_length_from(s, i) == Err::<
                    (nat, nat),
                    FrameError,
                >(e))
            }),
    {
        self.length_buf.push(b);
        let ghost s = self.length_buf@;
        assert(s.take(s.len() as int) == s);
        if b & 0x80 == 0 {
            assert(b & 0x80 == 0 ==> b < 128) by (bit_vector);
            match varint_decode_usize(self.length_buf.as_slice()) {
                Ok(n) => LengthStep::Complete(n),
                Err(e) => LengthStep::Failed(FrameError::Decode(e)),
            }
        } else {
            assert(b & 0x80 != 0 ==> b >= 128) by (bit_vector);
            if self.length_buf.len() > 10 {
                LengthStep::Failed(FrameError::InvalidVarint)
            } else {
                LengthStep::NeedMore
            }
        }
    }
}


/// A step of reading a prefix that stops at index `i` (the byte there ends
/// the varint, or is the eleventh continuation byte) looks at no byte after
/// `i`.
proof fn lemma_read_length_stops(s: Seq<u8>, t: Seq<u8>, i: nat)
    requires
        i < s.len(),
        t == s.take((i + 1) as int),
        s[i as int] < 128 || i + 1 > 10,
    ensures
        read_length_from(s, i) == read_length_from(t, i),
{
    assert(t.take((i + 1) as int) == s.take((i + 1) as int));
}

/// Copies `bytes[start..end]`.
fn copy_range(bytes: &[u8], start: usize, end: usize) -> (r: Vec<u8>)
    requires
        start <= end <= bytes@.len(),
    ensures
        r@ == bytes@.subrange(start as int, end as int),
{
    let mut out: Vec<u8> = Vec::new();
    let mut i = start;
    while i < end
        invariant
            start <= i <= end <= bytes@.len(),
            out@ == bytes@.subrange(start as int, i as int),
        decreases end - i,
    {
        out.push(bytes[i]);
        i = i + 1;
        assert(bytes@.subrange(start as int, i as int) == bytes@.subrange(
            start as int,
            (i - 1) as int,
        ).push(bytes@[i - 1]));
    }
    out
}

/// Reads one frame from the front of `bytes`, one length byte at a time as the
/// stream reader does, and returns its payload and the number of bytes the
/// frame took.
pub fn decode_frame(bytes: &[u8]) -> (r: Result<(Vec<u8>, usize), FrameError>)
    ensures
        match spec_decode_frame(bytes@) {
            Ok((d, n)) => r matches Ok((v, m)) && v@ == d && m as nat == n,
            Err(e) => r == Err::<(Vec<u8>, usize), FrameError>(e),
        },
{
    let mut reader = LengthPrefixReader::new();
    let mut i: usize = 0;
    loop
        invariant
            i <= bytes@.len(),
            i <= 10,
            reader.wf(),
            reader.taken() == bytes@.take(i as int),
            read_length_from(bytes@, 0) == read_length_from(bytes@, i as nat),
        decreases bytes@.len() - i,
    {
        if i >= bytes.len() {
            return Err(FrameError::Incomplete);
        }
        let ghost before = reader.taken();
        let step = reader.push_byte(bytes[i]);
        proof {
            assert(reader.taken() == bytes@.take((i + 1) as int));
        }
        match step {
            LengthStep::NeedMore => {
                i = i + 1;
            },
            LengthStep::Complete(len) => {
                proof {
                    lemma_read_length_stops(bytes@, reader.taken(), i as nat);
                }
                let used = i + 1;
                if len > bytes.len() - used {
                    return Err(FrameError::Incomplete);
                }
                let payload = copy_range(bytes, used, used + len);
                return Ok((payload, used + len));
            },
            LengthStep::Failed(e) => {
                proof {
                    lemma_read_length_stops(bytes@, reader.taken(), i as nat);
                }
                return Err(e);
            },
        }
    }
}

/// 128 to the power `k`.
pub open spec fn pow128(k: nat) -> nat
    decreases k,
{
    if k == 0 {
        1
    } else {
        128 * pow128((k - 1) as nat)
    }
}

proof fn lemma_varint_len_bound(n: nat, k: nat)
    requires
        k >= 1,
        n < pow128(k),
    ensures
        spec_varint(n).len() <= k,
    decreases n,
{
    if n >= 128 {
        assert(k >= 2) by {
            if k == 1 {
                assert(pow128(1) == 128) by {
                    reveal_with_fuel(pow128, 2);
                }
            }
        }
        assert(n / 128 < pow128((k - 1) as nat));
        lemma_varint_len_bound(n / 128, (k - 1) as nat);
    }
}

/// Every byte of a varint but the last carries the continuation bit; the last
/// does not, and it is zero only when it is the only byte.
proof fn lemma_varint_shape(n: nat)
    ensures
        spec_varint(n).len() >= 1,
        forall|j: int| 0 <= j < spec_varint(n).len() - 1 ==> #[trigger] spec_varint(n)[j] >= 128,
        spec_varint(n)[spec_varint(n).len() - 1] < 128,
        spec_varint(n).len() > 1 ==> spec_varint(n)[spec_varint(n).len() - 1] != 0,
        varint_value(spec_varint(n)) == n,
    decreases n,
{
    if n >= 128 {
        lemma_varint_shape(n / 128);
        let head = seq![((n % 128) + 128) as u8];
        let tail = spec_varint(n / 128);
        assert(spec_varint(n) == head + tail);
        assert(spec_varint(n).drop_first() == tail);
        assert forall|j: int| 0 <= j < spec_varint(n).len() - 1 implies #[trigger] spec_varint(
            n,
        )[j] >= 128 by {
            if j > 0 {
                assert(spec_varint(n)[j] == tail[j - 1]);
            }
        }
        if tail.len() == 1 {
            assert(n / 128 >= 1);
            assert(tail[0] as nat == n / 128);
        }
        let b = ((n % 128) + 128) as u8;
        assert(b as nat == (n % 128) + 128);
        assert(b % 128 == n % 128);
        assert(spec_varint(n)[0] == b);
        assert(n == n % 128 + 128 * (n / 128));
    } else {
        assert(spec_varint(n).drop_first() =~= Seq::<u8>::empty());
        assert(varint_value(Seq::<u8>::empty()) == 0);
    }
}

/// The varint decoder, run on bytes whose first byte without the
/// continuation bit stands at index `k`, stops there.
proof fn lemma_varint_end(s: Seq<u8>, i: nat, k: nat)
    requires
        i <= k < s.len(),
        k <= varint_last_index(),
        forall|j: int| 0 <= j < k ==> #[trigger] s[j] >= 128,
        s[k as int] < 128,
        s[k as int] == 0 ==> k == 0,
    ensures
        varint_end_from(s, i) == Ok::<nat, VarintError>(k),
    decreases k - i,
{
    if i < k {
        lemma_varint_end(s, i + 1, k);
    }
}

/// Reading a length prefix in front of other bytes skips the continuation
/// bytes and then decodes the varint.
proof fn lemma_read_length_varint(s: Seq<u8>, n: nat, i: nat)
    requires
        n <= usize::MAX,
        s.len() >= spec_varint(n).len(),
        s.take(spec_varint(n).len() as int) == spec_varint(n),
        i < spec_varint(n).len(),
    ensures
        read_length_from(s, i) == Ok::<(nat, nat), FrameError>((n, spec_varint(n).len())),
    decreases spec_varint(n).len() - i,
{
    let v = spec_varint(n);
    let k = (v.len() - 1) as nat;
    lemma_varint_shape(n);
    assert(pow128(10) == 1180591620717411303424nat) by {
        reveal_with_fuel(pow128, 11);
    }
    assert(pow128(5) == 0x8_0000_0000nat) by {
        reveal_with_fuel(pow128, 6);
    }
    if usize::BITS == 64 {
        lemma_varint_len_bound(n, 10);
    } else {
        lemma_varint_len_bound(n, 5);
    }
    assert(s[i as int] == v[i as int]);
    if i < k {
        assert(s[i as int] >= 128);
        lemma_read_length_varint(s, n, i + 1);
    } else {
        let t = s.take((i + 1) as int);
        assert(t == v);
        lemma_varint_end(t, 0, k);
        assert(t.take((k + 1) as int) == v);
        assert(n < usize_modulus());
    }
}

/// Reading a frame gives back the data it was written from, whatever bytes
/// follow it on the stream, and consumes exactly the frame.
pub proof fn lemma_frame_roundtrip(data: Seq<u8>, rest: Seq<u8>)
    requires
        data.len() <= usize::MAX,
    ensures
        spec_decode_frame(spec_encode_frame(data) + rest) == Ok::<(Seq<u8>, nat), FrameError>(
            (data, spec_encode_frame(data).len()),
        ),
{
    let v = spec_varint(data.len());
    let s = spec_encode_frame(data) + rest;
    assert(s.take(v.len() as int) == v);
    lemma_read_length_varint(s, data.len(), 0);
    assert(s.subrange(v.len() as int, (v.len() + data.len()) as int) == data);
}

} // verus!
