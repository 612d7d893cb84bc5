//! Sequential big-endian reader over an immutable byte buffer.
//!
//! Every read either returns a value and advances the position by exactly
//! the consumed byte count, or returns `None` and (except for the
//! variable-length read, which consumes bytes as it scans) leaves the
//! position unchanged. The spec-level `spec_read_*` functions define the
//! exact outcome of each read over the byte sequence and are the
//! vocabulary of the decoder's contracts.

use vstd::arithmetic::power2::lemma2_to64;
use vstd::bits::lemma_u32_shl_is_mul;
use vstd::prelude::*;

verus! {

/// Outcome of reading one byte at `pos`: the byte and the new position.
pub open spec fn spec_read_u8(b: Seq<u8>, pos: int) -> Option<(u8, int)> {
    if 0 <= pos && pos + 1 <= b.len() {
        Some((b[pos], pos + 1))
    } else {
        None
    }
}

/// Outcome of reading a big-endian 16-bit integer at `pos`.
pub open spec fn spec_read_u16(b: Seq<u8>, pos: int) -> Option<(u16, int)> {
    if 0 <= pos && pos + 2 <= b.len() {
        Some((((b[pos] as int) * 0x100 + b[pos + 1] as int) as u16, pos + 2))
    } else {
        None
    }
}

/// Outcome of reading a big-endian 32-bit integer at `pos`.
pub open spec fn spec_read_u32(b: Seq<u8>, pos: int) -> Option<(u32, int)> {
    if 0 <= pos && pos + 4 <= b.len() {
        Some(
            (
                ((b[pos] as int) * 0x1000000 + (b[pos + 1] as int) * 0x10000 + (b[pos + 2] as int)
                    * 0x100 + b[pos + 3] as int) as u32,
                pos + 4,
            ),
        )
    } else {
        None
    }
}

/// Outcome of reading `n` raw bytes at `pos`.
pub open spec fn spec_read_range(b: Seq<u8>, pos: int, n: int) -> Option<(Seq<u8>, int)> {
    if 0 <= pos && 0 <= n && pos + n <= b.len() {
        Some((b.subrange(pos, pos + n), pos + n))
    } else {
        None
    }
}

/// One accumulation step of the variable-length decoding: fold the low
/// seven bits of a continuation byte into the running value and shift it
/// up, truncating to 32 bits as the executable code does.
pub open spec fn spec_var_step(value: u32, byte: u8) -> u32 {
    (((value + (byte & 0x7f)) as u32) << 7) as u32
}

/// The variable-length scan, at most `remaining` bytes left to examine.
/// A byte with the high bit clear ends the quantity; after four bytes the
/// scan stops with whatever value accumulated, even if the last byte
/// still had its continuation bit set.
pub open spec fn spec_var_loop(b: Seq<u8>, pos: int, value: u32, remaining: nat) -> Option<
    (int, int),
>
    decreases remaining,
{
    if remaining == 0 {
        Some((value as int, pos))
    } else if 0 <= pos && pos + 1 <= b.len() {
        let byte = b[pos];
        if byte & 0x80 == 0 {
            Some((value + byte, pos + 1))
        } else {
            spec_var_loop(b, pos + 1, spec_var_step(value, byte), (remaining - 1) as nat)
        }
    } else {
        None
    }
}

/// Outcome of reading a MIDI variable-length quantity at `pos`: up to
/// four bytes, seven payload bits each.
pub open spec fn spec_read_var_length(b: Seq<u8>, pos: int) -> Option<(int, int)> {
    spec_var_loop(b, pos, 0, 4)
}

/// A successful variable-length read lands strictly past `pos` and
/// within the buffer, and its value fits in 32 bits.
pub proof fn lemma_var_loop_advances(b: Seq<u8>, pos: int, value: u32, remaining: nat)
    ensures
        spec_var_loop(b, pos, value, remaining) matches Some((v, p)) ==> {
            &&& pos <= p <= b.len() || remaining == 0
            &&& p <= pos + remaining
            &&& 0 <= v < 0x1_0000_0100
            &&& remaining > 0 ==> pos < p
        },
    decreases remaining,
{
    if remaining > 0 && 0 <= pos && pos + 1 <= b.len() {
        let byte = b[pos];
        if byte & 0x80 != 0 {
            lemma_var_loop_advances(b, pos + 1, spec_var_step(value, byte), (remaining - 1) as nat);
        }
    }
}

/// The variable-length encoding of `v`: its base-128 digits, most
/// significant first, with the continuation bit set on every byte but the
/// last. Values up to four digits wide are representable.
pub open spec fn spec_encode_var_length(v: u32) -> Seq<u8> {
    if v < 0x80 {
        seq![v as u8]
    } else if v < 0x4000 {
        seq![(v / 0x80 + 0x80) as u8, (v % 0x80) as u8]
    } else if v < 0x200000 {
        seq![(v / 0x80 / 0x80 + 0x80) as u8, (v / 0x80 % 0x80 + 0x80) as u8, (v % 0x80) as u8]
    } else {
        seq![
            (v / 0x80 / 0x80 / 0x80 + 0x80) as u8,
            (v / 0x80 / 0x80 % 0x80 + 0x80) as u8,
            (v / 0x80 % 0x80 + 0x80) as u8,
            (v % 0x80) as u8,
        ]
    }
}

/// Encode a value below 2^28 as a MIDI variable-length quantity.
pub fn encode_var_length(v: u32) -> (r: Vec<u8>)
    requires
        v < 0x10000000,
    ensures
        r@ == spec_encode_var_length(v),
{
    let mut r: Vec<u8> = Vec::new();
    if v < 0x80 {
        r.push(v as u8);
    } else if v < 0x4000 {
        r.push((v / 0x80 + 0x80) as u8);
        r.push((v % 0x80) as u8);
    } else if v < 0x200000 {
        r.push((v / 0x80 / 0x80 + 0x80) as u8);
        r.push((v / 0x80 % 0x80 + 0x80) as u8);
        r.push((v % 0x80) as u8);
    } else {
        r.push((v / 0x80 / 0x80 / 0x80 + 0x80) as u8);
        r.push((v / 0x80 / 0x80 % 0x80 + 0x80) as u8);
        r.push((v / 0x80 % 0x80 + 0x80) as u8);
        r.push((v % 0x80) as u8);
    }
    proof {
        assert(r@ =~= spec_encode_var_length(v));
    }
    r
}

/// A continuation byte carrying digit `d` folds into the running value
/// as `(value + d) * 128` once the shift is read back as a
/// multiplication.
proof fn lemma_var_step_digit(value: u32, d: u32)
    requires
        d < 0x80,
        (value + d) * 128 <= u32::MAX,
    ensures
        spec_var_step(value, ((d + 0x80) as u8)) == (value + d) * 128,
        ((d + 0x80) as u8) & 0x80 != 0,
{
    let b: u8 = (d + 0x80) as u8;
    assert(b & 0x80 != 0 && b & 0x7f == d as u8) by (bit_vector)
        requires
            d < 0x80 && b == (d + 0x80) as u8,
    ;
    let sum: u32 = (value + (b & 0x7f)) as u32;
    assert(sum == value + d);
    lemma2_to64();
    lemma_u32_shl_is_mul(sum, 7);
}

/// Decoding inverts encoding: every value below 2^28 survives the round
/// trip through its variable-length form, and the read consumes exactly
/// the encoded bytes.
pub proof fn lemma_var_length_round_trip(v: u32)
    requires
        v < 0x10000000,
    ensures
        spec_read_var_length(spec_encode_var_length(v), 0) == Some(
            (v as int, spec_encode_var_length(v).len() as int),
        ),
{
    let s = spec_encode_var_length(v);
    assert(forall|x: u8| x < 0x80 ==> #[trigger] (x & 0x80) == 0) by (bit_vector);
    if v < 0x80 {
        assert(s[0] == v as u8);
        assert(spec_var_loop(s, 0, 0, 4) == Some((v as int, 1int)));
    } else if v < 0x4000 {
        let d1 = v / 0x80;
        let d0 = v % 0x80;
        lemma_var_step_digit(0, d1);
        assert(spec_var_loop(s, 0, 0, 4) == spec_var_loop(s, 1, (d1 * 128) as u32, 3));
        assert(d1 * 128 + d0 == v);
        assert(spec_var_loop(s, 1, (d1 * 128) as u32, 3) == Some((v as int, 2int)));
    } else if v < 0x200000 {
        let q1 = v / 0x80;
        let d2 = q1 / 0x80;
        let d1 = q1 % 0x80;
        let d0 = v % 0x80;
        lemma_var_step_digit(0, d2);
        assert(spec_var_loop(s, 0, 0, 4) == spec_var_loop(s, 1, (d2 * 128) as u32, 3));
        lemma_var_step_digit((d2 * 128) as u32, d1);
        assert(d2 * 128 + d1 == q1);
        assert(spec_var_loop(s, 1, (d2 * 128) as u32, 3) == spec_var_loop(
            s,
            2,
            (q1 * 128) as u32,
            2,
        ));
        assert(q1 * 128 + d0 == v);
        assert(spec_var_loop(s, 2, (q1 * 128) as u32, 2) == Some((v as int, 3int)));
    } else {
        let q1 = v / 0x80;
        let q2 = v / 0x80 / 0x80;
        let d3 = q2 / 0x80;
        let d2 = q2 % 0x80;
        let d1 = q1 % 0x80;
        let d0 = v % 0x80;
        lemma_var_step_digit(0, d3);
        assert(spec_var_loop(s, 0, 0, 4) == spec_var_loop(s, 1, (d3 * 128) as u32, 3));
        lemma_var_step_digit((d3 * 128) as u32, d2);
        assert(d3 * 128 + d2 == q2);
        assert(spec_var_loop(s, 1, (d3 * 128) as u32, 3) == spec_var_loop(
            s,
            2,
            (q2 * 128) as u32,
            2,
        ));
        lemma_var_step_digit((q2 * 128) as u32, d1);
        assert(q2 * 128 + d1 == q1);
        assert(spec_var_loop(s, 2, (q2 * 128) as u32, 2) == spec_var_loop(
            s,
            3,
            (q1 * 128) as u32,
            1,
        ));
        assert(q1 * 128 + d0 == v);
        assert(spec_var_loop(s, 3, (q1 * 128) as u32, 1) == Some((v as int, 4int)));
    }
}

/// Sequential reader over a borrowed byte buffer. The read position never
/// exceeds the buffer length.
pub struct BigEndianReader<'a> {
    buffer: &'a [u8],
    pointer: usize,
}

impl<'a> BigEndianReader<'a> {
    /// The bytes this reader walks over.
    pub closed spec fn spec_buffer(&self) -> Seq<u8> {
        self.buffer@
    }

    /// The current read position.
    pub closed spec fn spec_pos(&self) -> int {
        self.pointer as int
    }

    /// The position stays within the buffer.
    pub open spec fn wf(&self) -> bool {
        0 <= self.spec_pos() <= self.spec_buffer().len()
    }

    pub fn new(buffer: &'a [u8]) -> (r: Self)
        ensures
            r.spec_buffer() == buffer@,
            r.spec_pos() == 0,
            r.wf(),
    {
        Self { buffer, pointer: 0usize }
    }

    /// How many bytes remain unread.
    pub fn left_bytes(&self) -> (r: usize)
        requires
            self.wf(),
        ensures
            r == self.spec_buffer().len() - self.spec_pos(),
            self.spec_buffer().len() <= usize::MAX,
    {
        self.buffer.len() - self.pointer
    }

    pub fn read_u8(&mut self) -> (r: Option<u8>)
        requires
            old(self).wf(),
        ensures
            final(self).wf(),
            final(self).spec_buffer() == old(self).spec_buffer(),
            match spec_read_u8(old(self).spec_buffer(), old(self).spec_pos()) {
                Some((v, p)) => r == Some(v) && final(self).spec_pos() == p,
                None => r is None && final(self).spec_pos() == old(self).spec_pos(),
            },
    {
        if self.left_bytes() >= 1 {
            let v = self.buffer[self.pointer];
            self.pointer = self.pointer + 1;
            Some(v)
        } else {
            None
        }
    }

    pub fn read_u16(&mut self) -> (r: Option<u16>)
        requires
            old(self).wf(),
        ensures
            final(self).wf(),
            final(self).spec_buffer() == old(self).spec_buffer(),
            match spec_read_u16(old(self).spec_buffer(), old(self).spec_pos()) {
                Some((v, p)) => r == Some(v) && final(self).spec_pos() == p,
                None => r is None && final(self).spec_pos() == old(self).spec_pos(),
            },
    {
        if self.left_bytes() >= 2 {
            let hi = self.buffer[self.pointer];
            let lo = self.buffer[self.pointer + 1];
            self.pointer = self.pointer + 2;
            Some((hi as u16) * 0x100 + (lo as u16))
        } else {
            None
        }
    }

    pub fn read_u32(&mut self) -> (r: Option<u32>)
        requires
            old(self).wf(),
        ensures
            final(self).wf(),
            final(self).spec_buffer() == old(self).spec_buffer(),
            match spec_read_u32(old(self).spec_buffer(), old(self).spec_pos()) {
                Some((v, p)) => r == Some(v) && final(self).spec_pos() == p,
                None => r is None && final(self).spec_pos() == old(self).spec_pos(),
            },
    {
        if self.left_bytes() >= 4 {
            let b0 = self.buffer[self.pointer];
            let b1 = self.buffer[self.pointer + 1];
            let b2 = self.buffer[self.pointer + 2];
            let b3 = self.buffer[self.pointer + 3];
            self.pointer = self.pointer + 4;
            Some((b0 as u32) * 0x1000000 + (b1 as u32) * 0x10000 + (b2 as u32) * 0x100 + (b3 as u32))
        } else {
            None
        }
    }

    /// Look at the next byte without advancing.
    pub fn peek(&self) -> (r: Option<u8>)
        requires
            self.wf(),
        ensures
            match spec_read_u8(self.spec_buffer(), self.spec_pos()) {
                Some((v, _)) => r == Some(v),
                None => r is None,
            },
    {
        if self.pointer < self.buffer.len() {
            Some(self.buffer[self.pointer])
        } else {
            None
        }
    }

    /// Read `n` raw bytes, returned as a borrowed slice of the buffer.
    pub fn read_range(&mut self, n: usize) -> (r: Option<&'a [u8]>)
        requires
            old(self).wf(),
        ensures
            final(self).wf(),
            final(self).spec_buffer() == old(self).spec_buffer(),
            match spec_read_range(old(self).spec_buffer(), old(self).spec_pos(), n as int) {
                Some((v, p)) => r matches Some(s) && s@ == v && final(self).spec_pos() == p,
                None => r is None && final(self).spec_pos() == old(self).spec_pos(),
            },
    {
        if self.left_bytes() >= n {
            let r = &self.buffer[self.pointer..self.pointer + n];
            self.pointer = self.pointer + n;
            Some(r)
        } else {
            None
        }
    }

    /// Read a MIDI variable-length quantity: up to four bytes, each
    /// contributing seven bits, the high bit flagging continuation.
    #[verifier::loop_isolation(false)]
    pub fn read_var_length(&mut self) -> (r: Option<u32>)
        requires
            old(self).wf(),
        ensures
            final(self).wf(),
            final(self).spec_buffer() == old(self).spec_buffer(),
            match spec_read_var_length(old(self).spec_buffer(), old(self).spec_pos()) {
                Some((v, p)) => r matches Some(x) && x as int == v && final(self).spec_pos() == p,
                None => r is None && final(self).spec_pos() == old(self).spec_buffer().len(),
            },
    {
        let ghost b = self.buffer@;
        let ghost pos0 = self.pointer as int;
        let mut value: u32 = 0;
        let mut count: usize = 0;
        while count < 4
            invariant
                self.wf(),
                self.spec_buffer() == b,
                count <= 4,
                spec_var_loop(b, pos0, 0, 4) == spec_var_loop(
                    b,
                    self.spec_pos(),
                    value,
                    (4 - count) as nat,
                ),
                count == 0 ==> value == 0,
                count == 1 ==> value <= 0x3F80,
                count == 2 ==> value <= 0x1FFF80,
                count == 3 ==> value <= 0xFFFFF80,
            decreases 4 - count,
        {
            match self.read_u8() {
                None => {
                    return None;
                },
                Some(byte) => {
                    if byte & 0x80 == 0 {
                        return Some(value + byte as u32);
                    } else {
                        assert(byte & 0x7f <= 0x7f) by (bit_vector);
                        value = (value + ((byte & 0x7f) as u32)) << 7;
                        count = count + 1;
                        proof {
                            assert(forall|x: u32|
                                (x <= 0x7F ==> #[trigger] (x << 7) <= 0x3F80) && (x <= 0x3FFF ==> (
                                x << 7) <= 0x1FFF80) && (x <= 0x1FFFFF ==> (x << 7) <= 0xFFFFF80))
                                by (bit_vector);
                        }
                    }
                },
            }
        }
        Some(value)
    }
}

} // verus!
