//! A decoder for the VCDIFF delta format (RFC 3284) as Ably channels use it
//! for delta-compressed messages: a header, then windows, each holding RUN,
//! ADD and COPY instructions that rebuild the target from a source.
//!
//! The format is specified here by the spec function `spec_decode`, over the
//! delta bytes, the source bytes and the output limit; the decoder computes
//! exactly that.

use super::DeltaDecoder;
use crate::error::{AblyError, AblyResult};
use crate::text::owned;
use vstd::prelude::*;

verus! {

/// The default limit on decoded output: 64 MiB.
pub const DEFAULT_MAX_OUTPUT_SIZE: usize = 67108864;

/// Why a delta could not be decoded.
#[derive(PartialEq, Eq, Structural)]
pub enum VcdiffFault {
    /// A single byte (an indicator, an instruction operand or a varint byte)
    /// lies past the end of the input.
    ByteEof,
    /// A variable-length integer continues past 64 bits.
    VarintTooLarge,
    /// The input is shorter than the four magic bytes.
    MagicEof,
    /// The input does not start with `VCD`.
    BadMagic,
    /// The header indicator lies past the end of the input.
    IndicatorEof,
    /// The custom code table is longer than what remains.
    CodeTableEof,
    /// The version byte is not 0.
    BadVersion,
    /// A window's delta encoding is longer than what remains.
    DeltaDataEof,
    /// An ADD instruction's data is longer than what remains.
    AddDataEof,
    /// A COPY address points neither into the source nor into the output
    /// decoded so far.
    BadCopyAddress,
    /// A window's output grew past the limit.
    WindowTooLarge,
    /// The total output grew past the limit.
    OutputTooLarge,
}

/// The message of the decode error the decoder reports for a fault.
pub open spec fn fault_message(f: VcdiffFault) -> Seq<char> {
    match f {
        VcdiffFault::ByteEof => "Failed to read byte: failed to fill whole buffer"@,
        VcdiffFault::VarintTooLarge => "Variable integer too large"@,
        VcdiffFault::MagicEof => "Failed to read VCDIFF magic: failed to fill whole buffer"@,
        VcdiffFault::BadMagic => "Invalid VCDIFF magic bytes"@,
        VcdiffFault::IndicatorEof => "Failed to read header indicator: failed to fill whole buffer"@,
        VcdiffFault::CodeTableEof => "Failed to read code table: failed to fill whole buffer"@,
        VcdiffFault::BadVersion => "Invalid VCDIFF header"@,
        VcdiffFault::DeltaDataEof => "Failed to read delta data: failed to fill whole buffer"@,
        VcdiffFault::AddDataEof => "Failed to read ADD data: failed to fill whole buffer"@,
        VcdiffFault::BadCopyAddress => "Invalid COPY address"@,
        VcdiffFault::WindowTooLarge => "Output size exceeds limit during decode"@,
        VcdiffFault::OutputTooLarge => "Decoded output exceeds maximum size limit"@,
    }
}

/// `e` is the decode error the decoder reports for fault `f`.
pub open spec fn is_fault_error(e: AblyError, f: VcdiffFault) -> bool {
    e matches AblyError::Decode { message } && message@ == fault_message(f)
}

/// The exec result `r` agrees with the spec result `s`: the same value on
/// success, the error of the same fault on failure.
pub open spec fn agrees<T, U>(r: AblyResult<T>, s: Result<U, VcdiffFault>, same: spec_fn(T, U) -> bool) -> bool {
    match (r, s) {
        (Ok(a), Ok(b)) => same(a, b),
        (Err(e), Err(f)) => is_fault_error(e, f),
        _ => false,
    }
}

/// Reads the byte at position `p`.
pub open spec fn read_byte_at(d: Seq<u8>, p: int) -> Result<(u8, int), VcdiffFault> {
    if 0 <= p < d.len() {
        Ok((d[p], p + 1))
    } else {
        Err(VcdiffFault::ByteEof)
    }
}

/// Continues reading a little-endian base-128 integer at position `p`,
/// with `acc` holding the bits read so far and `shift` the position of the
/// next seven bits.
pub open spec fn varint_from(d: Seq<u8>, p: int, shift: u64, acc: u64) -> Result<(u64, int), VcdiffFault>
    decreases 64 - shift,
{
    if !(0 <= p < d.len()) {
        Err(VcdiffFault::ByteEof)
    } else if shift >= 64 {
        Err(VcdiffFault::VarintTooLarge)
    } else {
        let b = d[p];
        let acc2 = acc | (((b & 0x7f) as u64) << shift);
        if b & 0x80 == 0 {
            Ok((acc2, p + 1))
        } else if shift + 7 >= 64 {
            Err(VcdiffFault::VarintTooLarge)
        } else {
            varint_from(d, p + 1, (shift + 7) as u64, acc2)
        }
    }
}

/// Reads a little-endian base-128 integer at position `p`: seven bits per
/// byte, low bits first, a set high bit marking continuation, at most ten
/// bytes.
pub open spec fn read_varint_at(d: Seq<u8>, p: int) -> Result<(u64, int), VcdiffFault> {
    varint_from(d, p, 0, 0)
}

/// Parses the header: the magic `VCD`, the version byte, the indicator,
/// then the secondary compressor id (indicator bit 0) and the custom code
/// table (indicator bit 1). Yields the version and the position after the
/// header.
pub open spec fn parse_header(d: Seq<u8>) -> Result<(u8, int), VcdiffFault> {
    if d.len() < 4 {
        Err(VcdiffFault::MagicEof)
    } else if d[0] != 0x56u8 || d[1] != 0x43u8 || d[2] != 0x44u8 {
        Err(VcdiffFault::BadMagic)
    } else if d.len() < 5 {
        Err(VcdiffFault::IndicatorEof)
    } else {
        let version = d[3];
        let ind = d[4];
        let after_compressor: Result<int, VcdiffFault> = if ind & 1 != 0 {
            match read_byte_at(d, 5) {
                Ok((_, p)) => Ok(p),
                Err(f) => Err(f),
            }
        } else {
            Ok(5)
        };
        match after_compressor {
            Err(f) => Err(f),
            Ok(p) => if ind & 2 != 0 {
                match read_varint_at(d, p) {
                    Err(f) => Err(f),
                    Ok((len, q)) => if len > d.len() - q {
                        Err(VcdiffFault::CodeTableEof)
                    } else {
                        Ok((version, q + len))
                    },
                }
            } else {
                Ok((version, p))
            },
        }
    }
}

/// Skips `n` varints (`n <= 2`) at position `p`.
pub open spec fn skip_varints(d: Seq<u8>, p: int, n: nat) -> Result<int, VcdiffFault>
    decreases n,
{
    if n == 0 {
        Ok(p)
    } else {
        match read_varint_at(d, p) {
            Err(f) => Err(f),
            Ok((_, q)) => skip_varints(d, q, (n - 1) as nat),
        }
    }
}

/// Parses a window at position `p`: the indicator, the source segment
/// (indicator bit 0: size and position), the target segment size (indicator
/// bit 1), the length of the delta encoding and of the target window, then
/// the delta encoding itself. Yields the delta encoding and the position
/// after the window.
pub open spec fn parse_window(d: Seq<u8>, p: int) -> Result<(Seq<u8>, int), VcdiffFault> {
    match read_byte_at(d, p) {
        Err(f) => Err(f),
        Ok((ind, p1)) => {
            let skipped: nat = (if ind & 1 != 0 { 2nat } else { 0nat }) + (if ind & 2 != 0 {
                1nat
            } else {
                0nat
            });
            match skip_varints(d, p1, skipped) {
                Err(f) => Err(f),
                Ok(p2) => match read_varint_at(d, p2) {
                    Err(f) => Err(f),
                    Ok((dlen, p3)) => match read_varint_at(d, p3) {
                        Err(f) => Err(f),
                        Ok((_, p4)) => if dlen > d.len() - p4 {
                            Err(VcdiffFault::DeltaDataEof)
                        } else {
                            Ok((d.subrange(p4, p4 + dlen), p4 + dlen))
                        },
                    },
                },
            }
        },
    }
}

/// The output after one instruction at position `p` of a delta encoding,
/// with the position after it: RUN (0x00-0x15) repeats the next byte
/// `instr + 1` times; ADD (0x16-0x3F) appends the next `instr - 0x15` bytes;
/// COPY (0x40-0xFF) appends up to `instr - 0x3F` bytes from the address that
/// follows, an address below the source's length reading the source and a
/// larger one reading the output decoded so far.
pub open spec fn step_instruction(data: Seq<u8>, p: int, source: Seq<u8>, out: Seq<u8>) -> Result<(Seq<u8>, int), VcdiffFault>
    recommends
        0 <= p < data.len(),
{
    let instr = data[p];
    if instr <= 0x15 {
        let size = instr + 1;
        match read_byte_at(data, p + 1) {
            Err(f) => Err(f),
            Ok((b, q)) => Ok((out + Seq::new(size as nat, |i: int| b), q)),
        }
    } else if instr <= 0x3F {
        let size = instr - 0x15;
        if size > data.len() - (p + 1) {
            Err(VcdiffFault::AddDataEof)
        } else {
            Ok((out + data.subrange(p + 1, p + 1 + size), p + 1 + size))
        }
    } else {
        let size = instr - 0x3F;
        match read_varint_at(data, p + 1) {
            Err(f) => Err(f),
            Ok((addr, q)) => if addr < source.len() {
                let end = if addr + size < source.len() { addr + size } else { source.len() as int };
                Ok((out + source.subrange(addr as int, end), q))
            } else if addr - source.len() < out.len() {
                let ta = addr - source.len();
                let end = if ta + size < out.len() { ta + size } else { out.len() as int };
                Ok((out + out.subrange(ta, end), q))
            } else {
                Err(VcdiffFault::BadCopyAddress)
            },
        }
    }
}

/// Runs the instructions of a delta encoding from position `p`, with `out`
/// the output so far; fails when the output grows past `max`.
pub open spec fn run_instructions(data: Seq<u8>, p: int, source: Seq<u8>, out: Seq<u8>, max: nat) -> Result<Seq<u8>, VcdiffFault>
    decreases data.len() - p,
{
    if !(0 <= p < data.len()) {
        Ok(out)
    } else {
        proof {
            lemma_step_advances(data, p, source, out);
        }
        match step_instruction(data, p, source, out) {
            Err(f) => Err(f),
            Ok((out2, q)) => if out2.len() > max {
                Err(VcdiffFault::WindowTooLarge)
            } else {
                run_instructions(data, q, source, out2, max)
            },
        }
    }
}

/// Decodes the windows from position `p` onwards, with `out` the output of
/// the windows before; fails when the output grows past `max`.
pub open spec fn decode_windows(d: Seq<u8>, p: int, source: Seq<u8>, out: Seq<u8>, max: nat) -> Result<Seq<u8>, VcdiffFault>
    decreases d.len() - p,
{
    if !(0 <= p < d.len()) {
        Ok(out)
    } else {
        proof {
            lemma_window_advances(d, p);
        }
        match parse_window(d, p) {
            Err(f) => Err(f),
            Ok((delta, q)) => match run_instructions(delta, 0, source, Seq::empty(), max) {
                Err(f) => Err(f),
                Ok(w) => if out.len() + w.len() > max {
                    Err(VcdiffFault::OutputTooLarge)
                } else {
                    decode_windows(d, q, source, out + w, max)
                },
            },
        }
    }
}

/// The result of decoding the VCDIFF delta `d` against `source` with the
/// output limited to `max` bytes.
pub open spec fn spec_decode(d: Seq<u8>, source: Seq<u8>, max: nat) -> Result<Seq<u8>, VcdiffFault> {
    match parse_header(d) {
        Err(f) => Err(f),
        Ok((version, p)) => if version != 0 {
            Err(VcdiffFault::BadVersion)
        } else {
            decode_windows(d, p, source, Seq::empty(), max)
        },
    }
}

/// The little-endian base-128 encoding of `v` that `MockVcdiffEncoder`
/// writes: seven bits per byte, low bits first, the high bit set on every
/// byte but the last.
pub open spec fn spec_write_varint(v: u64) -> Seq<u8>
    decreases v
    via write_varint_decreases
{
    if v < 0x80 {
        seq![v as u8]
    } else {
        seq![((v & 0x7f) as u8) | 0x80u8] + spec_write_varint(v >> 7)
    }
}

#[via_fn]
proof fn write_varint_decreases(v: u64) {
    if v >= 0x80 {
        assert(v >= 0x80 ==> (v >> 7) < v) by (bit_vector);
    }
}

/// A position into a byte slice from which the decoder reads.
pub struct ByteCursor<'a> {
    data: &'a [u8],
    pos: usize,
}

impl<'a> ByteCursor<'a> {
    #[verifier::type_invariant]
    spec fn inv(&self) -> bool {
        self.pos <= self.data@.len()
    }

    /// The bytes read from.
    pub closed spec fn spec_data(&self) -> Seq<u8> {
        self.data@
    }

    /// The position of the next byte.
    pub closed spec fn spec_pos(&self) -> int {
        self.pos as int
    }

    /// A cursor at the start of `data`.
    pub fn new(data: &'a [u8]) -> (c: ByteCursor<'a>)
        ensures
            c.spec_data() == data@,
            c.spec_pos() == 0,
    {
        ByteCursor { data, pos: 0 }
    }

    /// The position of the next byte.
    pub fn position(&self) -> (p: u64)
        ensures
            p == self.spec_pos(),
            p <= self.spec_data().len(),
    {
        proof {
            use_type_invariant(self);
        }
        self.pos as u64
    }

    /// Whether the cursor has reached the end.
    fn at_end(&self) -> (b: bool)
        ensures
            b == (self.spec_pos() >= self.spec_data().len()),
            0 <= self.spec_pos() <= self.spec_data().len(),
    {
        proof {
            use_type_invariant(self);
        }
        self.pos >= self.data.len()
    }

    /// The number of bytes left.
    fn remaining(&self) -> (n: usize)
        ensures
            n == self.spec_data().len() - self.spec_pos(),
            0 <= self.spec_pos() <= self.spec_data().len(),
    {
        proof {
            use_type_invariant(self);
        }
        self.data.len() - self.pos
    }

    /// Takes the next byte, if there is one.
    fn next_byte(&mut self) -> (r: Option<u8>)
        ensures
            final(self).spec_data() == old(self).spec_data(),
            match r {
                Some(b) => read_byte_at(old(self).spec_data(), old(self).spec_pos()) == Ok::<
                    (u8, int),
                    VcdiffFault,
                >((b, final(self).spec_pos())),
                None => read_byte_at(old(self).spec_data(), old(self).spec_pos()) is Err
                    && final(self).spec_pos() == old(self).spec_pos(),
            },
    {
        proof {
            use_type_invariant(&*self);
        }
        if self.pos < self.data.len() {
            let b = self.data[self.pos];
            self.pos = self.pos + 1;
            Some(b)
        } else {
            None
        }
    }

    /// Appends the next `n` bytes to `out` and moves past them, when that
    /// many remain.
    fn take_into(&mut self, n: usize, out: &mut Vec<u8>) -> (ok: bool)
        ensures
            final(self).spec_data() == old(self).spec_data(),
            ok == (n <= old(self).spec_data().len() - old(self).spec_pos()),
            ok ==> final(self).spec_pos() == old(self).spec_pos() + n && final(out)@ == old(out)@
                + old(self).spec_data().subrange(old(self).spec_pos(), old(self).spec_pos() + n),
            !ok ==> final(self).spec_pos() == old(self).spec_pos() && final(out)@ == old(out)@,
    {
        proof {
            use_type_invariant(&*self);
        }
        if n > self.data.len() - self.pos {
            return false;
        }
        let start = self.pos;
        push_range(out, self.data, start, start + n);
        self.pos = start + n;
        true
    }
}

/// Appends `src[start..end]` to `out`.
fn push_range(out: &mut Vec<u8>, src: &[u8], start: usize, end: usize)
    requires
        start <= end <= src@.len(),
    ensures
        final(out)@ == old(out)@ + src@.subrange(start as int, end as int),
{
    let mut i = start;
    while i < end
        invariant
            start <= i <= end <= src@.len(),
            out@ == old(out)@ + src@.subrange(start as int, i as int),
        decreases end - i,
    {
        out.push(src[i]);
        i = i + 1;
        proof {
            assert(src@.subrange(start as int, i as int) =~= src@.subrange(start as int, i - 1).push(src@[i - 1]));
        }
    }
}

/// Appends `out[start..end]` (as it was before) to `out` itself.
fn push_own_range(out: &mut Vec<u8>, start: usize, end: usize)
    requires
        start <= end <= old(out)@.len(),
    ensures
        final(out)@ == old(out)@ + old(out)@.subrange(start as int, end as int),
{
    let ghost orig = out@;
    let mut i = start;
    while i < end
        invariant
            start <= i <= end <= orig.len(),
            out@ == orig + orig.subrange(start as int, i as int),
        decreases end - i,
    {
        let b = out[i];
        assert(b == orig[i as int]);
        out.push(b);
        i = i + 1;
        proof {
            assert(orig.subrange(start as int, i as int) =~= orig.subrange(start as int, i - 1).push(orig[i - 1]));
        }
    }
}

fn fault_error(f: VcdiffFault) -> (e: AblyError)
    ensures
        is_fault_error(e, f),
{
    let message: &str = match f {
        VcdiffFault::ByteEof => "Failed to read byte: failed to fill whole buffer",
        VcdiffFault::VarintTooLarge => "Variable integer too large",
        VcdiffFault::MagicEof => "Failed to read VCDIFF magic: failed to fill whole buffer",
        VcdiffFault::BadMagic => "Invalid VCDIFF magic bytes",
        VcdiffFault::IndicatorEof => "Failed to read header indicator: failed to fill whole buffer",
        VcdiffFault::CodeTableEof => "Failed to read code table: failed to fill whole buffer",
        VcdiffFault::BadVersion => "Invalid VCDIFF header",
        VcdiffFault::DeltaDataEof => "Failed to read delta data: failed to fill whole buffer",
        VcdiffFault::AddDataEof => "Failed to read ADD data: failed to fill whole buffer",
        VcdiffFault::BadCopyAddress => "Invalid COPY address",
        VcdiffFault::WindowTooLarge => "Output size exceeds limit during decode",
        VcdiffFault::OutputTooLarge => "Decoded output exceeds maximum size limit",
    };
    AblyError::Decode { message: owned(message) }
}

/// Reading a varint moves forward by at least one byte.
pub proof fn lemma_varint_advances(d: Seq<u8>, p: int, shift: u64, acc: u64)
    ensures
        varint_from(d, p, shift, acc) matches Ok((_, q)) ==> q > p && q <= d.len(),
    decreases 64 - shift,
{
    if 0 <= p < d.len() && shift < 64 {
        let b = d[p];
        let acc2 = acc | (((b & 0x7f) as u64) << shift);
        if b & 0x80 != 0 && shift + 7 < 64 {
            lemma_varint_advances(d, p + 1, (shift + 7) as u64, acc2);
        }
    }
}

/// Skipping varints never moves backwards.
pub proof fn lemma_skip_advances(d: Seq<u8>, p: int, n: nat)
    ensures
        skip_varints(d, p, n) matches Ok(q) ==> q >= p,
    decreases n,
{
    if n > 0 {
        lemma_varint_advances(d, p, 0, 0);
        if let Ok((_, q)) = read_varint_at(d, p) {
            lemma_skip_advances(d, q, (n - 1) as nat);
        }
    }
}

/// A window occupies at least one byte.
pub proof fn lemma_window_advances(d: Seq<u8>, p: int)
    ensures
        parse_window(d, p) matches Ok((_, q)) ==> q > p && q <= d.len(),
{
    if let Ok((ind, p1)) = read_byte_at(d, p) {
        let skipped: nat = (if ind & 1 != 0 { 2nat } else { 0nat }) + (if ind & 2 != 0 {
            1nat
        } else {
            0nat
        });
        lemma_skip_advances(d, p1, skipped);
        if let Ok(p2) = skip_varints(d, p1, skipped) {
            lemma_varint_advances(d, p2, 0, 0);
            if let Ok((_, p3)) = read_varint_at(d, p2) {
                lemma_varint_advances(d, p3, 0, 0);
            }
        }
    }
}

/// An instruction occupies at least one byte.
pub proof fn lemma_step_advances(data: Seq<u8>, p: int, source: Seq<u8>, out: Seq<u8>)
    requires
        0 <= p < data.len(),
    ensures
        step_instruction(data, p, source, out) matches Ok((_, q)) ==> q > p && q <= data.len(),
{
    lemma_varint_advances(data, p + 1, 0, 0);
}

/// The VCDIFF delta decoder, with a limit on the decoded output.
#[derive(Debug, Clone)]
pub struct VcdiffDecoder {
    /// The largest output allowed, in bytes.
    pub max_output_size: usize,
}

impl VcdiffDecoder {
    /// A decoder with the default 64 MiB output limit.
    pub fn new() -> (d: VcdiffDecoder)
        ensures
            d.max_output_size == DEFAULT_MAX_OUTPUT_SIZE,
    {
        VcdiffDecoder { max_output_size: DEFAULT_MAX_OUTPUT_SIZE }
    }

    /// A decoder with the given output limit.
    pub fn with_max_output_size(max_size: usize) -> (d: VcdiffDecoder)
        ensures
            d.max_output_size == max_size,
    {
        VcdiffDecoder { max_output_size: max_size }
    }

    /// Reads one byte.
    pub fn read_byte(&self, cursor: &mut ByteCursor) -> (r: AblyResult<u8>)
        ensures
            final(cursor).spec_data() == old(cursor).spec_data(),
            agrees(
                r,
                read_byte_at(old(cursor).spec_data(), old(cursor).spec_pos()),
                |b: u8, s: (u8, int)| b == s.0 && final(cursor).spec_pos() == s.1,
            ),
    {
        match cursor.next_byte() {
            Some(b) => Ok(b),
            None => Err(fault_error(VcdiffFault::ByteEof)),
        }
    }

    /// Reads a little-endian base-128 integer.
    pub fn read_varint(&self, cursor: &mut ByteCursor) -> (r: AblyResult<u64>)
        ensures
            final(cursor).spec_data() == old(cursor).spec_data(),
            agrees(
                r,
                read_varint_at(old(cursor).spec_data(), old(cursor).spec_pos()),
                |v: u64, s: (u64, int)| v == s.0 && final(cursor).spec_pos() == s.1,
            ),
    {
        let ghost d = cursor.spec_data();
        let ghost start = cursor.spec_pos();
        let mut result: u64 = 0;
        let mut shift: u64 = 0;
        loop
            invariant
                cursor.spec_data() == d,
                d == old(cursor).spec_data(),
                start == old(cursor).spec_pos(),
                shift < 64,
                varint_from(d, cursor.spec_pos(), shift, result) == read_varint_at(d, start),
            decreases 64 - shift,
        {
            let ghost p = cursor.spec_pos();
            let b = match cursor.next_byte() {
                Some(b) => b,
                None => {
                    return Err(fault_error(VcdiffFault::ByteEof));
                },
            };
            result = result | (((b & 0x7f) as u64) << shift);
            if b & 0x80 == 0 {
                return Ok(result);
            }
            if shift + 7 >= 64 {
                return Err(fault_error(VcdiffFault::VarintTooLarge));
            }
            shift = shift + 7;
        }
    }

    /// Parses the header; yields the version byte.
    fn parse_header(&self, cursor: &mut ByteCursor) -> (r: AblyResult<u8>)
        requires
            old(cursor).spec_pos() == 0,
        ensures
            final(cursor).spec_data() == old(cursor).spec_data(),
            agrees(
                r,
                parse_header(old(cursor).spec_data()),
                |v: u8, s: (u8, int)| v == s.0 && final(cursor).spec_pos() == s.1,
            ),
    {
        let ghost d = cursor.spec_data();
        if cursor.remaining() < 4 {
            return Err(fault_error(VcdiffFault::MagicEof));
        }
        let b0 = cursor.next_byte();
        let b1 = cursor.next_byte();
        let b2 = cursor.next_byte();
        let b3 = cursor.next_byte();
        let (m0, m1, m2, version) = match (b0, b1, b2, b3) {
            (Some(a), Some(b), Some(c), Some(v)) => (a, b, c, v),
            _ => {
                return Err(fault_error(VcdiffFault::MagicEof));
            },
        };
        if m0 != 0x56 || m1 != 0x43 || m2 != 0x44 {
            return Err(fault_error(VcdiffFault::BadMagic));
        }
        let indicator = match cursor.next_byte() {
            Some(i) => i,
            None => {
                return Err(fault_error(VcdiffFault::IndicatorEof));
            },
        };
        if indicator & 0x01 != 0 {
            let _secondary_compressor_id = match self.read_byte(cursor) {
                Ok(v) => v,
                Err(e) => {
                    return Err(e);
                },
            };
        }
        if indicator & 0x02 != 0 {
            let length = match self.read_varint(cursor) {
                Ok(v) => v,
                Err(e) => {
                    return Err(e);
                },
            };
            if length > cursor.remaining() as u64 {
                return Err(fault_error(VcdiffFault::CodeTableEof));
            }
            let mut code_table: Vec<u8> = Vec::new();
            let ok = cursor.take_into(length as usize, &mut code_table);
        }
        Ok(version)
    }

    /// Parses a window; yields its delta encoding.
    fn parse_window(&self, cursor: &mut ByteCursor) -> (r: AblyResult<Vec<u8>>)
        ensures
            final(cursor).spec_data() == old(cursor).spec_data(),
            agrees(
                r,
                parse_window(old(cursor).spec_data(), old(cursor).spec_pos()),
                |v: Vec<u8>, s: (Seq<u8>, int)| v@ == s.0 && final(cursor).spec_pos() == s.1,
            ),
    {
        proof {
            reveal_with_fuel(skip_varints, 4);
        }
        let ghost d = cursor.spec_data();
        let ghost p0 = cursor.spec_pos();
        let window_indicator = match self.read_byte(cursor) {
            Ok(v) => v,
            Err(e) => {
                return Err(e);
            },
        };
        let ghost p1 = cursor.spec_pos();
        if window_indicator & 0x01 != 0 {
            let _source_segment_size = match self.read_varint(cursor) {
                Ok(v) => v,
                Err(e) => {
                    return Err(e);
                },
            };
            let _source_segment_position = match self.read_varint(cursor) {
                Ok(v) => v,
                Err(e) => {
                    return Err(e);
                },
            };
        }
        if window_indicator & 0x02 != 0 {
            let _target_segment_size = match self.read_varint(cursor) {
                Ok(v) => v,
                Err(e) => {
                    return Err(e);
                },
            };
        }
        proof {
            let skipped: nat = (if window_indicator & 1 != 0 { 2nat } else { 0nat }) + (if window_indicator & 2 != 0 {
                1nat
            } else {
                0nat
            });
            assert(skip_varints(d, p1, skipped) == Ok::<int, VcdiffFault>(cursor.spec_pos())) by {
                reveal_with_fuel(skip_varints, 4);
            }
        }
        let delta_encoding_length = match self.read_varint(cursor) {
            Ok(v) => v,
            Err(e) => {
                return Err(e);
            },
        };
        let _target_window_length = match self.read_varint(cursor) {
            Ok(v) => v,
            Err(e) => {
                return Err(e);
            },
        };
        if delta_encoding_length > cursor.remaining() as u64 {
            return Err(fault_error(VcdiffFault::DeltaDataEof));
        }
        let mut delta_data: Vec<u8> = Vec::new();
        let ok = cursor.take_into(delta_encoding_length as usize, &mut delta_data);
        assert(delta_data@ =~= Seq::<u8>::empty() + d.subrange(
            cursor.spec_pos() - delta_encoding_length,
            cursor.spec_pos() as int,
        ));
        Ok(delta_data)
    }

    /// Runs the instructions of a window's delta encoding.
    fn decode_window(&self, delta: &Vec<u8>, source: &[u8]) -> (r: AblyResult<Vec<u8>>)
        ensures
            agrees(
                r,
                run_instructions(delta@, 0, source@, Seq::empty(), self.max_output_size as nat),
                |v: Vec<u8>, s: Seq<u8>| v@ == s,
            ),
    {
        let max = self.max_output_size;
        let mut output: Vec<u8> = Vec::new();
        let mut cursor = ByteCursor::new(delta.as_slice());
        let ghost target = run_instructions(delta@, 0, source@, Seq::empty(), max as nat);
        while !cursor.at_end()
            invariant
                cursor.spec_data() == delta@,
                max == self.max_output_size,
                target == run_instructions(delta@, 0, source@, Seq::empty(), self.max_output_size as nat),
                output@.len() <= max,
                run_instructions(delta@, cursor.spec_pos(), source@, output@, max as nat) == target,
            decreases delta@.len() - cursor.spec_pos(),
        {
            let ghost p = cursor.spec_pos();
            let ghost before = output@;
            proof {
                lemma_step_advances(delta@, p, source@, before);
            }
            let instruction = match cursor.next_byte() {
                Some(i) => i,
                None => {
                    return Err(fault_error(VcdiffFault::ByteEof));
                },
            };
            if instruction <= 0x15 {
                let size = (instruction + 1) as usize;
                let byte_value = match self.read_byte(&mut cursor) {
                    Ok(v) => v,
                    Err(e) => {
                        return Err(e);
                    },
                };
                let mut k: usize = 0;
                while k < size
                    invariant
                        k <= size,
                        output@ == before + Seq::new(k as nat, |i: int| byte_value),
                    decreases size - k,
                {
                    output.push(byte_value);
                    k = k + 1;
                    proof {
                        assert(output@ =~= before + Seq::new(k as nat, |i: int| byte_value));
                    }
                }
            } else if instruction <= 0x3F {
                let size = (instruction - 0x15) as usize;
                if !cursor.take_into(size, &mut output) {
                    return Err(fault_error(VcdiffFault::AddDataEof));
                }
            } else {
                let size = (instruction - 0x3F) as u64;
                let addr = match self.read_varint(&mut cursor) {
                    Ok(v) => v,
                    Err(e) => {
                        return Err(e);
                    },
                };
                let slen = source.len() as u64;
                if addr < slen {
                    let end: u64 = if size < slen - addr { addr + size } else { slen };
                    push_range(&mut output, source, addr as usize, end as usize);
                } else if addr - slen < output.len() as u64 {
                    let ta = addr - slen;
                    let olen = output.len() as u64;
                    let end: u64 = if size < olen - ta { ta + size } else { olen };
                    push_own_range(&mut output, ta as usize, end as usize);
                } else {
                    return Err(fault_error(VcdiffFault::BadCopyAddress));
                }
            }
            if output.len() > max {
                return Err(fault_error(VcdiffFault::WindowTooLarge));
            }
        }
        Ok(output)
    }

    /// Decodes the VCDIFF delta `delta` against `source`.
    pub fn decode_with_source(&self, delta: &[u8], source: &[u8]) -> (r: AblyResult<Vec<u8>>)
        ensures
            agrees(
                r,
                spec_decode(delta@, source@, self.max_output_size as nat),
                |v: Vec<u8>, s: Seq<u8>| v@ == s,
            ),
    {
        let max = self.max_output_size;
        let mut cursor = ByteCursor::new(delta);
        let version = match self.parse_header(&mut cursor) {
            Ok(v) => v,
            Err(e) => {
                return Err(e);
            },
        };
        if version != 0x00 {
            return Err(fault_error(VcdiffFault::BadVersion));
        }
        let ghost target = spec_decode(delta@, source@, max as nat);
        let mut output: Vec<u8> = Vec::new();
        while !cursor.at_end()
            invariant
                cursor.spec_data() == delta@,
                max == self.max_output_size,
                target == spec_decode(delta@, source@, self.max_output_size as nat),
                output@.len() <= max,
                decode_windows(delta@, cursor.spec_pos(), source@, output@, max as nat) == target,
            decreases delta@.len() - cursor.spec_pos(),
        {
            let ghost p = cursor.spec_pos();
            proof {
                lemma_window_advances(delta@, p);
            }
            let window = match self.parse_window(&mut cursor) {
                Ok(v) => v,
                Err(e) => {
                    return Err(e);
                },
            };
            let decoded = match self.decode_window(&window, source) {
                Ok(v) => v,
                Err(e) => {
                    return Err(e);
                },
            };
            if decoded.len() > max - output.len() {
                return Err(fault_error(VcdiffFault::OutputTooLarge));
            }
            push_range(&mut output, decoded.as_slice(), 0, decoded.len());
            proof {
                assert(decoded@.subrange(0, decoded@.len() as int) =~= decoded@);
            }
        }
        Ok(output)
    }
}

impl DeltaDecoder for VcdiffDecoder {
    fn decode(&self, delta: &[u8], source: &[u8]) -> (r: AblyResult<Vec<u8>>)
        ensures
            agrees(
                r,
                spec_decode(delta@, source@, self.max_output_size as nat),
                |v: Vec<u8>, s: Seq<u8>| v@ == s,
            ),
    {
        self.decode_with_source(delta, source)
    }
}

/// Builds simple deltas for tests; not a real VCDIFF encoder.
pub struct MockVcdiffEncoder;

impl MockVcdiffEncoder {
    /// A delta for `target`: the header, one window that names the source
    /// segment, and a single ADD instruction followed by the target bytes.
    pub fn create_simple_delta(source: &[u8], target: &[u8]) -> (delta: Vec<u8>)
        ensures
            delta@ == seq![0x56u8, 0x43u8, 0x44u8, 0x00u8, 0x00u8, 0x01u8] + spec_write_varint(
                source@.len() as u64,
            ) + spec_write_varint(0) + spec_write_varint(
                ((target@.len() + 2) % 0x1_0000_0000_0000_0000) as u64,
            ) + spec_write_varint(target@.len() as u64) + seq![
                (0x16 + (if (target@.len() as u8) < 0x29u8 {
                    target@.len() as u8
                } else {
                    0x29u8
                })) as u8,
            ] + target@,
    {
        let mut delta: Vec<u8> = Vec::new();
        delta.push(0x56);
        delta.push(0x43);
        delta.push(0x44);
        delta.push(0x00);
        delta.push(0x00);
        delta.push(0x01);
        let ghost h0 = delta@;
        assert(h0 =~= seq![0x56u8, 0x43u8, 0x44u8, 0x00u8, 0x00u8, 0x01u8]);
        let slen = source.len() as u64;
        Self::write_varint(&mut delta, slen);
        let ghost h1 = delta@;
        Self::write_varint(&mut delta, 0);
        let ghost h2 = delta@;
        let tlen = target.len() as u64;
        let dlen: u64 = if tlen <= u64::MAX - 2 { tlen + 2 } else { tlen - (u64::MAX - 1) };
        assert(dlen == ((target@.len() + 2) % 0x1_0000_0000_0000_0000) as u64);
        Self::write_varint(&mut delta, dlen);
        let ghost h3 = delta@;
        Self::write_varint(&mut delta, tlen);
        let ghost h4 = delta@;
        let t = target.len() as u8;
        let add_size: u8 = if t < 0x29 { t } else { 0x29 };
        let instr: u8 = 0x16 + add_size;
        delta.push(instr);
        let ghost h5 = delta@;
        push_range(&mut delta, target, 0, target.len());
        assert(target@.subrange(0, target@.len() as int) =~= target@);
        assert(delta@ =~= h0 + spec_write_varint(source@.len() as u64) + spec_write_varint(0)
            + spec_write_varint(((target@.len() + 2) % 0x1_0000_0000_0000_0000) as u64) + spec_write_varint(
            target@.len() as u64,
        ) + seq![instr] + target@);
        delta
    }

    /// Appends the base-128 encoding of `value`.
    pub fn write_varint(buffer: &mut Vec<u8>, value: u64)
        ensures
            final(buffer)@ == old(buffer)@ + spec_write_varint(value),
    {
        let ghost orig = buffer@;
        let ghost v0 = value;
        let mut value = value;
        while value >= 0x80
            invariant
                orig + spec_write_varint(v0) == buffer@ + spec_write_varint(value),
            decreases value,
        {
            let byte = ((value & 0x7F) as u8) | 0x80;
            assert(value >= 0x80 ==> (value >> 7) < value) by (bit_vector);
            proof {
                assert(spec_write_varint(value) == seq![byte] + spec_write_varint(value >> 7));
                assert(buffer@.push(byte) + spec_write_varint(value >> 7) =~= buffer@ + (seq![byte]
                    + spec_write_varint(value >> 7)));
            }
            buffer.push(byte);
            value = value >> 7;
        }
        buffer.push(value as u8);
        proof {
            assert(spec_write_varint(value) == seq![value as u8]);
            assert(buffer@ =~= orig + spec_write_varint(v0));
        }
    }
}

/// Reading back what `write_varint` wrote, from any bit position `shift`
/// (a multiple of 7) at which `v` still fits, ORs `v << shift` into the
/// accumulator and stops right after the written bytes.
proof fn lemma_varint_roundtrip_from(v: u64, rest: Seq<u8>, shift: u64, acc: u64)
    requires
        shift < 64,
        shift % 7 == 0,
        (v << shift) >> shift == v,
    ensures
        varint_from(spec_write_varint(v) + rest, 0, shift, acc) == Ok::<(u64, int), VcdiffFault>(
            (acc | (v << shift), spec_write_varint(v).len() as int),
        ),
    decreases v,
{
    let d = spec_write_varint(v) + rest;
    if v < 0x80 {
        let b = v as u8;
        assert(d[0] == b);
        assert(v < 0x80 ==> (b & 0x80u8) == 0 && ((b & 0x7fu8) as u64) == v) by (bit_vector)
            requires b == v as u8;
    } else {
        let b = ((v & 0x7f) as u8) | 0x80u8;
        assert(d[0] == b);
        let w = v >> 7;
        assert(v >= 0x80 ==> (v >> 7) < v) by (bit_vector);
        assert(v >= 0x80 && (v << shift) >> shift == v && shift < 64 && shift % 7 == 0
            ==> shift + 7 < 64) by (bit_vector);
        assert((b & 0x80u8) != 0 && ((b & 0x7fu8) as u64) == (v & 0x7f)) by (bit_vector)
            requires b == ((v & 0x7f) as u8) | 0x80u8;
        assert(shift + 7 < 64 && (v << shift) >> shift == v ==> (w << ((shift + 7) as u64)) >> ((shift + 7) as u64) == w) by (bit_vector)
            requires w == v >> 7;
        assert(shift + 7 < 64 ==> (acc | ((v & 0x7f) << shift)) | (w << ((shift + 7) as u64)) == acc | (v << shift)) by (bit_vector)
            requires w == v >> 7;
        let acc2 = acc | (((b & 0x7f) as u64) << shift);
        lemma_varint_roundtrip_from(w, rest, (shift + 7) as u64, acc2);
        assert(spec_write_varint(v) == seq![b] + spec_write_varint(w));
        assert(d.subrange(1, d.len() as int) =~= spec_write_varint(w) + rest);
        lemma_varint_shift_input(spec_write_varint(w) + rest, b, (shift + 7) as u64, acc2);
        assert(seq![b] + (spec_write_varint(w) + rest) =~= d);
    }
}

/// Reading a varint one byte further into the input is reading it from the
/// input without that byte, one position earlier.
proof fn lemma_varint_shift_input(d: Seq<u8>, b: u8, shift: u64, acc: u64)
    ensures
        varint_from(seq![b] + d, 1, shift, acc) == match varint_from(d, 0, shift, acc) {
            Ok((v, q)) => Ok::<(u64, int), VcdiffFault>((v, q + 1)),
            Err(f) => Err(f),
        },
    decreases 64 - shift,
{
    let e = seq![b] + d;
    lemma_varint_shift_from(d, b, 0, shift, acc);
}

proof fn lemma_varint_shift_from(d: Seq<u8>, b: u8, p: int, shift: u64, acc: u64)
    requires
        p >= 0,
    ensures
        varint_from(seq![b] + d, p + 1, shift, acc) == match varint_from(d, p, shift, acc) {
            Ok((v, q)) => Ok::<(u64, int), VcdiffFault>((v, q + 1)),
            Err(f) => Err(f),
        },
    decreases 64 - shift,
{
    let e = seq![b] + d;
    if 0 <= p < d.len() {
        assert(e[p + 1] == d[p]);
        if shift < 64 {
            let c = d[p];
            let acc2 = acc | (((c & 0x7f) as u64) << shift);
            if c & 0x80 != 0 && shift + 7 < 64 {
                lemma_varint_shift_from(d, b, p + 1, (shift + 7) as u64, acc2);
            }
        }
    }
}

/// Reading back what `write_varint` wrote yields the value written, and the
/// bytes after it are left unread: the encoder and the decoder agree on every
/// 64-bit value.
pub proof fn law_varint_roundtrip(v: u64, rest: Seq<u8>)
    ensures
        read_varint_at(spec_write_varint(v) + rest, 0) == Ok::<(u64, int), VcdiffFault>(
            (v, spec_write_varint(v).len() as int),
        ),
{
    assert((v << 0u64) >> 0u64 == v) by (bit_vector);
    lemma_varint_roundtrip_from(v, rest, 0, 0);
    assert((0u64 | (v << 0u64)) == v) by (bit_vector);
}


/// A RUN instruction with code `n` (at most 0x15) followed by byte `b`
/// appends exactly `n + 1` copies of `b` to the output, whatever comes
/// after it in the delta encoding, and decoding goes on right after the
/// byte.
pub proof fn law_run_appends_n_plus_one_copies(
    n: u8,
    b: u8,
    rest: Seq<u8>,
    source: Seq<u8>,
    out: Seq<u8>,
    out2: Seq<u8>,
    max: nat,
)
    requires
        n <= 0x15,
        out.len() + n + 1 <= max,
        out2.len() == out.len() + n + 1,
        out2.subrange(0, out.len() as int) == out,
        forall|i: int| out.len() <= i < out2.len() ==> out2[i] == b,
    ensures
        run_instructions(seq![n, b] + rest, 0, source, out, max) == run_instructions(
            seq![n, b] + rest,
            2,
            source,
            out2,
            max,
        ),
{
    let data = seq![n, b] + rest;
    assert(data[0] == n);
    assert(data[1] == b);
    let (o, q) = step_instruction(data, 0, source, out)->Ok_0;
    assert(o =~= out2);
}

/// A delta with one window whose delta encoding is a single RUN
/// instruction with code `n` and byte `b` decodes, against any source, to
/// exactly `n + 1` copies of `b`.
pub proof fn law_run_window_decodes(n: u8, b: u8, target_len: u8, source: Seq<u8>, max: nat)
    requires
        n <= 0x15,
        target_len < 0x80,
        n + 1 <= max,
    ensures
        spec_decode(seq![0x56u8, 0x43u8, 0x44u8, 0x00u8, 0x00u8, 0x00u8, 0x02u8, target_len, n, b], source, max)
            matches Ok(t) && t.len() == n + 1 && forall|i: int| 0 <= i < t.len() ==> t[i] == b,
{
    let d = seq![0x56u8, 0x43u8, 0x44u8, 0x00u8, 0x00u8, 0x00u8, 0x02u8, target_len, n, b];
    assert(0x00u8 & 1 == 0 && 0x00u8 & 2 == 0) by (bit_vector);
    assert(0x02u8 & 0x80 == 0 && (0u64 | (((0x02u8 & 0x7f) as u64) << 0u64)) == 2) by (bit_vector);
    assert(target_len & 0x80 == 0 && (0u64 | (((target_len & 0x7f) as u64) << 0u64)) == target_len) by (bit_vector)
        requires
            target_len < 0x80,
    ;
    assert(parse_header(d) == Ok::<(u8, int), VcdiffFault>((0u8, 5int)));
    assert(read_varint_at(d, 6) == Ok::<(u64, int), VcdiffFault>((2u64, 7int)));
    assert(read_varint_at(d, 7) == Ok::<(u64, int), VcdiffFault>((target_len as u64, 8int)));
    let delta = d.subrange(8, 10);
    assert(delta =~= seq![n, b] + Seq::<u8>::empty());
    assert(parse_window(d, 5) == Ok::<(Seq<u8>, int), VcdiffFault>((delta, 10int)));
    let w = Seq::new((n + 1) as nat, |i: int| b);
    assert(w.subrange(0, 0) =~= Seq::<u8>::empty());
    law_run_appends_n_plus_one_copies(n, b, Seq::empty(), source, Seq::empty(), w, max);
    assert(run_instructions(delta, 2, source, w, max) == Ok::<Seq<u8>, VcdiffFault>(w));
    assert(Seq::<u8>::empty() + w =~= w);
    assert(decode_windows(d, 10, source, w, max) == Ok::<Seq<u8>, VcdiffFault>(w));
}

/// An ADD instruction with code `k` (0x16 to 0x3F) appends the `k - 0x15`
/// bytes that follow it, unchanged, and decoding goes on right after them.
pub proof fn law_add_appends_following_bytes(
    k: u8,
    added: Seq<u8>,
    rest: Seq<u8>,
    source: Seq<u8>,
    out: Seq<u8>,
    max: nat,
)
    requires
        0x16 <= k <= 0x3F,
        added.len() == k - 0x15,
        out.len() + added.len() <= max,
    ensures
        run_instructions(seq![k] + added + rest, 0, source, out, max) == run_instructions(
            seq![k] + added + rest,
            1 + added.len() as int,
            source,
            out + added,
            max,
        ),
{
    let data = seq![k] + added + rest;
    assert(data[0] == k);
    assert(data.subrange(1, 1 + added.len() as int) =~= added);
}

/// A COPY instruction with code `k` (0x40 and up) and an address inside
/// the source appends the `k - 0x3F` source bytes from that address (fewer
/// at the end of the source), and decoding goes on after the address.
pub proof fn law_copy_reads_source(
    k: u8,
    addr: u8,
    rest: Seq<u8>,
    source: Seq<u8>,
    out: Seq<u8>,
    max: nat,
)
    requires
        k >= 0x40,
        addr < 0x80,
        addr < source.len(),
        out.len() + (k - 0x3F) <= max,
    ensures
        ({
            let end = if addr + (k - 0x3F) < source.len() { addr + (k - 0x3F) } else { source.len() as int };
            run_instructions(seq![k, addr] + rest, 0, source, out, max) == run_instructions(
                seq![k, addr] + rest,
                2,
                source,
                out + source.subrange(addr as int, end),
                max,
            )
        }),
{
    let data = seq![k, addr] + rest;
    assert(data[0] == k);
    assert(data[1] == addr);
    assert(addr & 0x80 == 0 && (0u64 | (((addr & 0x7f) as u64) << 0u64)) == addr) by (bit_vector)
        requires
            addr < 0x80,
    ;
    assert(read_varint_at(data, 1) == Ok::<(u64, int), VcdiffFault>((addr as u64, 2int)));
}

} // verus!
