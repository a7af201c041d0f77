//! Big-endian reading from and writing to byte buffers.
use vstd::prelude::*;
use crate::error::Error;

verus! {

/// The unsigned 16-bit big-endian value of the two bytes starting at `i`.
pub open spec fn be_u16(b: Seq<u8>, i: int) -> u16 {
    (b[i] as int * 0x100 + b[i + 1] as int) as u16
}

/// The unsigned 32-bit big-endian value of the four bytes starting at `i`.
pub open spec fn be_u32(b: Seq<u8>, i: int) -> u32 {
    (b[i] as int * 0x1000000 + b[i + 1] as int * 0x10000 + b[i + 2] as int * 0x100 + b[i + 3] as int) as u32
}

/// The unsigned 64-bit big-endian value of the eight bytes starting at `i`.
pub open spec fn be_u64(b: Seq<u8>, i: int) -> u64 {
    (be_u32(b, i) as int * 0x1_0000_0000 + be_u32(b, i + 4) as int) as u64
}

/// The two big-endian bytes of `v`.
pub open spec fn u16_bytes(v: u16) -> Seq<u8> {
    seq![(v / 0x100) as u8, (v % 0x100) as u8]
}

/// The four big-endian bytes of `v`.
pub open spec fn u32_bytes(v: u32) -> Seq<u8> {
    seq![(v / 0x1000000) as u8, ((v / 0x10000) % 0x100) as u8, ((v / 0x100) % 0x100) as u8, (v % 0x100) as u8]
}

/// The eight big-endian bytes of `v`.
pub open spec fn u64_bytes(v: u64) -> Seq<u8> {
    u32_bytes((v / 0x1_0000_0000) as u32) + u32_bytes((v % 0x1_0000_0000) as u32)
}

/// A cursor over an in-memory class file.
///
/// Reads either succeed and advance the position by the size of the value
/// read, or fail with [`Error::UnexpectedEnd`] and leave the position as it was.
#[derive(Debug)]
pub struct ClassReader {
    bytes: Vec<u8>,
    pos: usize,
}

impl ClassReader {
    /// The bytes being read.
    pub closed spec fn data(&self) -> Seq<u8> {
        self.bytes@
    }

    /// The current position; it may lie past the end of the data.
    pub closed spec fn position(&self) -> nat {
        self.pos as nat
    }

    /// Whether `n` more bytes can be read from the current position.
    pub open spec fn has(&self, n: nat) -> bool {
        self.position() + n <= self.data().len()
    }

    /// Whether a read of `n` bytes went from `old` to `new`, with `ok` telling
    /// whether it succeeded.
    pub open spec fn stepped(old: ClassReader, new: ClassReader, n: nat, ok: bool) -> bool {
        &&& new.data() == old.data()
        &&& ok == old.has(n)
        &&& ok ==> new.position() == old.position() + n
        &&& !ok ==> new.position() == old.position()
    }

    /// Creates a reader positioned at the start of `bytes`.
    pub fn new(bytes: Vec<u8>) -> (r: ClassReader)
        ensures
            r.data() == bytes@,
            r.position() == 0,
    {
        ClassReader { bytes, pos: 0 }
    }

    /// Returns the current position.
    pub fn marker(&self) -> (r: usize)
        ensures
            r == self.position(),
    {
        self.pos
    }

    /// Returns the number of bytes of the data.
    pub fn len(&self) -> (r: usize)
        ensures
            r == self.data().len(),
    {
        self.bytes.len()
    }

    /// Moves to the absolute position `pos`, which may lie past the end.
    pub fn goto(&mut self, pos: usize)
        ensures
            final(self).data() == old(self).data(),
            final(self).position() == pos,
    {
        self.pos = pos;
    }

    /// Moves the position by `n` bytes, forwards or backwards.
    ///
    /// Fails with [`Error::InvalidSeek`] if the new position would be negative
    /// or not representable, leaving the position unchanged.
    pub fn skip(&mut self, n: i64) -> (r: Result<(), Error>)
        ensures
            final(self).data() == old(self).data(),
            (0 <= old(self).position() + n <= usize::MAX) ==> r is Ok && final(self).position() == old(self).position() + n,
            !(0 <= old(self).position() + n <= usize::MAX) ==> r == Err::<(), Error>(Error::InvalidSeek)
                && final(self).position() == old(self).position(),
    {
        if n >= 0 {
            let m = n as u64;
            if m as u128 <= (usize::MAX - self.pos) as u128 {
                self.pos = self.pos + m as usize;
                Ok(())
            } else {
                Err(Error::InvalidSeek)
            }
        } else {
            if n == i64::MIN {
                if (self.pos as u128) >= 0x8000_0000_0000_0000u128 {
                    self.pos = (self.pos as u128 - 0x8000_0000_0000_0000u128) as usize;
                    Ok(())
                } else {
                    Err(Error::InvalidSeek)
                }
            } else {
                let m = (-n) as u64;
                if (m as u128) <= self.pos as u128 {
                    self.pos = self.pos - m as usize;
                    Ok(())
                } else {
                    Err(Error::InvalidSeek)
                }
            }
        }
    }

    /// Whether `n` bytes are left to read.
    fn available(&self, n: usize) -> (r: bool)
        ensures
            r == self.has(n as nat),
            r ==> self.pos as int + n as int <= self.bytes.len(),
    {
        self.pos <= self.bytes.len() && self.bytes.len() - self.pos >= n
    }

    /// Reads one unsigned byte.
    pub fn read_u8(&mut self) -> (r: Result<u8, Error>)
        ensures
            Self::stepped(*old(self), *final(self), 1, r is Ok),
            r is Ok ==> r == Ok::<u8, Error>(old(self).data()[old(self).position() as int]),
            r is Err ==> r == Err::<u8, Error>(Error::UnexpectedEnd),
    {
        if self.available(1) {
            let b = self.bytes[self.pos];
            self.pos = self.pos + 1;
            Ok(b)
        } else {
            Err(Error::UnexpectedEnd)
        }
    }

    /// Reads one signed byte.
    pub fn read_i8(&mut self) -> (r: Result<i8, Error>)
        ensures
            Self::stepped(*old(self), *final(self), 1, r is Ok),
            r is Ok ==> r == Ok::<i8, Error>(old(self).data()[old(self).position() as int] as i8),
            r is Err ==> r == Err::<i8, Error>(Error::UnexpectedEnd),
    {
        match self.read_u8() {
            Ok(b) => Ok(b as i8),
            Err(e) => Err(e),
        }
    }

    /// Reads a big-endian unsigned 16-bit value.
    pub fn read_u16(&mut self) -> (r: Result<u16, Error>)
        ensures
            Self::stepped(*old(self), *final(self), 2, r is Ok),
            r is Ok ==> r == Ok::<u16, Error>(be_u16(old(self).data(), old(self).position() as int)),
            r is Err ==> r == Err::<u16, Error>(Error::UnexpectedEnd),
    {
        if self.available(2) {
            let b0 = self.bytes[self.pos] as u16;
            let b1 = self.bytes[self.pos + 1] as u16;
            self.pos = self.pos + 2;
            Ok(b0 * 0x100 + b1)
        } else {
            Err(Error::UnexpectedEnd)
        }
    }

    /// Reads a big-endian signed 16-bit value.
    pub fn read_i16(&mut self) -> (r: Result<i16, Error>)
        ensures
            Self::stepped(*old(self), *final(self), 2, r is Ok),
            r is Ok ==> r == Ok::<i16, Error>(be_u16(old(self).data(), old(self).position() as int) as i16),
            r is Err ==> r == Err::<i16, Error>(Error::UnexpectedEnd),
    {
        match self.read_u16() {
            Ok(v) => Ok(v as i16),
            Err(e) => Err(e),
        }
    }

    /// Reads a big-endian unsigned 32-bit value.
    pub fn read_u32(&mut self) -> (r: Result<u32, Error>)
        ensures
            Self::stepped(*old(self), *final(self), 4, r is Ok),
            r is Ok ==> r == Ok::<u32, Error>(be_u32(old(self).data(), old(self).position() as int)),
            r is Err ==> r == Err::<u32, Error>(Error::UnexpectedEnd),
    {
        if self.available(4) {
            let b0 = self.bytes[self.pos] as u32;
            let b1 = self.bytes[self.pos + 1] as u32;
            let b2 = self.bytes[self.pos + 2] as u32;
            let b3 = self.bytes[self.pos + 3] as u32;
            self.pos = self.pos + 4;
            Ok(b0 * 0x1000000 + b1 * 0x10000 + b2 * 0x100 + b3)
        } else {
            Err(Error::UnexpectedEnd)
        }
    }

    /// Reads a big-endian signed 32-bit value.
    pub fn read_i32(&mut self) -> (r: Result<i32, Error>)
        ensures
            Self::stepped(*old(self), *final(self), 4, r is Ok),
            r is Ok ==> r == Ok::<i32, Error>(be_u32(old(self).data(), old(self).position() as int) as i32),
            r is Err ==> r == Err::<i32, Error>(Error::UnexpectedEnd),
    {
        match self.read_u32() {
            Ok(v) => Ok(v as i32),
            Err(e) => Err(e),
        }
    }

    /// Reads a big-endian unsigned 64-bit value.
    pub fn read_u64(&mut self) -> (r: Result<u64, Error>)
        ensures
            Self::stepped(*old(self), *final(self), 8, r is Ok),
            r is Ok ==> r == Ok::<u64, Error>(be_u64(old(self).data(), old(self).position() as int)),
            r is Err ==> r == Err::<u64, Error>(Error::UnexpectedEnd),
    {
        if self.available(8) {
            let hi = self.read_u32();
            let lo = self.read_u32();
            match (hi, lo) {
                (Ok(hi), Ok(lo)) => Ok(hi as u64 * 0x1_0000_0000 + lo as u64),
                _ => Err(Error::UnexpectedEnd),
            }
        } else {
            Err(Error::UnexpectedEnd)
        }
    }

    /// Reads a big-endian signed 64-bit value.
    pub fn read_i64(&mut self) -> (r: Result<i64, Error>)
        ensures
            Self::stepped(*old(self), *final(self), 8, r is Ok),
            r is Ok ==> r == Ok::<i64, Error>(be_u64(old(self).data(), old(self).position() as int) as i64),
            r is Err ==> r == Err::<i64, Error>(Error::UnexpectedEnd),
    {
        match self.read_u64() {
            Ok(v) => Ok(v as i64),
            Err(e) => Err(e),
        }
    }

    /// Reads one unsigned byte as a `usize`.
    pub fn read_u8_as_usize(&mut self) -> (r: Result<usize, Error>)
        ensures
            Self::stepped(*old(self), *final(self), 1, r is Ok),
            r is Ok ==> r == Ok::<usize, Error>(old(self).data()[old(self).position() as int] as usize),
            r is Err ==> r == Err::<usize, Error>(Error::UnexpectedEnd),
    {
        match self.read_u8() {
            Ok(v) => Ok(v as usize),
            Err(e) => Err(e),
        }
    }

    /// Reads a big-endian unsigned 16-bit value as a `usize`.
    pub fn read_u16_as_usize(&mut self) -> (r: Result<usize, Error>)
        ensures
            Self::stepped(*old(self), *final(self), 2, r is Ok),
            r is Ok ==> r == Ok::<usize, Error>(be_u16(old(self).data(), old(self).position() as int) as usize),
            r is Err ==> r == Err::<usize, Error>(Error::UnexpectedEnd),
    {
        match self.read_u16() {
            Ok(v) => Ok(v as usize),
            Err(e) => Err(e),
        }
    }

    /// Reads a big-endian unsigned 32-bit value as a `usize`.
    pub fn read_u32_as_usize(&mut self) -> (r: Result<usize, Error>)
        requires
            u32::MAX <= usize::MAX,
        ensures
            Self::stepped(*old(self), *final(self), 4, r is Ok),
            r is Ok ==> r == Ok::<usize, Error>(be_u32(old(self).data(), old(self).position() as int) as usize),
            r is Err ==> r == Err::<usize, Error>(Error::UnexpectedEnd),
    {
        match self.read_u32() {
            Ok(v) => Ok(v as usize),
            Err(e) => Err(e),
        }
    }

    /// Reads `size` bytes into a new vector.
    pub fn read_u8_vec(&mut self, size: usize) -> (r: Result<Vec<u8>, Error>)
        ensures
            Self::stepped(*old(self), *final(self), size as nat, r is Ok),
            r matches Ok(v) ==> v@ == old(self).data().subrange(old(self).position() as int, old(self).position() + size),
            r is Err ==> r == Err::<Vec<u8>, Error>(Error::UnexpectedEnd),
    {
        if self.available(size) {
            let mut v: Vec<u8> = Vec::with_capacity(size);
            let start = self.pos;
            let mut i: usize = 0;
            while i < size
                invariant
                    self.pos == start,
                    start + size <= self.bytes.len(),
                    i <= size,
                    v@ == self.bytes@.subrange(start as int, start + i),
                decreases size - i,
            {
                v.push(self.bytes[start + i]);
                i = i + 1;
            }
            self.pos = start + size;
            Ok(v)
        } else {
            Err(Error::UnexpectedEnd)
        }
    }
}

/// Appends one unsigned byte.
pub fn write_u8(w: &mut Vec<u8>, v: u8)
    ensures
        final(w)@ == old(w)@.push(v),
{
    w.push(v);
}

/// Appends one signed byte.
pub fn write_i8(w: &mut Vec<u8>, v: i8)
    ensures
        final(w)@ == old(w)@.push(v as u8),
{
    w.push(v as u8);
}

/// Appends a big-endian unsigned 16-bit value.
pub fn write_u16(w: &mut Vec<u8>, v: u16)
    ensures
        final(w)@ == old(w)@ + u16_bytes(v),
{
    w.push((v / 0x100) as u8);
    w.push((v % 0x100) as u8);
}

/// Appends a big-endian signed 16-bit value.
pub fn write_i16(w: &mut Vec<u8>, v: i16)
    ensures
        final(w)@ == old(w)@ + u16_bytes(v as u16),
{
    write_u16(w, v as u16);
}

/// Appends a big-endian unsigned 32-bit value.
pub fn write_u32(w: &mut Vec<u8>, v: u32)
    ensures
        final(w)@ == old(w)@ + u32_bytes(v),
{
    w.push((v / 0x1000000) as u8);
    w.push(((v / 0x10000) % 0x100) as u8);
    w.push(((v / 0x100) % 0x100) as u8);
    w.push((v % 0x100) as u8);
}

/// Appends a big-endian signed 32-bit value.
pub fn write_i32(w: &mut Vec<u8>, v: i32)
    ensures
        final(w)@ == old(w)@ + u32_bytes(v as u32),
{
    write_u32(w, v as u32);
}

/// Appends a big-endian unsigned 64-bit value.
pub fn write_u64(w: &mut Vec<u8>, v: u64)
    ensures
        final(w)@ == old(w)@ + u64_bytes(v),
{
    write_u32(w, (v / 0x1_0000_0000) as u32);
    write_u32(w, (v % 0x1_0000_0000) as u32);
}

/// Appends a big-endian signed 64-bit value.
pub fn write_i64(w: &mut Vec<u8>, v: i64)
    ensures
        final(w)@ == old(w)@ + u64_bytes(v as u64),
{
    write_u64(w, v as u64);
}

/// Appends `value` as one byte, failing with [`Error::ValueTooLarge`] if it does not fit.
pub fn write_usize_as_u8(w: &mut Vec<u8>, value: usize) -> (r: Result<(), Error>)
    ensures
        value <= u8::MAX ==> r is Ok && final(w)@ == old(w)@.push(value as u8),
        value > u8::MAX ==> r == Err::<(), Error>(Error::ValueTooLarge) && final(w)@ == old(w)@,
{
    if value <= 0xff {
        write_u8(w, value as u8);
        Ok(())
    } else {
        Err(Error::ValueTooLarge)
    }
}

/// Appends `value` as a big-endian 16-bit value, failing with [`Error::ValueTooLarge`] if it does not fit.
pub fn write_usize_as_u16(w: &mut Vec<u8>, value: usize) -> (r: Result<(), Error>)
    ensures
        value <= u16::MAX ==> r is Ok && final(w)@ == old(w)@ + u16_bytes(value as u16),
        value > u16::MAX ==> r == Err::<(), Error>(Error::ValueTooLarge) && final(w)@ == old(w)@,
{
    if value <= 0xffff {
        write_u16(w, value as u16);
        Ok(())
    } else {
        Err(Error::ValueTooLarge)
    }
}

/// Appends `value` as a big-endian 32-bit value, failing with [`Error::ValueTooLarge`] if it does not fit.
pub fn write_usize_as_u32(w: &mut Vec<u8>, value: usize) -> (r: Result<(), Error>)
    ensures
        value <= u32::MAX ==> r is Ok && final(w)@ == old(w)@ + u32_bytes(value as u32),
        value > u32::MAX ==> r == Err::<(), Error>(Error::ValueTooLarge) && final(w)@ == old(w)@,
{
    if value as u64 <= 0xffff_ffffu64 {
        write_u32(w, value as u32);
        Ok(())
    } else {
        Err(Error::ValueTooLarge)
    }
}

/// Appends all bytes of `buf`.
pub fn write_u8_slice(w: &mut Vec<u8>, buf: &[u8])
    ensures
        final(w)@ == old(w)@ + buf@,
{
    let mut i: usize = 0;
    let ghost start = w@;
    while i < buf.len()
        invariant
            i <= buf.len(),
            w@ == start + buf@.subrange(0, i as int),
        decreases buf.len() - i,
    {
        w.push(buf[i]);
        i = i + 1;
        assert(start + buf@.subrange(0, i as int) == (start + buf@.subrange(0, i - 1)).push(buf@[i - 1]));
    }
    assert(buf@.subrange(0, buf@.len() as int) == buf@);
}

/// Reading back a written 16-bit value gives the value.
pub proof fn lemma_u16_round_trip(v: u16)
    ensures
        be_u16(u16_bytes(v), 0) == v,
        u16_bytes(v).len() == 2,
{
}

/// Reading back a written 32-bit value gives the value.
#[verifier::spinoff_prover]
pub proof fn lemma_u32_round_trip(v: u32)
    ensures
        be_u32(u32_bytes(v), 0) == v,
        u32_bytes(v).len() == 4,
{
}

/// Reading back a written 64-bit value gives the value.
pub proof fn lemma_u64_round_trip(v: u64)
    ensures
        be_u64(u64_bytes(v), 0) == v,
        u64_bytes(v).len() == 8,
{
    lemma_u32_round_trip((v / 0x1_0000_0000) as u32);
    lemma_u32_round_trip((v % 0x1_0000_0000) as u32);
    let b = u64_bytes(v);
    assert(b.subrange(0, 4) == u32_bytes((v / 0x1_0000_0000) as u32));
    assert(b.subrange(4, 8) == u32_bytes((v % 0x1_0000_0000) as u32));
    assert(be_u32(b, 0) == be_u32(u32_bytes((v / 0x1_0000_0000) as u32), 0));
    assert(be_u32(b, 4) == be_u32(u32_bytes((v % 0x1_0000_0000) as u32), 0));
}

} // verus!
