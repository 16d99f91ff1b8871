//! Byte buffers for the wire: an append-only writer and a forward-only reader.
//!
//! Multi-byte integers travel in network byte order (most significant byte
//! first). A reader is viewed as the bytes it has not consumed yet, a writer
//! as the bytes written so far.

use vstd::prelude::*;
use crate::error::BattleError;

verus! {

/// The four bytes of `v`, most significant first.
pub open spec fn u32_to_be(v: u32) -> Seq<u8> {
    seq![
        (v / 0x100_0000) as u8,
        ((v / 0x1_0000) % 0x100) as u8,
        ((v / 0x100) % 0x100) as u8,
        (v % 0x100) as u8,
    ]
}

/// The number whose big-endian bytes are the first four bytes of `b`.
pub open spec fn u32_from_be(b: Seq<u8>) -> u32
    recommends
        b.len() >= 4,
{
    (b[0] * 0x100_0000 + b[1] * 0x1_0000 + b[2] * 0x100 + b[3]) as u32
}

/// The wire byte of a flag.
pub open spec fn bool_to_byte(b: bool) -> u8 {
    if b {
        1u8
    } else {
        0u8
    }
}

/// An outgoing packet under construction.
pub struct OutPacket {
    data: Vec<u8>,
}

impl View for OutPacket {
    type V = Seq<u8>;

    closed spec fn view(&self) -> Seq<u8> {
        self.data@
    }
}

impl OutPacket {
    /// An empty packet.
    pub fn new() -> (p: OutPacket)
        ensures
            p@ == Seq::<u8>::empty(),
    {
        OutPacket { data: Vec::new() }
    }

    /// Number of bytes written so far.
    pub fn len(&self) -> (n: usize)
        ensures
            n == self@.len(),
    {
        self.data.len()
    }

    /// Appends one byte.
    pub fn write_u8(&mut self, b: u8)
        ensures
            final(self)@ == old(self)@.push(b),
    {
        self.data.push(b);
    }

    /// Appends a flag as one byte, 1 for true and 0 for false.
    pub fn write_bool(&mut self, b: bool)
        ensures
            final(self)@ == old(self)@.push(bool_to_byte(b)),
    {
        self.data.push(if b { 1u8 } else { 0u8 });
    }

    /// Appends a 32-bit number, most significant byte first.
    pub fn write_u32(&mut self, v: u32)
        ensures
            final(self)@ == old(self)@ + u32_to_be(v),
    {
        self.data.push((v / 0x100_0000) as u8);
        self.data.push(((v / 0x1_0000) % 0x100) as u8);
        self.data.push(((v / 0x100) % 0x100) as u8);
        self.data.push((v % 0x100) as u8);
        assert(self.data@ =~= old(self).data@ + u32_to_be(v));
    }

    /// The finished packet.
    pub fn into_bytes(self) -> (bytes: Vec<u8>)
        ensures
            bytes@ == self@,
    {
        self.data
    }
}

/// An incoming packet being consumed front to back.
pub struct InPacket {
    data: Vec<u8>,
    pos: usize,
}

impl View for InPacket {
    type V = Seq<u8>;

    /// The bytes not yet consumed.
    closed spec fn view(&self) -> Seq<u8> {
        self.data@.subrange(self.pos as int, self.data@.len() as int)
    }
}

impl InPacket {
    /// The cursor never runs past the end of the data.
    pub closed spec fn wf(&self) -> bool {
        self.pos <= self.data@.len()
    }

    /// A reader positioned at the first byte of `data`.
    pub fn new(data: Vec<u8>) -> (p: InPacket)
        ensures
            p.wf(),
            p@ == data@,
    {
        let p = InPacket { data, pos: 0 };
        assert(p@ =~= data@);
        p
    }

    /// Number of bytes not yet consumed.
    pub fn remaining(&self) -> (n: usize)
        requires
            self.wf(),
        ensures
            n == self@.len(),
    {
        self.data.len() - self.pos
    }

    /// Consumes one byte. Fails with `Truncated`, consuming nothing, exactly
    /// when no byte is left.
    pub fn read_u8(&mut self) -> (r: Result<u8, BattleError>)
        requires
            old(self).wf(),
        ensures
            final(self).wf(),
            read_u8_spec(old(self)@) == (match r {
                Ok(b) => Ok::<(u8, Seq<u8>), BattleError>((b, final(self)@)),
                Err(e) => Err(e),
            }),
            r is Err ==> final(self)@ == old(self)@,
    {
        if self.pos < self.data.len() {
            let b = self.data[self.pos];
            self.pos = self.pos + 1;
            assert(self@ =~= old(self)@.skip(1));
            Ok(b)
        } else {
            Err(BattleError::Truncated)
        }
    }

    /// Consumes one byte as a flag. Fails with `Truncated`, consuming
    /// nothing, when no byte is left, and with `Malformed`, the byte
    /// consumed, when it is neither 0 nor 1.
    pub fn read_bool(&mut self) -> (r: Result<bool, BattleError>)
        requires
            old(self).wf(),
        ensures
            final(self).wf(),
            read_bool_spec(old(self)@) == (match r {
                Ok(b) => Ok::<(bool, Seq<u8>), BattleError>((b, final(self)@)),
                Err(e) => Err(e),
            }),
            r == Err::<bool, BattleError>(BattleError::Truncated) ==> final(self)@ == old(self)@,
            r == Err::<bool, BattleError>(BattleError::Malformed) ==> final(self)@ == old(
                self,
            )@.skip(1),
    {
        if self.pos < self.data.len() {
            let b = self.data[self.pos];
            self.pos = self.pos + 1;
            assert(self@ =~= old(self)@.skip(1));
            if b == 0 {
                Ok(false)
            } else if b == 1 {
                Ok(true)
            } else {
                Err(BattleError::Malformed)
            }
        } else {
            Err(BattleError::Truncated)
        }
    }

    /// Consumes four bytes as a big-endian number. Fails with `Truncated`,
    /// consuming nothing, exactly when fewer than four bytes are left.
    pub fn read_u32(&mut self) -> (r: Result<u32, BattleError>)
        requires
            old(self).wf(),
        ensures
            final(self).wf(),
            read_u32_spec(old(self)@) == (match r {
                Ok(v) => Ok::<(u32, Seq<u8>), BattleError>((v, final(self)@)),
                Err(e) => Err(e),
            }),
            r is Err ==> final(self)@ == old(self)@,
    {
        if self.data.len() - self.pos < 4 {
            return Err(BattleError::Truncated);
        }
        let b0 = self.data[self.pos] as u32;
        let b1 = self.data[self.pos + 1] as u32;
        let b2 = self.data[self.pos + 2] as u32;
        let b3 = self.data[self.pos + 3] as u32;
        self.pos = self.pos + 4;
        assert(self@ =~= old(self)@.skip(4));
        Ok(b0 * 0x100_0000 + b1 * 0x1_0000 + b2 * 0x100 + b3)
    }
}

/// What reading one byte from `s` gives: the byte and the rest.
pub open spec fn read_u8_spec(s: Seq<u8>) -> Result<(u8, Seq<u8>), BattleError> {
    if s.len() == 0 {
        Err(BattleError::Truncated)
    } else {
        Ok((s[0], s.skip(1)))
    }
}

/// What reading one flag from `s` gives: the flag and the rest.
pub open spec fn read_bool_spec(s: Seq<u8>) -> Result<(bool, Seq<u8>), BattleError> {
    if s.len() == 0 {
        Err(BattleError::Truncated)
    } else if s[0] == 0 {
        Ok((false, s.skip(1)))
    } else if s[0] == 1 {
        Ok((true, s.skip(1)))
    } else {
        Err(BattleError::Malformed)
    }
}

/// What reading one 32-bit number from `s` gives: the number and the rest.
pub open spec fn read_u32_spec(s: Seq<u8>) -> Result<(u32, Seq<u8>), BattleError> {
    if s.len() < 4 {
        Err(BattleError::Truncated)
    } else {
        Ok((u32_from_be(s), s.skip(4)))
    }
}

/// A reader gets back the number a writer wrote and stops right behind it.
pub proof fn lemma_u32_round_trip(v: u32, rest: Seq<u8>)
    ensures
        read_u32_spec(u32_to_be(v) + rest) == Ok::<(u32, Seq<u8>), BattleError>((v, rest)),
{
    let b = u32_to_be(v) + rest;
    assert(b[0] == u32_to_be(v)[0]);
    assert(b[1] == u32_to_be(v)[1]);
    assert(b[2] == u32_to_be(v)[2]);
    assert(b[3] == u32_to_be(v)[3]);
    assert(b.skip(4) =~= rest);
}

} // verus!
