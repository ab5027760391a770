//! Byte-addressable memory with a hard capacity and lazy zero growth.
//! Reading past the initialized region yields zero; reading or writing at or
//! past the configured length fails.

use vstd::prelude::*;

use crate::errors::RuntimeError;
use crate::errors::RuntimeErrorKind;
use crate::limits::Limits;
use crate::text::usize_to_string;
use vstd::string::StringExecFns;

verus! {

/// The machine's RAM: a growing byte store, bounded by `limits.ram_length`.
#[derive(Debug, Clone, PartialEq)]
pub struct Ram {
    pub limits: Limits,
    pub data: Vec<u8>,
}

impl Ram {
    /// The byte visible at `offset`: zero beyond the initialized region.
    pub open spec fn byte_at(self, offset: int) -> u8 {
        if 0 <= offset < self.data@.len() {
            self.data@[offset]
        } else {
            0
        }
    }

    pub fn new(limits: Limits) -> (r: Self)
        ensures
            r.limits == limits,
            r.data@.len() == 0,
    {
        Ram { limits, data: Vec::new() }
    }

    /// Writes a whole slice at `offset`. Fails with OutOfMemory when the
    /// slice alone exceeds the RAM length, and with InvalidAddress when it
    /// does not fit at `offset`; otherwise the store grows to cover the
    /// write and the slice's bytes replace that range.
    pub fn write_slice(&mut self, offset: usize, src: &[u8]) -> (r: Result<(), RuntimeError>)
        ensures
            match r {
                Ok(()) => {
                    &&& src@.len() <= old(self).limits.ram_length
                    &&& offset < old(self).limits.ram_length
                    &&& offset + src@.len() <= old(self).limits.ram_length
                    &&& final(self).limits == old(self).limits
                    &&& final(self).data@.len() == vstd::math::max(
                        old(self).data@.len() as int,
                        offset + src@.len(),
                    )
                    &&& forall|i: int|
                        0 <= i < final(self).data@.len() ==> final(self).byte_at(i) == (
                        if offset <= i < offset + src@.len() {
                            src@[i - offset]
                        } else {
                            old(self).byte_at(i)
                        })
                },
                Err(e) => {
                    &&& *final(self) == *old(self)
                    &&& if src@.len() > old(self).limits.ram_length {
                        e.kind == RuntimeErrorKind::OutOfMemory
                    } else {
                        &&& (offset >= old(self).limits.ram_length || offset + src@.len() > old(
                            self,
                        ).limits.ram_length)
                        &&& e.kind == (RuntimeErrorKind::InvalidAddress { address: offset })
                    }
                },
            },
    {
        if src.len() > self.limits.ram_length {
            let mut m = "Can't fit a memory block with size ".to_owned();
            m.append(usize_to_string(src.len()).as_str());
            m.append(" into RAM");
            return Err(RuntimeError::new(m, RuntimeErrorKind::OutOfMemory));
        }
        if offset >= self.limits.ram_length || src.len() > self.limits.ram_length - offset {
            let mut m = "Offset ".to_owned();
            m.append(usize_to_string(offset).as_str());
            m.append(" with size ");
            m.append(usize_to_string(src.len()).as_str());
            m.append(" is out of bounds");
            return Err(
                RuntimeError::new(m, RuntimeErrorKind::InvalidAddress { address: offset }),
            );
        }
        let needed = offset + src.len();
        if self.data.len() < needed {
            self.data.resize(needed, 0);
        }
        let n = src.len();
        let mut j: usize = 0;
        while j < n
            invariant
                n == src@.len(),
                j <= n,
                offset + n <= usize::MAX,
                offset + n <= self.data@.len(),
                self.limits == old(self).limits,
                self.data@.len() == vstd::math::max(old(self).data@.len() as int, offset + n),
                forall|i: int|
                    0 <= i < self.data@.len() ==> self.data@[i] == (
                    if offset <= i < offset + j {
                        src@[i - offset]
                    } else {
                        old(self).byte_at(i)
                    }),
            decreases n - j,
        {
            self.data[offset + j] = src[j];
            j += 1;
        }
        Ok(())
    }

    /// Writes one byte at `offset`, growing the store to reach it. Fails
    /// with InvalidAddress at or past the RAM length.
    pub fn write(&mut self, offset: usize, src: u8) -> (r: Result<(), RuntimeError>)
        ensures
            match r {
                Ok(()) => {
                    &&& offset < old(self).limits.ram_length
                    &&& final(self).limits == old(self).limits
                    &&& final(self).data@.len() == vstd::math::max(
                        old(self).data@.len() as int,
                        offset + 1,
                    )
                    &&& forall|i: int|
                        final(self).byte_at(i) == (
                        if i == offset {
                            src
                        } else {
                            old(self).byte_at(i)
                        })
                },
                Err(e) => {
                    &&& *final(self) == *old(self)
                    &&& offset >= old(self).limits.ram_length
                    &&& e.kind == (RuntimeErrorKind::InvalidAddress { address: offset })
                },
            },
    {
        if offset >= self.limits.ram_length {
            let mut m = "Address ".to_owned();
            m.append(usize_to_string(offset).as_str());
            m.append(" is out of bounds");
            return Err(
                RuntimeError::new(m, RuntimeErrorKind::InvalidAddress { address: offset }),
            );
        }
        if offset >= self.data.len() {
            self.data.resize(offset + 1, 0);
        }
        self.data[offset] = src;
        Ok(())
    }

    /// Reads the byte at `offset`: zero past the initialized region. Fails
    /// with InvalidAddress at or past the RAM length.
    pub fn read(&self, offset: usize) -> (r: Result<u8, RuntimeError>)
        ensures
            match r {
                Ok(b) => offset < self.limits.ram_length && b == self.byte_at(offset as int),
                Err(e) => {
                    &&& offset >= self.limits.ram_length
                    &&& e.kind == (RuntimeErrorKind::InvalidAddress { address: offset })
                },
            },
    {
        if offset >= self.limits.ram_length {
            let mut m = "Address ".to_owned();
            m.append(usize_to_string(offset).as_str());
            m.append(" is out of bounds");
            return Err(
                RuntimeError::new(m, RuntimeErrorKind::InvalidAddress { address: offset }),
            );
        }
        if offset >= self.data.len() {
            return Ok(0);
        }
        Ok(self.data[offset])
    }

    /// The initialized region.
    pub fn as_bytes(&self) -> (r: &[u8])
        ensures
            r@ == self.data@,
    {
        self.data.as_slice()
    }
}

} // verus!
