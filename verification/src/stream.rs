use vstd::prelude::*;
use vstd::bytes::{spec_u16_from_le_bytes, spec_u32_from_le_bytes, u16_from_le_bytes,
    u32_from_le_bytes};
use vstd::slice::{slice_subrange, slice_to_vec};
use crate::errors::TosError;

verus! {

/// The `u16` held little-endian in the two bytes of `d` starting at `p`.
pub open spec fn le16_at(d: Seq<u8>, p: int) -> u16 {
    spec_u16_from_le_bytes(d.subrange(p, p + 2))
}

/// The `u32` held little-endian in the four bytes of `d` starting at `p`.
pub open spec fn le32_at(d: Seq<u8>, p: int) -> u32 {
    spec_u32_from_le_bytes(d.subrange(p, p + 4))
}

/// What `String::from_utf8_lossy` decodes the given bytes to.
pub uninterp spec fn lossy_utf8(bytes: Seq<u8>) -> Seq<char>;

/// Relies on String::from_utf8_lossy: the decoding is a pure function of
/// the bytes alone (invalid sequences become replacement characters),
/// and no bytes decode to no text.
#[verifier::external_body]
pub(crate) fn lossy_string(bytes: &[u8]) -> (r: String)
    ensures
        r@ == lossy_utf8(bytes@),
        bytes@.len() == 0 ==> r@.len() == 0,
{
    String::from_utf8_lossy(bytes).into_owned()
}

/// Index of the first zero byte of `s`, or `s.len()` if there is none.
pub open spec fn first_nul(s: Seq<u8>) -> int
    decreases s.len(),
{
    if s.len() == 0 {
        0
    } else if s[0] == 0 {
        0
    } else {
        1 + first_nul(s.drop_first())
    }
}

proof fn lemma_first_nul_bounds(s: Seq<u8>)
    ensures
        0 <= first_nul(s) <= s.len(),
        forall|i: int| 0 <= i < first_nul(s) ==> s[i] != 0,
        first_nul(s) < s.len() ==> s[first_nul(s)] == 0,
    decreases s.len(),
{
    if s.len() != 0 && s[0] != 0 {
        lemma_first_nul_bounds(s.drop_first());
        assert forall|i: int| 0 <= i < first_nul(s) implies s[i] != 0 by {
            if i > 0 {
                assert(s.drop_first()[i - 1] != 0);
            }
        }
    }
}

/// A position to seek to, counted from the start, the end, or the
/// current position of the stream.
#[derive(Debug, Clone, Copy)]
pub enum SeekFrom {
    Start(u64),
    End(i64),
    Current(i64),
}

impl SeekFrom {
    /// The absolute position this seek asks for, given the stream's
    /// length and current position.
    pub open spec fn target(self, len: int, pos: int) -> int {
        match self {
            SeekFrom::Start(o) => o as int,
            SeekFrom::End(o) => len + o,
            SeekFrom::Current(o) => pos + o,
        }
    }
}

/// A positioned little-endian reader over an in-memory byte buffer.
///
/// The position may stand past the end of the buffer — a seek there
/// succeeds, as it does on a file — and any read that would cross the
/// end fails with `TosError::IoError`, leaving the position unchanged.
pub struct BinaryReader {
    pub data: Vec<u8>,
    pub pos: u64,
}

impl BinaryReader {
    /// The bytes the reader ranges over.
    pub open spec fn data(self) -> Seq<u8> {
        self.data@
    }

    /// The current read position.
    pub open spec fn pos(self) -> int {
        self.pos as int
    }

    /// Creates a reader positioned at the start of `data`.
    pub fn new(data: Vec<u8>) -> (r: Self)
        ensures
            r.data() == data@,
            r.pos() == 0,
    {
        BinaryReader { data, pos: 0 }
    }

    /// Reads one byte.
    pub fn read_u8(&mut self) -> (r: Result<u8, TosError>)
        ensures
            final(self).data() == old(self).data(),
            old(self).pos() + 1 <= old(self).data().len() ==> {
                &&& r == Ok::<u8, TosError>(old(self).data()[old(self).pos()])
                &&& final(self).pos() == old(self).pos() + 1
            },
            old(self).pos() + 1 > old(self).data().len() ==> {
                &&& r == Err::<u8, TosError>(TosError::IoError)
                &&& final(self).pos() == old(self).pos()
            },
    {
        if self.pos < self.data.len() as u64 {
            let b = self.data[self.pos as usize];
            self.pos = self.pos + 1;
            Ok(b)
        } else {
            Err(TosError::IoError)
        }
    }

    /// Reads a little-endian `u16`.
    pub fn read_u16(&mut self) -> (r: Result<u16, TosError>)
        ensures
            final(self).data() == old(self).data(),
            old(self).pos() + 2 <= old(self).data().len() ==> {
                &&& r == Ok::<u16, TosError>(le16_at(old(self).data(), old(self).pos()))
                &&& final(self).pos() == old(self).pos() + 2
            },
            old(self).pos() + 2 > old(self).data().len() ==> {
                &&& r == Err::<u16, TosError>(TosError::IoError)
                &&& final(self).pos() == old(self).pos()
            },
    {
        let len = self.data.len();
        if self.pos <= len as u64 && len as u64 - self.pos >= 2 {
            let i = self.pos as usize;
            let s = slice_subrange(self.data.as_slice(), i, i + 2);
            let v = u16_from_le_bytes(s);
            self.pos = self.pos + 2;
            Ok(v)
        } else {
            Err(TosError::IoError)
        }
    }

    /// Reads a little-endian `u32`.
    pub fn read_u32(&mut self) -> (r: Result<u32, TosError>)
        ensures
            final(self).data() == old(self).data(),
            old(self).pos() + 4 <= old(self).data().len() ==> {
                &&& r == Ok::<u32, TosError>(le32_at(old(self).data(), old(self).pos()))
                &&& final(self).pos() == old(self).pos() + 4
            },
            old(self).pos() + 4 > old(self).data().len() ==> {
                &&& r == Err::<u32, TosError>(TosError::IoError)
                &&& final(self).pos() == old(self).pos()
            },
    {
        let len = self.data.len();
        if self.pos <= len as u64 && len as u64 - self.pos >= 4 {
            let i = self.pos as usize;
            let s = slice_subrange(self.data.as_slice(), i, i + 4);
            let v = u32_from_le_bytes(s);
            self.pos = self.pos + 4;
            Ok(v)
        } else {
            Err(TosError::IoError)
        }
    }

    /// Reads a little-endian `i32` (the same four bytes, reinterpreted).
    pub fn read_i32(&mut self) -> (r: Result<i32, TosError>)
        ensures
            final(self).data() == old(self).data(),
            old(self).pos() + 4 <= old(self).data().len() ==> {
                &&& r == Ok::<i32, TosError>(le32_at(old(self).data(), old(self).pos()) as i32)
                &&& final(self).pos() == old(self).pos() + 4
            },
            old(self).pos() + 4 > old(self).data().len() ==> {
                &&& r == Err::<i32, TosError>(TosError::IoError)
                &&& final(self).pos() == old(self).pos()
            },
    {
        match self.read_u32() {
            Ok(v) => Ok(
                #[verifier::truncate]
                (v as i32),
            ),
            Err(e) => Err(e),
        }
    }

    /// Reads `size` raw bytes. Reading no bytes succeeds wherever the
    /// position stands, as filling an empty buffer reads nothing.
    pub fn read_bytes(&mut self, size: usize) -> (r: Result<Vec<u8>, TosError>)
        ensures
            final(self).data() == old(self).data(),
            size == 0 ==> {
                &&& r is Ok
                &&& r->Ok_0@ == Seq::<u8>::empty()
                &&& final(self).pos() == old(self).pos()
            },
            size == 0 && old(self).pos() <= old(self).data().len() ==> r->Ok_0@ == old(
                self,
            ).data().subrange(old(self).pos(), old(self).pos()),
            size > 0 && old(self).pos() + size <= old(self).data().len() ==> {
                &&& r is Ok
                &&& r->Ok_0@ == old(self).data().subrange(
                    old(self).pos(),
                    old(self).pos() + size,
                )
                &&& final(self).pos() == old(self).pos() + size
            },
            size > 0 && old(self).pos() + size > old(self).data().len() ==> {
                &&& r == Err::<Vec<u8>, TosError>(TosError::IoError)
                &&& final(self).pos() == old(self).pos()
            },
    {
        if size == 0 {
            let v: Vec<u8> = Vec::new();
            proof {
                if old(self).pos() <= old(self).data().len() {
                    assert(v@ =~= old(self).data().subrange(old(self).pos(), old(self).pos()));
                }
            }
            return Ok(v);
        }
        let len = self.data.len();
        if self.pos <= len as u64 && (len as u64 - self.pos) as u64 >= size as u64 {
            let i = self.pos as usize;
            let s = slice_subrange(self.data.as_slice(), i, i + size);
            let v = slice_to_vec(s);
            self.pos = self.pos + size as u64;
            Ok(v)
        } else {
            Err(TosError::IoError)
        }
    }

    /// Reads `length` raw bytes, the count given as a `u16`.
    pub fn read_bytes_u16(&mut self, length: u16) -> (r: Result<Vec<u8>, TosError>)
        ensures
            final(self).data() == old(self).data(),
            length == 0 ==> {
                &&& r is Ok
                &&& r->Ok_0@ == Seq::<u8>::empty()
                &&& final(self).pos() == old(self).pos()
            },
            length == 0 && old(self).pos() <= old(self).data().len() ==> r->Ok_0@ == old(
                self,
            ).data().subrange(old(self).pos(), old(self).pos()),
            length > 0 && old(self).pos() + length <= old(self).data().len() ==> {
                &&& r is Ok
                &&& r->Ok_0@ == old(self).data().subrange(
                    old(self).pos(),
                    old(self).pos() + length,
                )
                &&& final(self).pos() == old(self).pos() + length
            },
            length > 0 && old(self).pos() + length > old(self).data().len() ==> {
                &&& r == Err::<Vec<u8>, TosError>(TosError::IoError)
                &&& final(self).pos() == old(self).pos()
            },
    {
        self.read_bytes(length as usize)
    }

    /// Reads exactly three raw bytes.
    pub fn read_u8_array_3(&mut self) -> (r: Result<[u8; 3], TosError>)
        ensures
            final(self).data() == old(self).data(),
            old(self).pos() + 3 <= old(self).data().len() ==> {
                &&& r is Ok
                &&& r->Ok_0@ == old(self).data().subrange(old(self).pos(), old(self).pos() + 3)
                &&& final(self).pos() == old(self).pos() + 3
            },
            old(self).pos() + 3 > old(self).data().len() ==> {
                &&& r == Err::<[u8; 3], TosError>(TosError::IoError)
                &&& final(self).pos() == old(self).pos()
            },
    {
        let len = self.data.len();
        if self.pos <= len as u64 && len as u64 - self.pos >= 3 {
            let i = self.pos as usize;
            let a = self.data[i];
            let b = self.data[i + 1];
            let c = self.data[i + 2];
            self.pos = self.pos + 3;
            let arr = [a, b, c];
            proof {
                assert(arr@ =~= old(self).data().subrange(old(self).pos(), old(self).pos() + 3));
            }
            Ok(arr)
        } else {
            Err(TosError::IoError)
        }
    }

    /// Takes the text before the first zero byte of `raw_bytes`, decoded
    /// leniently as UTF-8.
    pub fn parse_string(raw_bytes: &[u8]) -> (r: String)
        ensures
            r@ == lossy_utf8(raw_bytes@.take(first_nul(raw_bytes@))),
            first_nul(raw_bytes@) == 0 ==> r@.len() == 0,
    {
        proof {
            lemma_first_nul_bounds(raw_bytes@);
        }
        let mut i: usize = 0;
        while i < raw_bytes.len() && *vstd::slice::slice_index_get(raw_bytes, i) != 0
            invariant
                0 <= i <= raw_bytes@.len(),
                forall|j: int| 0 <= j < i ==> raw_bytes@[j] != 0,
            decreases raw_bytes@.len() - i,
        {
            i = i + 1;
        }
        proof {
            assert(i as int == first_nul(raw_bytes@)) by {
                lemma_first_nul_bounds(raw_bytes@);
            }
        }
        let head = slice_subrange(raw_bytes, 0, i);
        lossy_string(head)
    }

    /// Moves the position to the resolved target, which may stand past
    /// the end of the buffer; only a target outside the 64-bit position
    /// range fails.
    pub fn seek(&mut self, target: SeekFrom) -> (r: Result<(), TosError>)
        ensures
            final(self).data() == old(self).data(),
            ({
                let t = target.target(old(self).data().len() as int, old(self).pos());
                &&& (0 <= t <= u64::MAX ==> {
                    &&& r == Ok::<(), TosError>(())
                    &&& final(self).pos() == t
                })
                &&& (!(0 <= t <= u64::MAX) ==> {
                    &&& r == Err::<(), TosError>(TosError::IoError)
                    &&& final(self).pos() == old(self).pos()
                })
            }),
    {
        let len = self.data.len() as u64;
        let t: i128 = match target {
            SeekFrom::Start(o) => o as i128,
            SeekFrom::End(o) => len as i128 + o as i128,
            SeekFrom::Current(o) => self.pos as i128 + o as i128,
        };
        if t < 0 || t > u64::MAX as i128 {
            Err(TosError::IoError)
        } else {
            self.pos = t as u64;
            Ok(())
        }
    }

    /// The current position.
    pub fn tell(&self) -> (r: u64)
        ensures
            r as int == self.pos(),
    {
        self.pos
    }

    /// The length of the underlying buffer.
    pub fn file_size(&self) -> (r: u64)
        ensures
            r == self.data().len(),
    {
        self.data.len() as u64
    }

    /// Whether the position has reached (or passed) the end of the
    /// buffer.
    pub fn is_eof(&self) -> (r: bool)
        ensures
            r == (self.pos() >= self.data().len()),
    {
        self.pos >= self.data.len() as u64
    }

    /// Moves the position by `n` bytes, forward or backward.
    pub fn skip_bytes(&mut self, n: i64) -> (r: Result<(), TosError>)
        ensures
            final(self).data() == old(self).data(),
            0 <= old(self).pos() + n <= u64::MAX ==> {
                &&& r == Ok::<(), TosError>(())
                &&& final(self).pos() == old(self).pos() + n
            },
            !(0 <= old(self).pos() + n <= u64::MAX) ==> {
                &&& r == Err::<(), TosError>(TosError::IoError)
                &&& final(self).pos() == old(self).pos()
            },
    {
        self.seek(SeekFrom::Current(n))
    }
}

} // verus!
