//! The block-device capability realised over an in-memory backing store:
//! reads never fail short — any byte past the backing's extent is
//! zero-filled — and an internal cursor is kept so that sequential access
//! does not seek.

use vstd::prelude::*;

use crate::block_count_for;
use crate::spec_block_count;

verus! {

/// How many bytes of a read or write of `n` bytes at `offset` fall inside
/// a backing store of `l` bytes; the rest of a read is zero-filled.
pub open spec fn read_extent(l: nat, offset: u64, n: nat) -> nat {
    if offset >= l {
        0
    } else if offset + n <= l {
        n
    } else {
        (l - offset) as nat
    }
}

/// A seek counter bumped by one, pinned at the top of its range.
pub open spec fn bump(c: u64) -> u64 {
    if c == u64::MAX {
        c
    } else {
        (c + 1) as u64
    }
}

/// A block device over an in-memory backing store. It owns the backing
/// exclusively and tracks the position its last access ended at, so a
/// read or write starting there needs no seek.
pub struct MemBackedDevice {
    data: Vec<u8>,
    block_size: u32,
    current_offset: u64,
    seek_count: u64,
}

impl MemBackedDevice {
    /// The bytes of the backing store.
    pub closed spec fn contents(&self) -> Seq<u8> {
        self.data@
    }

    /// The device's block size.
    pub closed spec fn spec_block_size(&self) -> u32 {
        self.block_size
    }

    /// The position the last access ended at.
    pub closed spec fn cursor(&self) -> u64 {
        self.current_offset
    }

    /// How many seeks the device has issued.
    pub closed spec fn seeks(&self) -> u64 {
        self.seek_count
    }

    pub open spec fn wf(&self) -> bool {
        self.spec_block_size() >= 1
    }

    /// A device over `data` with the given block size, its cursor at the
    /// start and no seek issued yet.
    pub fn new(block_size: u32, data: Vec<u8>) -> (d: MemBackedDevice)
        requires
            block_size >= 1,
        ensures
            d.wf(),
            d.contents() == data@,
            d.spec_block_size() == block_size,
            d.cursor() == 0,
            d.seeks() == 0,
    {
        MemBackedDevice { data, block_size, current_offset: 0, seek_count: 0 }
    }

    /// The block size, constant for the device's lifetime.
    pub fn block_size(&self) -> (r: u32)
        ensures
            r == self.spec_block_size(),
    {
        self.block_size
    }

    /// The number of blocks needed to cover the backing store: its length
    /// divided by the block size, rounded up.
    pub fn block_count(&self) -> (r: u64)
        requires
            self.wf(),
        ensures
            r == spec_block_count(self.contents().len(), self.spec_block_size() as nat),
    {
        block_count_for(self.data.len() as u64, self.block_size)
    }

    /// The length of the backing store in bytes.
    pub fn len(&self) -> (r: usize)
        ensures
            r == self.contents().len(),
    {
        self.data.len()
    }

    /// How many seeks the device has issued so far.
    pub fn seek_count(&self) -> (r: u64)
        ensures
            r == self.seeks(),
    {
        self.seek_count
    }

    /// Fills all of `buf` from the backing store at `offset`: bytes within
    /// the backing are copied, every byte past its end is zero. A read at
    /// the cursor issues no seek; any other read issues exactly one. The
    /// cursor ends right after the last byte the backing supplied. A read
    /// from memory cannot fail.
    pub fn read(&mut self, offset: u64, buf: &mut Vec<u8>) -> (r: Result<(), i32>)
        ensures
            r == Ok::<(), i32>(()),
            final(self).contents() == old(self).contents(),
            final(self).spec_block_size() == old(self).spec_block_size(),
            final(buf)@.len() == old(buf)@.len(),
            forall|i: int|
                0 <= i < old(buf)@.len() ==> final(buf)@[i] == (if offset + i < old(
                    self,
                ).contents().len() {
                    old(self).contents()[offset + i]
                } else {
                    0u8
                }),
            final(self).cursor() == offset + read_extent(
                old(self).contents().len(),
                offset,
                old(buf)@.len(),
            ),
            final(self).seeks() == (if offset != old(self).cursor() {
                bump(old(self).seeks())
            } else {
                old(self).seeks()
            }),
    {
        if offset != self.current_offset {
            self.current_offset = offset;
            self.seek_count = self.seek_count.saturating_add(1);
        }
        let l: usize = self.data.len();
        let n: usize = buf.len();
        let avail: usize = if offset >= l as u64 {
            0
        } else {
            let rem: u64 = l as u64 - offset;
            if (n as u64) <= rem {
                n
            } else {
                rem as usize
            }
        };
        assert(avail == read_extent(self.data@.len(), offset, n as nat));
        let mut i: usize = 0;
        while i < avail
            invariant
                i <= avail,
                avail == read_extent(self.data@.len(), offset, n as nat),
                avail <= n,
                l == self.data@.len(),
                offset + avail <= l || avail == 0,
                n == old(buf)@.len(),
                buf@.len() == n,
                self.data@ == old(self).contents(),
                forall|j: int| 0 <= j < i ==> buf@[j] == self.data@[offset + j],
                forall|j: int| i <= j < n ==> buf@[j] == old(buf)@[j],
            decreases avail - i,
        {
            assert(offset + i < l);
            let b = self.data[(offset + i as u64) as usize];
            buf[i] = b;
            i += 1;
        }
        let mut k: usize = avail;
        while k < n
            invariant
                avail <= k <= n,
                avail == read_extent(self.data@.len(), offset, n as nat),
                n == old(buf)@.len(),
                buf@.len() == n,
                self.data@ == old(self).contents(),
                forall|j: int| 0 <= j < avail ==> buf@[j] == self.data@[offset + j],
                forall|j: int| avail <= j < k ==> buf@[j] == 0u8,
            decreases n - k,
        {
            buf[k] = 0;
            k += 1;
        }
        self.current_offset = offset + avail as u64;
        Ok(())
    }

    /// Writes `payload` into the backing store at `offset`, growing it as
    /// a file would: any gap between the old end and `offset` reads as
    /// zero. Succeeds exactly when the written range fits in memory; on
    /// failure the device is untouched. Seek and cursor accounting are as
    /// for `read`. `fua` asks for durability before acknowledgement,
    /// which memory always has.
    pub fn write(&mut self, offset: u64, payload: &[u8], fua: bool) -> (r: Result<(), i32>)
        ensures
            final(self).spec_block_size() == old(self).spec_block_size(),
            offset + payload@.len() > usize::MAX ==> r == Err::<(), i32>(ENOSPC) && *final(self)
                == *old(self),
            offset + payload@.len() <= usize::MAX ==> r == Ok::<(), i32>(()) && {
                &&& final(self).contents().len() == (if offset + payload@.len() > old(
                    self,
                ).contents().len() {
                    offset + payload@.len()
                } else {
                    old(self).contents().len() as int
                })
                &&& (forall|i: int|
                    0 <= i < final(self).contents().len() ==> final(self).contents()[i] == (if offset
                        <= i < offset + payload@.len() {
                        payload@[i - offset]
                    } else if i < old(self).contents().len() {
                        old(self).contents()[i]
                    } else {
                        0u8
                    }))
                &&& final(self).cursor() == offset + payload@.len()
                &&& final(self).seeks() == (if offset != old(self).cursor() {
                    bump(old(self).seeks())
                } else {
                    old(self).seeks()
                })
            },
    {
        let n: usize = payload.len();
        if offset > usize::MAX as u64 || n as u64 > usize::MAX as u64 - offset {
            return Err(ENOSPC);
        }
        let _ = fua;  // memory is durable as soon as it is written
        if offset != self.current_offset {
            self.current_offset = offset;
            self.seek_count = self.seek_count.saturating_add(1);
        }
        let off: usize = offset as usize;
        let ghost old_len: int = old(self).contents().len() as int;
        while self.data.len() < off
            invariant
                off + n <= usize::MAX,
                old_len == old(self).contents().len(),
                self.block_size == old(self).spec_block_size(),
                self.current_offset == offset,
                self.seek_count == (if offset != old(self).cursor() {
                    bump(old(self).seeks())
                } else {
                    old(self).seeks()
                }),
                old_len <= self.data@.len(),
                self.data@.len() <= (if off > old_len {
                    off as int
                } else {
                    old_len
                }),
                forall|j: int| 0 <= j < old_len ==> self.data@[j] == old(self).contents()[j],
                forall|j: int| old_len <= j < self.data@.len() ==> self.data@[j] == 0u8,
            decreases off - self.data@.len(),
        {
            self.data.push(0);
        }
        let ghost len0: int = self.data@.len() as int;
        let mut i: usize = 0;
        while i < n
            invariant
                i <= n,
                n == payload@.len(),
                off + n <= usize::MAX,
                old_len == old(self).contents().len(),
                self.block_size == old(self).spec_block_size(),
                self.current_offset == offset,
                self.seek_count == (if offset != old(self).cursor() {
                    bump(old(self).seeks())
                } else {
                    old(self).seeks()
                }),
                len0 == (if off > old_len {
                    off as int
                } else {
                    old_len
                }),
                off <= len0,
                self.data@.len() == (if off + i > len0 {
                    off + i
                } else {
                    len0
                }),
                forall|j: int| 0 <= j < old_len && j < off ==> self.data@[j] == old(self).contents()[j],
                forall|j: int| old_len <= j < off ==> self.data@[j] == 0u8,
                forall|j: int| off <= j < off + i ==> self.data@[j] == payload@[j - off],
                forall|j: int|
                    off + i <= j < self.data@.len() ==> j < old_len && self.data@[j] == old(
                        self,
                    ).contents()[j],
            decreases n - i,
        {
            let idx = off + i;
            let b = payload[i];
            if idx < self.data.len() {
                self.data[idx] = b;
            } else {
                self.data.push(b);
            }
            i += 1;
        }
        self.current_offset = offset + n as u64;
        Ok(())
    }

    /// Punches a hole: the part of `[offset, offset + len)` inside the
    /// backing store reads as zero afterwards; nothing else changes, and
    /// the store keeps its length. With `no_hole` set the range is left
    /// allocated as it is. Trimming is offset-addressed and touches
    /// neither the cursor nor the seek count.
    pub fn trim(&mut self, offset: u64, len: usize, no_hole: bool) -> (r: Result<(), i32>)
        ensures
            r == Ok::<(), i32>(()),
            final(self).spec_block_size() == old(self).spec_block_size(),
            final(self).cursor() == old(self).cursor(),
            final(self).seeks() == old(self).seeks(),
            final(self).contents().len() == old(self).contents().len(),
            no_hole ==> final(self).contents() == old(self).contents(),
            !no_hole ==> (forall|i: int|
                0 <= i < old(self).contents().len() ==> final(self).contents()[i] == (if offset <= i
                    < offset + len {
                    0u8
                } else {
                    old(self).contents()[i]
                })),
    {
        if no_hole {
            return Ok(());
        }
        let l: usize = self.data.len();
        if offset >= l as u64 {
            return Ok(());
        }
        let start: usize = offset as usize;
        let end: usize = if len as u64 <= l as u64 - offset {
            start + len
        } else {
            l
        };
        let mut i: usize = start;
        while i < end
            invariant
                start <= i <= end,
                end <= l,
                l == self.data@.len(),
                start == offset,
                end == (if offset + len <= l {
                    offset + len
                } else {
                    l as int
                }),
                forall|j: int| 0 <= j < start ==> self.data@[j] == old(self).contents()[j],
                forall|j: int| start <= j < i ==> self.data@[j] == 0u8,
                forall|j: int| i <= j < l ==> self.data@[j] == old(self).contents()[j],
                self.block_size == old(self).spec_block_size(),
                self.current_offset == old(self).cursor(),
                self.seek_count == old(self).seeks(),
            decreases end - i,
        {
            self.data[i] = 0;
            i += 1;
        }
        Ok(())
    }

    /// Makes everything written so far durable. Memory already is, so
    /// flushing changes nothing and cannot fail.
    pub fn flush(&mut self) -> (r: Result<(), i32>)
        ensures
            r == Ok::<(), i32>(()),
            *final(self) == *old(self),
    {
        Ok(())
    }
}

/// The errno-style code a write past the addressable range fails with.
pub const ENOSPC: i32 = 28;

} // verus!
