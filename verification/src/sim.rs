//! A simulated in-memory address space: a verified implementation of
//! [`RawChannel`] backed by a byte vector.
//!
//! The space serves exactly the interval `[base, base + data.len())`.
//! Transfers that leave that interval fail. An optional fault window
//! `[fault_lo, fault_hi)` makes every read that touches it fail as well,
//! so callers can exercise the read-failure paths of the layers above.

use vstd::prelude::*;

use crate::channel::{bytes_at, mem_has, mem_write, RawChannel};

verus! {

/// An in-memory target address space.
pub struct SimChannel {
    /// Absolute address of `data[0]`.
    pub base: u64,
    /// The bytes backing the space.
    pub data: Vec<u8>,
    /// Start of the read-fault window.
    pub fault_lo: u64,
    /// End (exclusive) of the read-fault window; `fault_lo >= fault_hi`
    /// means no window.
    pub fault_hi: u64,
}

impl SimChannel {
    /// Whether a read of `len` bytes at `addr` touches the fault window.
    pub open spec fn hits_fault(&self, addr: u64, len: usize) -> bool {
        len > 0 && self.fault_lo < self.fault_hi && addr < self.fault_hi
            && self.fault_lo < addr + len
    }
}

impl RawChannel for SimChannel {
    open spec fn mem(&self) -> Map<int, u8> {
        Map::new(
            |a: int| self.base <= a < self.base + self.data@.len(),
            |a: int| self.data@[a - self.base],
        )
    }

    open spec fn read_ok(&self, addr: u64, len: usize) -> bool {
        self.base <= addr && addr + len <= self.base + self.data@.len()
            && !self.hits_fault(addr, len)
    }

    open spec fn write_ok(&self, addr: u64, len: usize) -> bool {
        self.base <= addr && addr + len <= self.base + self.data@.len()
    }

    fn read_bytes(&self, addr: u64, len: usize) -> (r: (Vec<u8>, bool)) {
        if addr < self.base {
            return (Vec::new(), false);
        }
        let off = addr - self.base;
        let n = self.data.len();
        if len as u64 > n as u64 || off > n as u64 - len as u64 {
            return (Vec::new(), false);
        }
        if len > 0 && self.fault_lo < self.fault_hi && addr < self.fault_hi {
            if self.fault_lo <= addr || self.fault_lo - addr < len as u64 {
                return (Vec::new(), false);
            }
        }
        let start = off as usize;
        let mut out: Vec<u8> = Vec::with_capacity(len);
        let mut i: usize = 0;
        while i < len
            invariant
                i <= len,
                out@.len() == i,
                start == addr - self.base,
                n == self.data@.len(),
                start + len <= n,
                forall|k: int| 0 <= k < i ==> out@[k] == self.data@[start + k],
            decreases len - i,
        {
            out.push(self.data[start + i]);
            i += 1;
        }
        assert(out@ =~= bytes_at(self.mem(), addr as int, len as nat));
        (out, true)
    }

    fn write_bytes(&mut self, addr: u64, data: &Vec<u8>) -> (ok: bool) {
        if addr < self.base {
            return false;
        }
        let off = addr - self.base;
        let n = self.data.len();
        let len = data.len();
        if len as u64 > n as u64 || off > n as u64 - len as u64 {
            return false;
        }
        let start = off as usize;
        let mut i: usize = 0;
        while i < len
            invariant
                i <= len,
                len == data@.len(),
                start == addr - self.base,
                n == self.data@.len(),
                start + len <= n,
                self.base == old(self).base,
                self.fault_lo == old(self).fault_lo,
                self.fault_hi == old(self).fault_hi,
                self.data@.len() == old(self).data@.len(),
                forall|k: int| 0 <= k < i ==> self.data@[start + k] == data@[k],
                forall|k: int| 0 <= k < self.data@.len() && !(start <= k < start + i)
                    ==> self.data@[k] == old(self).data@[k],
            decreases len - i,
        {
            self.data.set(start + i, data[i]);
            i += 1;
        }
        assert(self.mem() =~= mem_write(old(self).mem(), addr as int, data@));
        true
    }
}

} // verus!
