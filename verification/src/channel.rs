//! The raw channel: the capability to read and write bytes at absolute
//! addresses of a target address space.
//!
//! Everything above this trait is proved against its contract alone, so any
//! implementation whose methods meet the contract — the in-memory
//! [`crate::sim::SimChannel`], or an unverified transport supplied by an
//! application — gets the same guarantees for the layers built on top.

use vstd::prelude::*;

verus! {

/// The bytes of the address space hold every address in `[addr, addr + len)`.
pub open spec fn mem_has(m: Map<int, u8>, addr: int, len: nat) -> bool {
    forall|a: int| addr <= a < addr + len ==> #[trigger] m.contains_key(a)
}

/// The `len` bytes stored at `[addr, addr + len)`.
pub open spec fn bytes_at(m: Map<int, u8>, addr: int, len: nat) -> Seq<u8> {
    Seq::new(len, |i: int| m[addr + i])
}

/// The address space after `data` has been stored at `addr`: the written
/// interval holds `data`, every other address is unchanged.
pub open spec fn mem_write(m: Map<int, u8>, addr: int, data: Seq<u8>) -> Map<int, u8> {
    Map::new(
        |a: int| m.contains_key(a) || (addr <= a < addr + data.len()),
        |a: int| if addr <= a < addr + data.len() {
            data[a - addr]
        } else {
            m[a]
        },
    )
}

/// A byte-level window onto a target address space.
///
/// `mem()` is the space's current contents; `read_ok` and `write_ok` say, of
/// the current state, which transfers succeed. Success is a function of the
/// state alone, so repeating an operation against an unchanged channel gives
/// an identical outcome, and a failed write leaves the space untouched.
/// Addresses are raw `u64` offsets; no validity check happens here — an
/// address the channel cannot serve simply makes the transfer fail.
/// An implementation that leaves the three model functions at their
/// defaults models a channel about which nothing is known: no bytes, and
/// every transfer counted as failing, so the contracts below promise
/// nothing of it.
pub trait RawChannel: Sized {
    /// The bytes currently backing the target address space, keyed by
    /// absolute address.
    open spec fn mem(&self) -> Map<int, u8> {
        Map::empty()
    }

    /// Whether a read of `len` bytes at `addr` succeeds in this state.
    open spec fn read_ok(&self, addr: u64, len: usize) -> bool {
        false
    }

    /// Whether a write of `len` bytes at `addr` succeeds in this state.
    open spec fn write_ok(&self, addr: u64, len: usize) -> bool {
        false
    }

    /// Read `len` bytes at `addr`. On success the returned buffer is exactly
    /// the current contents of `[addr, addr + len)`; on failure the buffer
    /// means nothing.
    fn read_bytes(&self, addr: u64, len: usize) -> (r: (Vec<u8>, bool))
        ensures
            r.1 == self.read_ok(addr, len),
            r.1 ==> r.0@.len() == len && mem_has(self.mem(), addr as int, len as nat)
                && r.0@ == bytes_at(self.mem(), addr as int, len as nat),
    ;

    /// Write `data` at `addr`. On success the space holds `data` there and is
    /// otherwise unchanged; on failure it is unchanged entirely. Which
    /// transfers succeed is not altered by a write.
    fn write_bytes(&mut self, addr: u64, data: &Vec<u8>) -> (ok: bool)
        ensures
            ok == old(self).write_ok(addr, data.len()),
            ok ==> final(self).mem() == mem_write(old(self).mem(), addr as int, data@),
            !ok ==> final(self).mem() == old(self).mem(),
            forall|a: u64, l: usize| #[trigger] final(self).read_ok(a, l) == old(self).read_ok(a, l),
            forall|a: u64, l: usize| #[trigger] final(self).write_ok(a, l) == old(self).write_ok(a, l),
    ;
}

/// After storing `data` at `addr`, reading the written interval back gives
/// exactly `data`, and every address outside it still holds its old byte.
pub proof fn lemma_mem_write_effect(m: Map<int, u8>, addr: int, data: Seq<u8>)
    ensures
        bytes_at(mem_write(m, addr, data), addr, data.len()) == data,
        mem_has(mem_write(m, addr, data), addr, data.len()),
        forall|a: int| #[trigger] m.contains_key(a) ==> mem_write(m, addr, data).contains_key(a),
        forall|a: int| m.contains_key(a) && !(addr <= a < addr + data.len())
            ==> #[trigger] mem_write(m, addr, data)[a] == m[a],
{
    assert(bytes_at(mem_write(m, addr, data), addr, data.len()) =~= data);
}

} // verus!
