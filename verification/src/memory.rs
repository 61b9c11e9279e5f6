use vstd::prelude::*;
use vstd::slice::{slice_subrange, slice_to_vec};
use crate::error::Error;

verus! {

/// The bytes of the image `m` at addresses `addr .. addr + len`.
pub open spec fn mem_slice(m: Map<int, u8>, addr: int, len: int) -> Seq<u8> {
    Seq::new(len as nat, |i: int| m[addr + i])
}

/// The single entry point for cross-process reads.
///
/// A gateway is bound to one stopped inferior, whose memory image it views
/// as a partial map from addresses to bytes.  A read serves exactly the
/// requested number of bytes or fails; it never mutates the image.  The
/// number of reads issued is tracked so that contracts can state that an
/// operation performed no read at all.
pub trait MemoryGateway: Sized {
    /// The memory image of the stopped inferior.
    spec fn mem(&self) -> Map<int, u8>;

    /// Which reads this gateway serves.
    spec fn readable(&self, addr: int, len: int) -> bool;

    /// How many reads have been issued through this gateway.
    spec fn reads(&self) -> nat;

    /// Reads exactly `len` bytes at `addr` of the inferior `pid`, or fails
    /// with a memory error.
    fn read(&mut self, pid: i32, addr: u64, len: u64) -> (r: Result<Vec<u8>, Error>)
        ensures
            final(self).mem() == old(self).mem(),
            forall|a: int, l: int|
                #[trigger] final(self).readable(a, l) == old(self).readable(a, l),
            final(self).reads() == old(self).reads() + 1,
            r is Ok <==> old(self).readable(addr as int, len as int),
            r matches Ok(v) ==> v@.len() == len && v@ == mem_slice(
                old(self).mem(),
                addr as int,
                len as int,
            ),
            r matches Err(e) ==> e is Memory,
    ;
}

/// A memory image held in this process: a base address and the bytes from
/// there on.  Serves exactly the reads that fall inside the image.
pub struct StoredMemory {
    pub base: u64,
    pub data: Vec<u8>,
    pub read_count: Ghost<nat>,
}

impl StoredMemory {
    /// An image of `data` laid out at `base`.
    pub fn new(base: u64, data: Vec<u8>) -> (r: Self)
        ensures
            r.base == base,
            r.data == data,
            r.reads() == 0,
    {
        StoredMemory { base, data, read_count: Ghost(0) }
    }
}

impl MemoryGateway for StoredMemory {
    open spec fn mem(&self) -> Map<int, u8> {
        Map::new(
            |a: int| self.base <= a < self.base + self.data@.len(),
            |a: int| self.data@[a - self.base],
        )
    }

    open spec fn readable(&self, addr: int, len: int) -> bool {
        0 <= len && self.base <= addr && addr + len <= self.base + self.data@.len()
    }

    open spec fn reads(&self) -> nat {
        self.read_count@
    }

    fn read(&mut self, pid: i32, addr: u64, len: u64) -> (r: Result<Vec<u8>, Error>) {
        self.read_count = Ghost(self.read_count@ + 1);
        if addr < self.base {
            return Err(Error::Memory);
        }
        let off = addr - self.base;
        let dlen = self.data.len() as u64;
        if off > dlen || len > dlen - off {
            return Err(Error::Memory);
        }
        let start = off as usize;
        let end = (off + len) as usize;
        let sub = slice_subrange(self.data.as_slice(), start, end);
        let out = slice_to_vec(sub);
        proof {
            assert(out@ =~= mem_slice(self.mem(), addr as int, len as int));
        }
        Ok(out)
    }
}

} // verus!
