//! The 64-bit program header record.
use crate::codec::{
    lemma_splice_splice, lemma_u32_at, lemma_u64_at, read_u32, read_u64, splice, u32_at,
    u32_bytes, u64_at, u64_bytes, write_u32, write_u64,
};
use crate::container::Endian;
use vstd::prelude::*;

verus! {

/// A 64-bit program header: how one segment of the file maps into memory.
/// Fields stand in the order of the file; `p_flags` comes second here.
#[derive(Clone, Copy, Debug, PartialEq, Eq, Structural, Default)]
pub struct ProgramHeader {
    /// Segment type
    pub p_type: u32,
    /// Segment flags
    pub p_flags: u32,
    /// Segment file offset
    pub p_offset: u64,
    /// Segment virtual address
    pub p_vaddr: u64,
    /// Segment physical address
    pub p_paddr: u64,
    /// Segment size in file
    pub p_filesz: u64,
    /// Segment size in memory
    pub p_memsz: u64,
    /// Segment alignment
    pub p_align: u64,
}

pub const SIZEOF_PHDR: usize = 56;

impl ProgramHeader {
    /// The bytes of the record: each field in turn, with no padding.
    pub open spec fn spec_bytes(self, e: Endian) -> Seq<u8> {
        u32_bytes(self.p_type, e) + u32_bytes(self.p_flags, e) + u64_bytes(self.p_offset, e)
            + u64_bytes(self.p_vaddr, e) + u64_bytes(self.p_paddr, e) + u64_bytes(
            self.p_filesz,
            e,
        ) + u64_bytes(self.p_memsz, e) + u64_bytes(self.p_align, e)
    }

    /// The record that the bytes of `b` from `at` on hold.
    pub open spec fn spec_at(b: Seq<u8>, at: int, e: Endian) -> ProgramHeader {
        ProgramHeader {
            p_type: u32_at(b, at, e),
            p_flags: u32_at(b, at + 4, e),
            p_offset: u64_at(b, at + 8, e),
            p_vaddr: u64_at(b, at + 16, e),
            p_paddr: u64_at(b, at + 24, e),
            p_filesz: u64_at(b, at + 32, e),
            p_memsz: u64_at(b, at + 40, e),
            p_align: u64_at(b, at + 48, e),
        }
    }

    /// Reads the record at `off`.
    pub fn read(data: &[u8], off: usize, e: Endian) -> (r: ProgramHeader)
        requires
            off + SIZEOF_PHDR <= data.len(),
        ensures
            r == ProgramHeader::spec_at(data@, off as int, e),
    {
        ProgramHeader {
            p_type: read_u32(data, off, e),
            p_flags: read_u32(data, off + 4, e),
            p_offset: read_u64(data, off + 8, e),
            p_vaddr: read_u64(data, off + 16, e),
            p_paddr: read_u64(data, off + 24, e),
            p_filesz: read_u64(data, off + 32, e),
            p_memsz: read_u64(data, off + 40, e),
            p_align: read_u64(data, off + 48, e),
        }
    }

    /// Writes the record at `off`, leaving every other byte as it was.
    pub fn write(&self, buf: &mut [u8], off: usize, e: Endian)
        requires
            off + SIZEOF_PHDR <= old(buf).len(),
        ensures
            final(buf)@ == splice(old(buf)@, off as int, self.spec_bytes(e)),
    {
        let ghost s = buf@;
        let ghost o = off as int;
        write_u32(buf, off, self.p_type, e);
        write_u32(buf, off + 4, self.p_flags, e);
        proof {
            lemma_splice_splice(s, o, u32_bytes(self.p_type, e), u32_bytes(self.p_flags, e));
        }
        let ghost acc = u32_bytes(self.p_type, e) + u32_bytes(self.p_flags, e);
        write_u64(buf, off + 8, self.p_offset, e);
        proof {
            lemma_splice_splice(s, o, acc, u64_bytes(self.p_offset, e));
            acc = acc + u64_bytes(self.p_offset, e);
        }
        write_u64(buf, off + 16, self.p_vaddr, e);
        proof {
            lemma_splice_splice(s, o, acc, u64_bytes(self.p_vaddr, e));
            acc = acc + u64_bytes(self.p_vaddr, e);
        }
        write_u64(buf, off + 24, self.p_paddr, e);
        proof {
            lemma_splice_splice(s, o, acc, u64_bytes(self.p_paddr, e));
            acc = acc + u64_bytes(self.p_paddr, e);
        }
        write_u64(buf, off + 32, self.p_filesz, e);
        proof {
            lemma_splice_splice(s, o, acc, u64_bytes(self.p_filesz, e));
            acc = acc + u64_bytes(self.p_filesz, e);
        }
        write_u64(buf, off + 40, self.p_memsz, e);
        proof {
            lemma_splice_splice(s, o, acc, u64_bytes(self.p_memsz, e));
            acc = acc + u64_bytes(self.p_memsz, e);
        }
        write_u64(buf, off + 48, self.p_align, e);
        proof {
            lemma_splice_splice(s, o, acc, u64_bytes(self.p_align, e));
        }
    }
}

/// The record is `SIZEOF_PHDR` bytes long.
pub proof fn lemma_bytes_len(h: ProgramHeader, e: Endian)
    ensures
        h.spec_bytes(e).len() == SIZEOF_PHDR,
{
    crate::codec::lemma_u32_round_trip(h.p_type, e);
    crate::codec::lemma_u32_round_trip(h.p_flags, e);
    crate::codec::lemma_u64_round_trip(h.p_offset, e);
    crate::codec::lemma_u64_round_trip(h.p_vaddr, e);
    crate::codec::lemma_u64_round_trip(h.p_paddr, e);
    crate::codec::lemma_u64_round_trip(h.p_filesz, e);
    crate::codec::lemma_u64_round_trip(h.p_memsz, e);
    crate::codec::lemma_u64_round_trip(h.p_align, e);
}

/// The record is `SIZEOF_PHDR` bytes long, and reading its bytes back gives it.
pub proof fn lemma_round_trip(h: ProgramHeader, e: Endian, b: Seq<u8>, at: int)
    requires
        0 <= at,
        at + SIZEOF_PHDR <= b.len(),
        b.subrange(at, at + SIZEOF_PHDR) == h.spec_bytes(e),
    ensures
        h.spec_bytes(e).len() == SIZEOF_PHDR,
        ProgramHeader::spec_at(b, at, e) == h,
{
    let w = h.spec_bytes(e);
    crate::codec::lemma_u32_round_trip(h.p_type, e);
    crate::codec::lemma_u32_round_trip(h.p_flags, e);
    crate::codec::lemma_u64_round_trip(h.p_offset, e);
    crate::codec::lemma_u64_round_trip(h.p_vaddr, e);
    crate::codec::lemma_u64_round_trip(h.p_paddr, e);
    crate::codec::lemma_u64_round_trip(h.p_filesz, e);
    crate::codec::lemma_u64_round_trip(h.p_memsz, e);
    crate::codec::lemma_u64_round_trip(h.p_align, e);
    assert(b.subrange(at, at + 4) =~= u32_bytes(h.p_type, e)) by {
        assert(b.subrange(at, at + 4) =~= w.subrange(0, 4));
    }
    assert(b.subrange(at + 4, at + 8) =~= u32_bytes(h.p_flags, e)) by {
        assert(b.subrange(at + 4, at + 8) =~= w.subrange(4, 8));
    }
    assert(b.subrange(at + 8, at + 16) =~= u64_bytes(h.p_offset, e)) by {
        assert(b.subrange(at + 8, at + 16) =~= w.subrange(8, 16));
    }
    assert(b.subrange(at + 16, at + 24) =~= u64_bytes(h.p_vaddr, e)) by {
        assert(b.subrange(at + 16, at + 24) =~= w.subrange(16, 24));
    }
    assert(b.subrange(at + 24, at + 32) =~= u64_bytes(h.p_paddr, e)) by {
        assert(b.subrange(at + 24, at + 32) =~= w.subrange(24, 32));
    }
    assert(b.subrange(at + 32, at + 40) =~= u64_bytes(h.p_filesz, e)) by {
        assert(b.subrange(at + 32, at + 40) =~= w.subrange(32, 40));
    }
    assert(b.subrange(at + 40, at + 48) =~= u64_bytes(h.p_memsz, e)) by {
        assert(b.subrange(at + 40, at + 48) =~= w.subrange(40, 48));
    }
    assert(b.subrange(at + 48, at + 56) =~= u64_bytes(h.p_align, e)) by {
        assert(b.subrange(at + 48, at + 56) =~= w.subrange(48, 56));
    }
    lemma_u32_at(b, at, h.p_type, e);
    lemma_u32_at(b, at + 4, h.p_flags, e);
    lemma_u64_at(b, at + 8, h.p_offset, e);
    lemma_u64_at(b, at + 16, h.p_vaddr, e);
    lemma_u64_at(b, at + 24, h.p_paddr, e);
    lemma_u64_at(b, at + 32, h.p_filesz, e);
    lemma_u64_at(b, at + 40, h.p_memsz, e);
    lemma_u64_at(b, at + 48, h.p_align, e);
}

} // verus!
