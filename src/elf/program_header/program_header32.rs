//! The 32-bit program header record.
use crate::codec::{
    lemma_splice_splice, lemma_u32_at, lemma_u32_round_trip, read_u32, splice, u32_at, u32_bytes,
    write_u32,
};
use crate::container::Endian;
use vstd::prelude::*;

verus! {

/// A 32-bit program header: how one segment of the file maps into memory.
/// Fields stand in the order of the file; `p_flags` comes seventh here.
#[derive(Clone, Copy, Debug, PartialEq, Eq, Structural, Default)]
pub struct ProgramHeader {
    /// Segment type
    pub p_type: u32,
    /// Segment file offset
    pub p_offset: u32,
    /// Segment virtual address
    pub p_vaddr: u32,
    /// Segment physical address
    pub p_paddr: u32,
    /// Segment size in file
    pub p_filesz: u32,
    /// Segment size in memory
    pub p_memsz: u32,
    /// Segment flags
    pub p_flags: u32,
    /// Segment alignment
    pub p_align: u32,
}

pub const SIZEOF_PHDR: usize = 32;

impl ProgramHeader {
    /// The bytes of the record: each field in turn, with no padding.
    pub open spec fn spec_bytes(self, e: Endian) -> Seq<u8> {
        u32_bytes(self.p_type, e)
            + u32_bytes(self.p_offset, e)
            + u32_bytes(self.p_vaddr, e)
            + u32_bytes(self.p_paddr, e)
            + u32_bytes(self.p_filesz, e)
            + u32_bytes(self.p_memsz, e)
            + u32_bytes(self.p_flags, e)
            + u32_bytes(self.p_align, e)
    }

    /// The record that the bytes of `b` from `at` on hold.
    pub open spec fn spec_at(b: Seq<u8>, at: int, e: Endian) -> ProgramHeader {
        ProgramHeader {
            p_type: u32_at(b, at, e),
            p_offset: u32_at(b, at + 4, e),
            p_vaddr: u32_at(b, at + 8, e),
            p_paddr: u32_at(b, at + 12, e),
            p_filesz: u32_at(b, at + 16, e),
            p_memsz: u32_at(b, at + 20, e),
            p_flags: u32_at(b, at + 24, e),
            p_align: u32_at(b, at + 28, e),
        }
    }

    /// Reads the record at `off`.
    pub fn read(data: &[u8], off: usize, e: Endian) -> (r: ProgramHeader)
        requires
            off + SIZEOF_PHDR <= data.len(),
        ensures
            r == ProgramHeader::spec_at(data@, off as int, e),
    {
        ProgramHeader {
            p_type: read_u32(data, off, e),
            p_offset: read_u32(data, off + 4, e),
            p_vaddr: read_u32(data, off + 8, e),
            p_paddr: read_u32(data, off + 12, e),
            p_filesz: read_u32(data, off + 16, e),
            p_memsz: read_u32(data, off + 20, e),
            p_flags: read_u32(data, off + 24, e),
            p_align: read_u32(data, off + 28, e),
        }
    }

    /// Writes the record at `off`, leaving every other byte as it was.
    pub fn write(&self, buf: &mut [u8], off: usize, e: Endian)
        requires
            off + SIZEOF_PHDR <= old(buf).len(),
        ensures
            final(buf)@ == splice(old(buf)@, off as int, self.spec_bytes(e)),
    {
        let ghost s = buf@;
        let ghost o = off as int;
        write_u32(buf, off, self.p_type, e);
        let ghost acc = u32_bytes(self.p_type, e);
        write_u32(buf, off + 4, self.p_offset, e);
        proof {
            lemma_splice_splice(s, o, acc, u32_bytes(self.p_offset, e));
            acc = acc + u32_bytes(self.p_offset, e);
        }
        write_u32(buf, off + 8, self.p_vaddr, e);
        proof {
            lemma_splice_splice(s, o, acc, u32_bytes(self.p_vaddr, e));
            acc = acc + u32_bytes(self.p_vaddr, e);
        }
        write_u32(buf, off + 12, self.p_paddr, e);
        proof {
            lemma_splice_splice(s, o, acc, u32_bytes(self.p_paddr, e));
            acc = acc + u32_bytes(self.p_paddr, e);
        }
        write_u32(buf, off + 16, self.p_filesz, e);
        proof {
            lemma_splice_splice(s, o, acc, u32_bytes(self.p_filesz, e));
            acc = acc + u32_bytes(self.p_filesz, e);
        }
        write_u32(buf, off + 20, self.p_memsz, e);
        proof {
            lemma_splice_splice(s, o, acc, u32_bytes(self.p_memsz, e));
            acc = acc + u32_bytes(self.p_memsz, e);
        }
        write_u32(buf, off + 24, self.p_flags, e);
        proof {
            lemma_splice_splice(s, o, acc, u32_bytes(self.p_flags, e));
            acc = acc + u32_bytes(self.p_flags, e);
        }
        write_u32(buf, off + 28, self.p_align, e);
        proof {
            lemma_splice_splice(s, o, acc, u32_bytes(self.p_align, e));
            acc = acc + u32_bytes(self.p_align, e);
        }
    }
}

/// The record is `SIZEOF_PHDR` bytes long.
pub proof fn lemma_bytes_len(h: ProgramHeader, e: Endian)
    ensures
        h.spec_bytes(e).len() == SIZEOF_PHDR,
{
    crate::codec::lemma_u32_round_trip(h.p_type, e);
    crate::codec::lemma_u32_round_trip(h.p_offset, e);
    crate::codec::lemma_u32_round_trip(h.p_vaddr, e);
    crate::codec::lemma_u32_round_trip(h.p_paddr, e);
    crate::codec::lemma_u32_round_trip(h.p_filesz, e);
    crate::codec::lemma_u32_round_trip(h.p_memsz, e);
    crate::codec::lemma_u32_round_trip(h.p_flags, e);
    crate::codec::lemma_u32_round_trip(h.p_align, e);
}

/// The record is `SIZEOF_PHDR` bytes long, and reading its bytes back gives it.
pub proof fn lemma_round_trip(h: ProgramHeader, e: Endian, b: Seq<u8>, at: int)
    requires
        0 <= at,
        at + SIZEOF_PHDR <= b.len(),
        b.subrange(at, at + SIZEOF_PHDR) == h.spec_bytes(e),
    ensures
        h.spec_bytes(e).len() == SIZEOF_PHDR,
        ProgramHeader::spec_at(b, at, e) == h,
{
    let w = h.spec_bytes(e);
    lemma_u32_round_trip(h.p_type, e);
    lemma_u32_round_trip(h.p_offset, e);
    lemma_u32_round_trip(h.p_vaddr, e);
    lemma_u32_round_trip(h.p_paddr, e);
    lemma_u32_round_trip(h.p_filesz, e);
    lemma_u32_round_trip(h.p_memsz, e);
    lemma_u32_round_trip(h.p_flags, e);
    lemma_u32_round_trip(h.p_align, e);
    assert(b.subrange(at, at + 4) =~= u32_bytes(h.p_type, e)) by {
        assert(b.subrange(at, at + 4) =~= w.subrange(0, 4));
    }
    lemma_u32_at(b, at, h.p_type, e);
    assert(b.subrange(at + 4, at + 8) =~= u32_bytes(h.p_offset, e)) by {
        assert(b.subrange(at + 4, at + 8) =~= w.subrange(4, 8));
    }
    lemma_u32_at(b, at + 4, h.p_offset, e);
    assert(b.subrange(at + 8, at + 12) =~= u32_bytes(h.p_vaddr, e)) by {
        assert(b.subrange(at + 8, at + 12) =~= w.subrange(8, 12));
    }
    lemma_u32_at(b, at + 8, h.p_vaddr, e);
    assert(b.subrange(at + 12, at + 16) =~= u32_bytes(h.p_paddr, e)) by {
        assert(b.subrange(at + 12, at + 16) =~= w.subrange(12, 16));
    }
    lemma_u32_at(b, at + 12, h.p_paddr, e);
    assert(b.subrange(at + 16, at + 20) =~= u32_bytes(h.p_filesz, e)) by {
        assert(b.subrange(at + 16, at + 20) =~= w.subrange(16, 20));
    }
    lemma_u32_at(b, at + 16, h.p_filesz, e);
    assert(b.subrange(at + 20, at + 24) =~= u32_bytes(h.p_memsz, e)) by {
        assert(b.subrange(at + 20, at + 24) =~= w.subrange(20, 24));
    }
    lemma_u32_at(b, at + 20, h.p_memsz, e);
    assert(b.subrange(at + 24, at + 28) =~= u32_bytes(h.p_flags, e)) by {
        assert(b.subrange(at + 24, at + 28) =~= w.subrange(24, 28));
    }
    lemma_u32_at(b, at + 24, h.p_flags, e);
    assert(b.subrange(at + 28, at + 32) =~= u32_bytes(h.p_align, e)) by {
        assert(b.subrange(at + 28, at + 32) =~= w.subrange(28, 32));
    }
    lemma_u32_at(b, at + 28, h.p_align, e);
}

} // verus!
