//! ELF program headers: one canonical record with 64-bit fields, read from and
//! written to the 32- or 64-bit layout that a context selects.
use crate::codec::{first_short, splice};
use crate::container::{Container, Ctx};
use crate::error::{Error, Record, Result};
use vstd::prelude::*;

pub mod program_header32;
pub mod program_header64;

verus! {

/// Program header table entry unused
pub const PT_NULL: u32 = 0;

/// Loadable program segment
pub const PT_LOAD: u32 = 1;

/// Dynamic linking information
pub const PT_DYNAMIC: u32 = 2;

/// Program interpreter
pub const PT_INTERP: u32 = 3;

/// Auxiliary information
pub const PT_NOTE: u32 = 4;

/// Reserved
pub const PT_SHLIB: u32 = 5;

/// Entry for header table itself
pub const PT_PHDR: u32 = 6;

/// Thread-local storage segment
pub const PT_TLS: u32 = 7;

/// Number of defined types
pub const PT_NUM: u32 = 8;

/// Start of OS-specific
pub const PT_LOOS: u32 = 0x60000000;

/// GCC .eh_frame_hdr segment
pub const PT_GNU_EH_FRAME: u32 = 0x6474e550;

/// Indicates stack executability
pub const PT_GNU_STACK: u32 = 0x6474e551;

/// Read-only after relocation
pub const PT_GNU_RELRO: u32 = 0x6474e552;

/// Sun Specific segment
pub const PT_LOSUNW: u32 = 0x6ffffffa;

/// Sun Specific segment
pub const PT_SUNWBSS: u32 = 0x6ffffffa;

/// Stack segment
pub const PT_SUNWSTACK: u32 = 0x6ffffffb;

/// End of OS-specific
pub const PT_HISUNW: u32 = 0x6fffffff;

/// End of OS-specific
pub const PT_HIOS: u32 = 0x6fffffff;

/// Start of processor-specific
pub const PT_LOPROC: u32 = 0x70000000;

/// ARM unwind segment
pub const PT_ARM_EXIDX: u32 = 0x70000001;

/// End of processor-specific
pub const PT_HIPROC: u32 = 0x7fffffff;

/// Segment is executable
pub const PF_X: u32 = 1;

/// Segment is writable
pub const PF_W: u32 = 2;

/// Segment is readable
pub const PF_R: u32 = 4;

/// The name of a segment type, `UNKNOWN_PT` for a value outside the known set.
/// Where two names share a value, the first in this list is given.
pub open spec fn pt_name(pt: u32) -> Seq<char> {
    if pt == PT_NULL {
        "PT_NULL"@
    } else if pt == PT_LOAD {
        "PT_LOAD"@
    } else if pt == PT_DYNAMIC {
        "PT_DYNAMIC"@
    } else if pt == PT_INTERP {
        "PT_INTERP"@
    } else if pt == PT_NOTE {
        "PT_NOTE"@
    } else if pt == PT_SHLIB {
        "PT_SHLIB"@
    } else if pt == PT_PHDR {
        "PT_PHDR"@
    } else if pt == PT_TLS {
        "PT_TLS"@
    } else if pt == PT_NUM {
        "PT_NUM"@
    } else if pt == PT_LOOS {
        "PT_LOOS"@
    } else if pt == PT_GNU_EH_FRAME {
        "PT_GNU_EH_FRAME"@
    } else if pt == PT_GNU_STACK {
        "PT_GNU_STACK"@
    } else if pt == PT_GNU_RELRO {
        "PT_GNU_RELRO"@
    } else if pt == PT_SUNWBSS {
        "PT_SUNWBSS"@
    } else if pt == PT_SUNWSTACK {
        "PT_SUNWSTACK"@
    } else if pt == PT_HIOS {
        "PT_HIOS"@
    } else if pt == PT_LOPROC {
        "PT_LOPROC"@
    } else if pt == PT_HIPROC {
        "PT_HIPROC"@
    } else if pt == PT_ARM_EXIDX {
        "PT_ARM_EXIDX"@
    } else {
        "UNKNOWN_PT"@
    }
}

pub fn pt_to_str(pt: u32) -> (r: &'static str)
    ensures
        r@ == pt_name(pt),
{
    if pt == PT_NULL {
        "PT_NULL"
    } else if pt == PT_LOAD {
        "PT_LOAD"
    } else if pt == PT_DYNAMIC {
        "PT_DYNAMIC"
    } else if pt == PT_INTERP {
        "PT_INTERP"
    } else if pt == PT_NOTE {
        "PT_NOTE"
    } else if pt == PT_SHLIB {
        "PT_SHLIB"
    } else if pt == PT_PHDR {
        "PT_PHDR"
    } else if pt == PT_TLS {
        "PT_TLS"
    } else if pt == PT_NUM {
        "PT_NUM"
    } else if pt == PT_LOOS {
        "PT_LOOS"
    } else if pt == PT_GNU_EH_FRAME {
        "PT_GNU_EH_FRAME"
    } else if pt == PT_GNU_STACK {
        "PT_GNU_STACK"
    } else if pt == PT_GNU_RELRO {
        "PT_GNU_RELRO"
    } else if pt == PT_SUNWBSS {
        "PT_SUNWBSS"
    } else if pt == PT_SUNWSTACK {
        "PT_SUNWSTACK"
    } else if pt == PT_HIOS {
        "PT_HIOS"
    } else if pt == PT_LOPROC {
        "PT_LOPROC"
    } else if pt == PT_HIPROC {
        "PT_HIPROC"
    } else if pt == PT_ARM_EXIDX {
        "PT_ARM_EXIDX"
    } else {
        "UNKNOWN_PT"
    }
}


/// A program header of either width: how one segment of the file maps into memory.
#[derive(Clone, Copy, Debug, PartialEq, Eq, Structural)]
pub struct ProgramHeader {
    pub p_type: u32,
    pub p_flags: u32,
    pub p_offset: u64,
    pub p_vaddr: u64,
    pub p_paddr: u64,
    pub p_filesz: u64,
    pub p_memsz: u64,
    pub p_align: u64,
}

/// The canonical header of a 32-bit record: each field widened.
pub open spec fn from_narrow(ph: program_header32::ProgramHeader) -> ProgramHeader {
    ProgramHeader {
        p_type: ph.p_type,
        p_flags: ph.p_flags,
        p_offset: ph.p_offset as u64,
        p_vaddr: ph.p_vaddr as u64,
        p_paddr: ph.p_paddr as u64,
        p_filesz: ph.p_filesz as u64,
        p_memsz: ph.p_memsz as u64,
        p_align: ph.p_align as u64,
    }
}

/// The 32-bit record of a canonical header: each 64-bit field cut to its low 32 bits.
pub open spec fn to_narrow(ph: ProgramHeader) -> program_header32::ProgramHeader {
    program_header32::ProgramHeader {
        p_type: ph.p_type,
        p_flags: ph.p_flags,
        p_offset: ph.p_offset as u32,
        p_vaddr: ph.p_vaddr as u32,
        p_paddr: ph.p_paddr as u32,
        p_filesz: ph.p_filesz as u32,
        p_memsz: ph.p_memsz as u32,
        p_align: ph.p_align as u32,
    }
}

/// The canonical header of a 64-bit record.
pub open spec fn from_wide(ph: program_header64::ProgramHeader) -> ProgramHeader {
    ProgramHeader {
        p_type: ph.p_type,
        p_flags: ph.p_flags,
        p_offset: ph.p_offset,
        p_vaddr: ph.p_vaddr,
        p_paddr: ph.p_paddr,
        p_filesz: ph.p_filesz,
        p_memsz: ph.p_memsz,
        p_align: ph.p_align,
    }
}

/// The 64-bit record of a canonical header.
pub open spec fn to_wide(ph: ProgramHeader) -> program_header64::ProgramHeader {
    program_header64::ProgramHeader {
        p_type: ph.p_type,
        p_flags: ph.p_flags,
        p_offset: ph.p_offset,
        p_vaddr: ph.p_vaddr,
        p_paddr: ph.p_paddr,
        p_filesz: ph.p_filesz,
        p_memsz: ph.p_memsz,
        p_align: ph.p_align,
    }
}

impl From<program_header32::ProgramHeader> for ProgramHeader {
    fn from(ph: program_header32::ProgramHeader) -> (r: ProgramHeader)
        ensures
            r == from_narrow(ph),
    {
        ProgramHeader {
            p_type: ph.p_type,
            p_flags: ph.p_flags,
            p_offset: ph.p_offset as u64,
            p_vaddr: ph.p_vaddr as u64,
            p_paddr: ph.p_paddr as u64,
            p_filesz: ph.p_filesz as u64,
            p_memsz: ph.p_memsz as u64,
            p_align: ph.p_align as u64,
        }
    }
}

impl vstd::std_specs::convert::FromSpecImpl<program_header32::ProgramHeader> for ProgramHeader {
    open spec fn obeys_from_spec() -> bool {
        true
    }

    open spec fn from_spec(ph: program_header32::ProgramHeader) -> ProgramHeader {
        from_narrow(ph)
    }
}

impl From<ProgramHeader> for program_header32::ProgramHeader {
    fn from(ph: ProgramHeader) -> (r: program_header32::ProgramHeader)
        ensures
            r == to_narrow(ph),
    {
        program_header32::ProgramHeader {
            p_type: ph.p_type,
            p_flags: ph.p_flags,
            p_offset: ph.p_offset as u32,
            p_vaddr: ph.p_vaddr as u32,
            p_paddr: ph.p_paddr as u32,
            p_filesz: ph.p_filesz as u32,
            p_memsz: ph.p_memsz as u32,
            p_align: ph.p_align as u32,
        }
    }
}

impl vstd::std_specs::convert::FromSpecImpl<ProgramHeader> for program_header32::ProgramHeader {
    open spec fn obeys_from_spec() -> bool {
        true
    }

    open spec fn from_spec(ph: ProgramHeader) -> program_header32::ProgramHeader {
        to_narrow(ph)
    }
}

impl From<program_header64::ProgramHeader> for ProgramHeader {
    fn from(ph: program_header64::ProgramHeader) -> (r: ProgramHeader)
        ensures
            r == from_wide(ph),
    {
        ProgramHeader {
            p_type: ph.p_type,
            p_flags: ph.p_flags,
            p_offset: ph.p_offset,
            p_vaddr: ph.p_vaddr,
            p_paddr: ph.p_paddr,
            p_filesz: ph.p_filesz,
            p_memsz: ph.p_memsz,
            p_align: ph.p_align,
        }
    }
}

impl vstd::std_specs::convert::FromSpecImpl<program_header64::ProgramHeader> for ProgramHeader {
    open spec fn obeys_from_spec() -> bool {
        true
    }

    open spec fn from_spec(ph: program_header64::ProgramHeader) -> ProgramHeader {
        from_wide(ph)
    }
}

impl From<ProgramHeader> for program_header64::ProgramHeader {
    fn from(ph: ProgramHeader) -> (r: program_header64::ProgramHeader)
        ensures
            r == to_wide(ph),
    {
        program_header64::ProgramHeader {
            p_type: ph.p_type,
            p_flags: ph.p_flags,
            p_offset: ph.p_offset,
            p_vaddr: ph.p_vaddr,
            p_paddr: ph.p_paddr,
            p_filesz: ph.p_filesz,
            p_memsz: ph.p_memsz,
            p_align: ph.p_align,
        }
    }
}

impl vstd::std_specs::convert::FromSpecImpl<ProgramHeader> for program_header64::ProgramHeader {
    open spec fn obeys_from_spec() -> bool {
        true
    }

    open spec fn from_spec(ph: ProgramHeader) -> program_header64::ProgramHeader {
        to_wide(ph)
    }
}


impl ProgramHeader {
    /// The size of the record that `ctx` selects.
    pub open spec fn spec_size(ctx: Ctx) -> nat {
        match ctx.container {
            Container::Little => 32,
            Container::Big => 56,
        }
    }

    /// The header that the bytes of `b` from `at` on hold, in the layout of `ctx`.
    pub open spec fn spec_at(b: Seq<u8>, at: int, ctx: Ctx) -> ProgramHeader {
        match ctx.container {
            Container::Little => from_narrow(
                program_header32::ProgramHeader::spec_at(b, at, ctx.le),
            ),
            Container::Big => from_wide(program_header64::ProgramHeader::spec_at(b, at, ctx.le)),
        }
    }

    /// The bytes of this header in the layout of `ctx`.
    pub open spec fn spec_bytes(self, ctx: Ctx) -> Seq<u8> {
        match ctx.container {
            Container::Little => to_narrow(self).spec_bytes(ctx.le),
            Container::Big => to_wide(self).spec_bytes(ctx.le),
        }
    }

    /// Whether the layout of `ctx` holds every field: a 32-bit record holds only
    /// values below 2^32.
    pub open spec fn fits(self, ctx: Ctx) -> bool {
        ctx.container == Container::Little ==> {
            &&& self.p_offset <= u32::MAX
            &&& self.p_vaddr <= u32::MAX
            &&& self.p_paddr <= u32::MAX
            &&& self.p_filesz <= u32::MAX
            &&& self.p_memsz <= u32::MAX
            &&& self.p_align <= u32::MAX
        }
    }

    /// Whether `count` records fit from `offset` on in `len` bytes.
    pub open spec fn table_fits(len: int, offset: int, count: int, ctx: Ctx) -> bool {
        count == 0 || offset + count * ProgramHeader::spec_size(ctx) <= len
    }

    /// The size of the record in the layout of `ctx`.
    pub fn size(ctx: &Ctx) -> (r: usize)
        ensures
            r == ProgramHeader::spec_size(*ctx),
    {
        match ctx.container {
            Container::Little => program_header32::SIZEOF_PHDR,
            Container::Big => program_header64::SIZEOF_PHDR,
        }
    }

    /// A loadable segment with no flags, at zero, of size zero, aligned to 2 MiB.
    pub fn new() -> (r: ProgramHeader)
        ensures
            r == (ProgramHeader {
                p_type: PT_LOAD,
                p_flags: 0,
                p_offset: 0,
                p_vaddr: 0,
                p_paddr: 0,
                p_filesz: 0,
                p_memsz: 0,
                p_align: 0x200000,
            }),
    {
        ProgramHeader {
            p_type: PT_LOAD,
            p_flags: 0,
            p_offset: 0,
            p_vaddr: 0,
            p_paddr: 0,
            p_filesz: 0,
            p_memsz: 0,
            p_align: 0x200000,
        }
    }

    /// The bytes of the file that the segment occupies.
    pub fn to_range(&self) -> (r: core::ops::Range<usize>)
        requires
            self.p_offset + self.p_filesz <= usize::MAX,
        ensures
            r.start == self.p_offset,
            r.end == self.p_offset + self.p_filesz,
    {
        let start = self.p_offset as usize;
        let end = start + self.p_filesz as usize;
        start..end
    }

    /// Sets the executable flag.
    pub fn executable(&mut self)
        ensures
            *final(self) == (ProgramHeader { p_flags: old(self).p_flags | PF_X, ..*old(self) }),
    {
        self.p_flags = self.p_flags | PF_X;
    }

    /// Sets the write flag.
    pub fn write(&mut self)
        ensures
            *final(self) == (ProgramHeader { p_flags: old(self).p_flags | PF_W, ..*old(self) }),
    {
        self.p_flags = self.p_flags | PF_W;
    }

    /// Sets the read flag.
    pub fn read(&mut self)
        ensures
            *final(self) == (ProgramHeader { p_flags: old(self).p_flags | PF_R, ..*old(self) }),
    {
        self.p_flags = self.p_flags | PF_R;
    }

    /// Reads one header at `offset`, in the layout and byte order of `ctx`, and gives
    /// the number of bytes it took.
    pub fn try_from_ctx(bytes: &[u8], offset: usize, ctx: Ctx) -> (r: Result<(ProgramHeader, usize)>)
        ensures
            offset + ProgramHeader::spec_size(ctx) <= bytes@.len() ==> r == Ok::<_, Error>(
                (
                    ProgramHeader::spec_at(bytes@, offset as int, ctx),
                    ProgramHeader::spec_size(ctx) as usize,
                ),
            ),
            offset + ProgramHeader::spec_size(ctx) > bytes@.len() ==> r == Err::<
                (ProgramHeader, usize),
                _,
            >(Error::Truncated { record: Record::ProgramHeader, offset }),
    {
        let size = ProgramHeader::size(&ctx);
        if offset > bytes.len() || bytes.len() - offset < size {
            return Err(Error::Truncated { record: Record::ProgramHeader, offset });
        }
        let ph = match ctx.container {
            Container::Little => ProgramHeader::from(
                program_header32::ProgramHeader::read(bytes, offset, ctx.le),
            ),
            Container::Big => ProgramHeader::from(
                program_header64::ProgramHeader::read(bytes, offset, ctx.le),
            ),
        };
        Ok((ph, size))
    }

    /// Writes this header at `offset`, in the layout and byte order of `ctx`, and
    /// gives the number of bytes written. A 32-bit record keeps the low 32 bits of
    /// each 64-bit field.
    pub fn try_into_ctx(self, bytes: &mut [u8], offset: usize, ctx: Ctx) -> (r: Result<usize>)
        ensures
            offset + ProgramHeader::spec_size(ctx) <= old(bytes)@.len() ==> {
                &&& r == Ok::<usize, Error>(ProgramHeader::spec_size(ctx) as usize)
                &&& final(bytes)@ == splice(old(bytes)@, offset as int, self.spec_bytes(ctx))
            },
            offset + ProgramHeader::spec_size(ctx) > old(bytes)@.len() ==> {
                &&& r == Err::<usize, Error>(
                    Error::Truncated { record: Record::ProgramHeader, offset },
                )
                &&& final(bytes)@ == old(bytes)@
            },
    {
        let size = ProgramHeader::size(&ctx);
        if offset > bytes.len() || bytes.len() - offset < size {
            return Err(Error::Truncated { record: Record::ProgramHeader, offset });
        }
        match ctx.container {
            Container::Little => {
                let ph = program_header32::ProgramHeader::from(self);
                ph.write(bytes, offset, ctx.le);
            },
            Container::Big => {
                let ph = program_header64::ProgramHeader::from(self);
                ph.write(bytes, offset, ctx.le);
            },
        }
        Ok(size)
    }

    /// Reads `count` consecutive headers from `offset` on, in file order.
    pub fn parse(bytes: &[u8], offset: usize, count: usize, ctx: Ctx) -> (r: Result<
        Vec<ProgramHeader>,
    >)
        ensures
            ProgramHeader::table_fits(bytes@.len() as int, offset as int, count as int, ctx)
                ==> r is Ok && r->Ok_0@.len() == count && forall|i: int|
                0 <= i < count ==> #[trigger] r->Ok_0@[i] == ProgramHeader::spec_at(
                bytes@,
                offset + i * ProgramHeader::spec_size(ctx),
                ctx,
            ),
            !ProgramHeader::table_fits(bytes@.len() as int, offset as int, count as int, ctx)
                ==> r == Err::<Vec<ProgramHeader>, Error>(
                Error::Truncated {
                    record: Record::ProgramHeader,
                    offset: first_short(
                        bytes@.len() as int,
                        offset as int,
                        ProgramHeader::spec_size(ctx) as int,
                    ) as usize,
                },
            ),
    {
        let ghost size = ProgramHeader::spec_size(ctx) as int;
        let len = bytes.len();
        let mut program_headers: Vec<ProgramHeader> = Vec::new();
        let mut cur = offset;
        let mut i: usize = 0;
        while i < count
            invariant
                i <= count,
                cur == offset + i * size,
                i > 0 ==> cur <= len,
                size == ProgramHeader::spec_size(ctx),
                len == bytes@.len(),
                program_headers@.len() == i,
                forall|j: int|
                    0 <= j < i ==> #[trigger] program_headers@[j] == ProgramHeader::spec_at(
                        bytes@,
                        offset + j * size,
                        ctx,
                    ),
            decreases count - i,
        {
            match ProgramHeader::try_from_ctx(bytes, cur, ctx) {
                Ok((ph, n)) => {
                    program_headers.push(ph);
                    cur = cur + n;
                    i = i + 1;
                    assert(cur == offset + i * size) by (nonlinear_arith)
                        requires
                            cur == offset + (i - 1) * size + size,
                    ;
                },
                Err(e) => {
                    proof {
                        if offset <= len {
                            vstd::arithmetic::div_mod::lemma_fundamental_div_mod_converse(
                                len - offset,
                                size,
                                i as int,
                                len - offset - i * size,
                            );
                        }
                        assert(offset + count * size > len) by (nonlinear_arith)
                            requires
                                i < count,
                                offset + i * size + size > len,
                                size > 0,
                        ;
                    }
                    return Err(e);
                },
            }
        }
        Ok(program_headers)
    }
}

/// Writing a header and reading it back in the same context gives the same header,
/// for every header whose fields the context's layout holds. The record takes
/// exactly the context's size.
pub proof fn lemma_read_after_write(h: ProgramHeader, ctx: Ctx, b: Seq<u8>, at: int)
    requires
        0 <= at,
        at + ProgramHeader::spec_size(ctx) <= b.len(),
        h.fits(ctx),
    ensures
        h.spec_bytes(ctx).len() == ProgramHeader::spec_size(ctx),
        ProgramHeader::spec_at(splice(b, at, h.spec_bytes(ctx)), at, ctx) == h,
{
    let w = h.spec_bytes(ctx);
    let s = splice(b, at, w);
    match ctx.container {
        Container::Little => {
            let n = to_narrow(h);
            program_header32::lemma_bytes_len(n, ctx.le);
            assert(s.subrange(at, at + 32) =~= w);
            program_header32::lemma_round_trip(n, ctx.le, s, at);
        },
        Container::Big => {
            let n = to_wide(h);
            program_header64::lemma_bytes_len(n, ctx.le);
            assert(s.subrange(at, at + 56) =~= w);
            program_header64::lemma_round_trip(n, ctx.le, s, at);
        },
    }
}

/// A program header takes 32 bytes in the 32-bit layout and 56 in the 64-bit one,
/// whatever the byte order, and its bytes in a context are exactly that many.
pub proof fn lemma_sizes(h: ProgramHeader, ctx: Ctx)
    ensures
        ctx.container == Container::Little ==> ProgramHeader::spec_size(ctx) == 32,
        ctx.container == Container::Big ==> ProgramHeader::spec_size(ctx) == 56,
        h.spec_bytes(ctx).len() == ProgramHeader::spec_size(ctx),
{
    program_header32::lemma_bytes_len(to_narrow(h), ctx.le);
    program_header64::lemma_bytes_len(to_wide(h), ctx.le);
}

} // verus!
