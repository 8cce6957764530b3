//! "Nlist" style symbols. Like most symbol tables, they can be stripped and should
//! not be relied upon.
//!
//! A symbol is essentially a type, an offset and a name.
use crate::codec::{
    first_short, lemma_fitting, lemma_splice_splice, lemma_u16_at, lemma_u32_at, lemma_u64_at,
    read_u16, read_u32, read_u64, splice, u16_at, u16_bytes, u32_at, u32_bytes, u64_at, u64_bytes,
    write_u16, write_u32, write_u64, write_u8,
};
use crate::container::{Container, Ctx, Endian};
use crate::mach::load_command::SymtabCommand;
use crate::error::{Error, Record, Result};
use crate::strings::{read_str, utf8_text};
use vstd::prelude::*;
use vstd::string::StringExecFns;

verus! {

// The n_type field holds four fields, picked out by the following masks.
/// if any of these bits set, a symbolic debugging entry
pub const N_STAB: u8 = 0xe0;
/// private external symbol bit
pub const N_PEXT: u8 = 0x10;
/// mask for the type bits
pub const N_TYPE: u8 = 0x0e;
/// external symbol bit, set for external symbols
pub const N_EXT: u8 = 0x01;

/// symbol is not in any section
pub const NO_SECT: u8 = 0;
/// 1 thru 255 inclusive
pub const MAX_SECT: u8 = 255;

/// undefined, n_sect == NO_SECT
pub const N_UNDF: u8 = 0x0;
/// absolute, n_sect == NO_SECT
pub const N_ABS: u8 = 0x2;
/// defined in section number n_sect
pub const N_SECT: u8 = 0xe;
/// prebound undefined (defined in a dylib)
pub const N_PBUD: u8 = 0xc;
/// indirect
pub const N_INDR: u8 = 0xa;

pub const NLIST_TYPE_MASK: u8 = 0xe;
pub const NLIST_TYPE_GLOBAL: u8 = 0x1;
pub const NLIST_TYPE_LOCAL: u8 = 0x0;

/// The name of a symbol type, `UNKNOWN_N_TYPE` for a value outside the known set.
pub open spec fn n_type_name(n_type: u8) -> Seq<char> {
    if n_type == N_UNDF {
        "N_UNDF"@
    } else if n_type == N_ABS {
        "N_ABS"@
    } else if n_type == N_SECT {
        "N_SECT"@
    } else if n_type == N_PBUD {
        "N_PBUD"@
    } else if n_type == N_INDR {
        "N_INDR"@
    } else {
        "UNKNOWN_N_TYPE"@
    }
}

pub fn n_type_to_str(n_type: u8) -> (r: &'static str)
    ensures
        r@ == n_type_name(n_type),
{
    if n_type == N_UNDF {
        "N_UNDF"
    } else if n_type == N_ABS {
        "N_ABS"
    } else if n_type == N_SECT {
        "N_SECT"
    } else if n_type == N_PBUD {
        "N_PBUD"
    } else if n_type == N_INDR {
        "N_INDR"
    } else {
        "UNKNOWN_N_TYPE"
    }
}

/// A symbol table entry of a 32-bit binary.
#[derive(Clone, Copy, Debug, PartialEq, Eq, Structural, Default)]
pub struct Nlist32 {
    /// index into the string table
    pub n_strx: u32,
    /// type flag, see below
    pub n_type: u8,
    /// section number or NO_SECT
    pub n_sect: u8,
    /// see <mach-o/stab.h>
    pub n_desc: u16,
    /// value of this symbol (or stab offset)
    pub n_value: u32,
}

pub const SIZEOF_NLIST_32: usize = 12;

impl Nlist32 {
    /// The entry that the bytes of `b` from `at` on hold.
    pub open spec fn spec_at(b: Seq<u8>, at: int, e: crate::container::Endian) -> Nlist32 {
        Nlist32 {
            n_strx: u32_at(b, at, e),
            n_type: b[at + 4],
            n_sect: b[at + 5],
            n_desc: u16_at(b, at + 6, e),
            n_value: u32_at(b, at + 8, e),
        }
    }

    /// Reads the entry at `off`.
    pub fn read(data: &[u8], off: usize, e: crate::container::Endian) -> (r: Nlist32)
        requires
            off + SIZEOF_NLIST_32 <= data.len(),
        ensures
            r == Nlist32::spec_at(data@, off as int, e),
    {
        Nlist32 {
            n_strx: read_u32(data, off, e),
            n_type: data[off + 4],
            n_sect: data[off + 5],
            n_desc: read_u16(data, off + 6, e),
            n_value: read_u32(data, off + 8, e),
        }
    }
    /// The bytes of the entry: each field in turn, with no padding.
    pub open spec fn spec_bytes(self, e: crate::container::Endian) -> Seq<u8> {
        u32_bytes(self.n_strx, e) + seq![self.n_type] + seq![self.n_sect] + u16_bytes(self.n_desc, e)
            + u32_bytes(self.n_value, e)
    }

    /// Writes the entry at `off`, leaving every other byte as it was.
    pub fn write(&self, buf: &mut [u8], off: usize, e: crate::container::Endian)
        requires
            off + 12 <= old(buf).len(),
        ensures
            final(buf)@ == splice(old(buf)@, off as int, self.spec_bytes(e)),
    {
        let ghost s = buf@;
        let ghost o = off as int;
        write_u32(buf, off, self.n_strx, e);
        write_u8(buf, off + 4, self.n_type);
        proof {
            lemma_splice_splice(s, o, u32_bytes(self.n_strx, e), seq![self.n_type]);
        }
        let ghost acc = u32_bytes(self.n_strx, e) + seq![self.n_type];
        write_u8(buf, off + 5, self.n_sect);
        proof {
            lemma_splice_splice(s, o, acc, seq![self.n_sect]);
            acc = acc + seq![self.n_sect];
        }
        write_u16(buf, off + 6, self.n_desc, e);
        proof {
            lemma_splice_splice(s, o, acc, u16_bytes(self.n_desc, e));
            acc = acc + u16_bytes(self.n_desc, e);
        }
        write_u32(buf, off + 8, self.n_value, e);
        proof {
            lemma_splice_splice(s, o, acc, u32_bytes(self.n_value, e));
        }
    }
}

/// The entry is `12` bytes long, and reading its bytes back gives it.
pub proof fn lemma_nlist32_round_trip(n: Nlist32, e: crate::container::Endian, b: Seq<u8>, at: int)
    requires
        0 <= at,
        at + 12 <= b.len(),
        b.subrange(at, at + 12) == n.spec_bytes(e),
    ensures
        n.spec_bytes(e).len() == 12,
        Nlist32::spec_at(b, at, e) == n,
{
    crate::codec::lemma_u32_round_trip(n.n_strx, e);
    crate::codec::lemma_u16_round_trip(n.n_desc, e);
    crate::codec::lemma_u32_round_trip(n.n_value, e);
    let w = n.spec_bytes(e);
    assert(b.subrange(at, at + 4) =~= u32_bytes(n.n_strx, e)) by {
        assert(b.subrange(at, at + 4) =~= w.subrange(0, 4));
    }
    assert(b[at + 4] == w[4] && b[at + 5] == w[5]) by {
        assert(b.subrange(at, at + 12)[4] == b[at + 4]);
        assert(b.subrange(at, at + 12)[5] == b[at + 5]);
    }
    assert(b.subrange(at + 6, at + 8) =~= u16_bytes(n.n_desc, e)) by {
        assert(b.subrange(at + 6, at + 8) =~= w.subrange(6, 8));
    }
    assert(b.subrange(at + 8, at + 12) =~= u32_bytes(n.n_value, e)) by {
        assert(b.subrange(at + 8, at + 12) =~= w.subrange(8, 12));
    }
    lemma_u32_at(b, at, n.n_strx, e);
    lemma_u16_at(b, at + 6, n.n_desc, e);
    lemma_u32_at(b, at + 8, n.n_value, e);
}

/// A symbol table entry of a 64-bit binary.
#[derive(Clone, Copy, Debug, PartialEq, Eq, Structural, Default)]
pub struct Nlist64 {
    /// index into the string table
    pub n_strx: u32,
    /// type flag, see below
    pub n_type: u8,
    /// section number or NO_SECT
    pub n_sect: u8,
    /// see <mach-o/stab.h>
    pub n_desc: u16,
    /// value of this symbol (or stab offset)
    pub n_value: u64,
}

pub const SIZEOF_NLIST_64: usize = 16;

impl Nlist64 {
    /// The entry that the bytes of `b` from `at` on hold.
    pub open spec fn spec_at(b: Seq<u8>, at: int, e: crate::container::Endian) -> Nlist64 {
        Nlist64 {
            n_strx: u32_at(b, at, e),
            n_type: b[at + 4],
            n_sect: b[at + 5],
            n_desc: u16_at(b, at + 6, e),
            n_value: u64_at(b, at + 8, e),
        }
    }

    /// Reads the entry at `off`.
    pub fn read(data: &[u8], off: usize, e: crate::container::Endian) -> (r: Nlist64)
        requires
            off + SIZEOF_NLIST_64 <= data.len(),
        ensures
            r == Nlist64::spec_at(data@, off as int, e),
    {
        Nlist64 {
            n_strx: read_u32(data, off, e),
            n_type: data[off + 4],
            n_sect: data[off + 5],
            n_desc: read_u16(data, off + 6, e),
            n_value: read_u64(data, off + 8, e),
        }
    }
    /// The bytes of the entry: each field in turn, with no padding.
    pub open spec fn spec_bytes(self, e: crate::container::Endian) -> Seq<u8> {
        u32_bytes(self.n_strx, e) + seq![self.n_type] + seq![self.n_sect] + u16_bytes(self.n_desc, e)
            + u64_bytes(self.n_value, e)
    }

    /// Writes the entry at `off`, leaving every other byte as it was.
    pub fn write(&self, buf: &mut [u8], off: usize, e: crate::container::Endian)
        requires
            off + 16 <= old(buf).len(),
        ensures
            final(buf)@ == splice(old(buf)@, off as int, self.spec_bytes(e)),
    {
        let ghost s = buf@;
        let ghost o = off as int;
        write_u32(buf, off, self.n_strx, e);
        write_u8(buf, off + 4, self.n_type);
        proof {
            lemma_splice_splice(s, o, u32_bytes(self.n_strx, e), seq![self.n_type]);
        }
        let ghost acc = u32_bytes(self.n_strx, e) + seq![self.n_type];
        write_u8(buf, off + 5, self.n_sect);
        proof {
            lemma_splice_splice(s, o, acc, seq![self.n_sect]);
            acc = acc + seq![self.n_sect];
        }
        write_u16(buf, off + 6, self.n_desc, e);
        proof {
            lemma_splice_splice(s, o, acc, u16_bytes(self.n_desc, e));
            acc = acc + u16_bytes(self.n_desc, e);
        }
        write_u64(buf, off + 8, self.n_value, e);
        proof {
            lemma_splice_splice(s, o, acc, u64_bytes(self.n_value, e));
        }
    }
}

/// The entry is `16` bytes long, and reading its bytes back gives it.
pub proof fn lemma_nlist64_round_trip(n: Nlist64, e: crate::container::Endian, b: Seq<u8>, at: int)
    requires
        0 <= at,
        at + 16 <= b.len(),
        b.subrange(at, at + 16) == n.spec_bytes(e),
    ensures
        n.spec_bytes(e).len() == 16,
        Nlist64::spec_at(b, at, e) == n,
{
    crate::codec::lemma_u32_round_trip(n.n_strx, e);
    crate::codec::lemma_u16_round_trip(n.n_desc, e);
    crate::codec::lemma_u64_round_trip(n.n_value, e);
    let w = n.spec_bytes(e);
    assert(b.subrange(at, at + 4) =~= u32_bytes(n.n_strx, e)) by {
        assert(b.subrange(at, at + 4) =~= w.subrange(0, 4));
    }
    assert(b[at + 4] == w[4] && b[at + 5] == w[5]) by {
        assert(b.subrange(at, at + 16)[4] == b[at + 4]);
        assert(b.subrange(at, at + 16)[5] == b[at + 5]);
    }
    assert(b.subrange(at + 6, at + 8) =~= u16_bytes(n.n_desc, e)) by {
        assert(b.subrange(at + 6, at + 8) =~= w.subrange(6, 8));
    }
    assert(b.subrange(at + 8, at + 16) =~= u64_bytes(n.n_value, e)) by {
        assert(b.subrange(at + 8, at + 16) =~= w.subrange(8, 16));
    }
    lemma_u32_at(b, at, n.n_strx, e);
    lemma_u16_at(b, at + 6, n.n_desc, e);
    lemma_u64_at(b, at + 8, n.n_value, e);
}

/// A symbol table entry of either width.
#[derive(Clone, Copy, Debug, PartialEq, Eq, Structural)]
pub struct Nlist {
    /// index into the string table
    pub n_strx: usize,
    /// type flag, see below
    pub n_type: u8,
    /// section number or NO_SECT
    pub n_sect: usize,
    /// see <mach-o/stab.h>
    pub n_desc: u16,
    /// value of this symbol (or stab offset)
    pub n_value: u64,
}

impl Nlist {
    /// Gets this symbol's type in bits 0xe
    pub fn get_type(&self) -> (r: u8)
        ensures
            r == self.n_type & N_TYPE,
    {
        self.n_type & N_TYPE
    }

    /// Gets the str representation of the type of this symbol
    pub fn type_str(&self) -> (r: &'static str)
        ensures
            r@ == n_type_name(self.n_type & N_TYPE),
    {
        n_type_to_str(self.get_type())
    }

    /// Whether this symbol is global or not
    pub fn is_global(&self) -> (r: bool)
        ensures
            r == (self.n_type & N_EXT != 0),
    {
        self.n_type & N_EXT != 0
    }

    /// Whether this symbol is undefined or not
    pub fn is_undefined(&self) -> (r: bool)
        ensures
            r == (self.n_sect == 0 && self.n_type & N_TYPE == N_UNDF),
    {
        self.n_sect == 0 && self.n_type & N_TYPE == N_UNDF
    }

    /// Whether this symbol is a symbolic debugging entry
    pub fn is_stab(&self) -> (r: bool)
        ensures
            r == (self.n_type & N_STAB != 0),
    {
        self.n_type & N_STAB != 0
    }

    /// The size of an entry in the layout of `ctx`.
    pub open spec fn spec_size(ctx: Ctx) -> nat {
        match ctx.container {
            Container::Little => 12,
            Container::Big => 16,
        }
    }

    /// The entry that the bytes of `b` from `at` on hold, in the layout of `ctx`.
    pub open spec fn spec_at(b: Seq<u8>, at: int, ctx: Ctx) -> Nlist {
        match ctx.container {
            Container::Little => from_nlist32(Nlist32::spec_at(b, at, ctx.le)),
            Container::Big => from_nlist64(Nlist64::spec_at(b, at, ctx.le)),
        }
    }

    /// The size of an entry in the layout of `ctx`.
    pub fn size_with(ctx: &Ctx) -> (r: usize)
        ensures
            r == Nlist::spec_size(*ctx),
    {
        match ctx.container {
            Container::Little => SIZEOF_NLIST_32,
            Container::Big => SIZEOF_NLIST_64,
        }
    }

    /// The bytes of this entry in the layout of `ctx`.
    pub open spec fn spec_bytes(self, ctx: Ctx) -> Seq<u8> {
        match ctx.container {
            Container::Little => to_nlist32(self).spec_bytes(ctx.le),
            Container::Big => to_nlist64(self).spec_bytes(ctx.le),
        }
    }

    /// Whether the layout of `ctx` holds every field: the string index takes 32 bits,
    /// the section 8, and in a 32-bit record the value 32.
    pub open spec fn fits(self, ctx: Ctx) -> bool {
        &&& self.n_strx <= u32::MAX
        &&& self.n_sect <= u8::MAX
        &&& ctx.container == Container::Little ==> self.n_value <= u32::MAX
    }

    /// Writes this entry at `offset`, in the layout and byte order of `ctx`, and gives
    /// the number of bytes written. Each field keeps the low bits that its record
    /// field holds.
    pub fn try_into_ctx(self, bytes: &mut [u8], offset: usize, ctx: Ctx) -> (r: Result<usize>)
        ensures
            offset + Nlist::spec_size(ctx) <= old(bytes)@.len() ==> {
                &&& r == Ok::<usize, Error>(Nlist::spec_size(ctx) as usize)
                &&& final(bytes)@ == splice(old(bytes)@, offset as int, self.spec_bytes(ctx))
            },
            offset + Nlist::spec_size(ctx) > old(bytes)@.len() ==> {
                &&& r == Err::<usize, Error>(Error::Truncated { record: Record::Nlist, offset })
                &&& final(bytes)@ == old(bytes)@
            },
    {
        let size = Nlist::size_with(&ctx);
        if offset > bytes.len() || bytes.len() - offset < size {
            return Err(Error::Truncated { record: Record::Nlist, offset });
        }
        match ctx.container {
            Container::Little => {
                let nlist = Nlist32::from(self);
                nlist.write(bytes, offset, ctx.le);
            },
            Container::Big => {
                let nlist = Nlist64::from(self);
                nlist.write(bytes, offset, ctx.le);
            },
        }
        Ok(size)
    }

    /// Reads one entry at `offset`, in the layout and byte order of `ctx`, and gives
    /// the number of bytes it took.
    pub fn try_from_ctx(bytes: &[u8], offset: usize, ctx: Ctx) -> (r: Result<(Nlist, usize)>)
        ensures
            offset + Nlist::spec_size(ctx) <= bytes.len() ==> r == Ok::<_, Error>(
                (Nlist::spec_at(bytes@, offset as int, ctx), Nlist::spec_size(ctx) as usize),
            ),
            offset + Nlist::spec_size(ctx) > bytes.len() ==> r == Err::<(Nlist, usize), _>(
                Error::Truncated { record: Record::Nlist, offset },
            ),
    {
        let size = Nlist::size_with(&ctx);
        if offset > bytes.len() || bytes.len() - offset < size {
            return Err(Error::Truncated { record: Record::Nlist, offset });
        }
        let nlist = match ctx.container {
            Container::Little => Nlist::from(Nlist32::read(bytes, offset, ctx.le)),
            Container::Big => Nlist::from(Nlist64::read(bytes, offset, ctx.le)),
        };
        Ok((nlist, size))
    }
}

/// The entry of a 32-bit record: each field widened.
pub open spec fn from_nlist32(nlist: Nlist32) -> Nlist {
    Nlist {
        n_strx: nlist.n_strx as usize,
        n_type: nlist.n_type,
        n_sect: nlist.n_sect as usize,
        n_desc: nlist.n_desc,
        n_value: nlist.n_value as u64,
    }
}

/// The entry of a 64-bit record.
pub open spec fn from_nlist64(nlist: Nlist64) -> Nlist {
    Nlist {
        n_strx: nlist.n_strx as usize,
        n_type: nlist.n_type,
        n_sect: nlist.n_sect as usize,
        n_desc: nlist.n_desc,
        n_value: nlist.n_value,
    }
}

/// The 32-bit record of an entry: the string index, section and value cut to the
/// record's widths.
pub open spec fn to_nlist32(nlist: Nlist) -> Nlist32 {
    Nlist32 {
        n_strx: nlist.n_strx as u32,
        n_type: nlist.n_type,
        n_sect: nlist.n_sect as u8,
        n_desc: nlist.n_desc,
        n_value: nlist.n_value as u32,
    }
}

/// The 64-bit record of an entry: the string index and section cut to the record's
/// widths.
pub open spec fn to_nlist64(nlist: Nlist) -> Nlist64 {
    Nlist64 {
        n_strx: nlist.n_strx as u32,
        n_type: nlist.n_type,
        n_sect: nlist.n_sect as u8,
        n_desc: nlist.n_desc,
        n_value: nlist.n_value,
    }
}

impl From<Nlist> for Nlist32 {
    fn from(nlist: Nlist) -> (r: Nlist32)
        ensures
            r == to_nlist32(nlist),
    {
        Nlist32 {
            n_strx: nlist.n_strx as u32,
            n_type: nlist.n_type,
            n_sect: nlist.n_sect as u8,
            n_desc: nlist.n_desc,
            n_value: nlist.n_value as u32,
        }
    }
}

impl vstd::std_specs::convert::FromSpecImpl<Nlist> for Nlist32 {
    open spec fn obeys_from_spec() -> bool {
        true
    }

    open spec fn from_spec(nlist: Nlist) -> Nlist32 {
        to_nlist32(nlist)
    }
}

impl From<Nlist> for Nlist64 {
    fn from(nlist: Nlist) -> (r: Nlist64)
        ensures
            r == to_nlist64(nlist),
    {
        Nlist64 {
            n_strx: nlist.n_strx as u32,
            n_type: nlist.n_type,
            n_sect: nlist.n_sect as u8,
            n_desc: nlist.n_desc,
            n_value: nlist.n_value,
        }
    }
}

impl vstd::std_specs::convert::FromSpecImpl<Nlist> for Nlist64 {
    open spec fn obeys_from_spec() -> bool {
        true
    }

    open spec fn from_spec(nlist: Nlist) -> Nlist64 {
        to_nlist64(nlist)
    }
}

/// An entry takes 12 bytes in the 32-bit layout and 16 in the 64-bit one, whatever
/// the byte order, and its bytes in a context are exactly that many.
pub proof fn lemma_nlist_sizes(n: Nlist, ctx: Ctx)
    ensures
        ctx.container == Container::Little ==> Nlist::spec_size(ctx) == 12,
        ctx.container == Container::Big ==> Nlist::spec_size(ctx) == 16,
        n.spec_bytes(ctx).len() == Nlist::spec_size(ctx),
{
    crate::codec::lemma_u32_round_trip(n.n_strx as u32, ctx.le);
    crate::codec::lemma_u16_round_trip(n.n_desc, ctx.le);
    crate::codec::lemma_u32_round_trip(n.n_value as u32, ctx.le);
    crate::codec::lemma_u64_round_trip(n.n_value, ctx.le);
}

/// Writing an entry and reading it back in the same context gives the same entry,
/// for every entry whose fields the context's layout holds. The record takes exactly
/// the context's size.
pub proof fn lemma_nlist_read_after_write(n: Nlist, ctx: Ctx, b: Seq<u8>, at: int)
    requires
        0 <= at,
        at + Nlist::spec_size(ctx) <= b.len(),
        n.fits(ctx),
    ensures
        n.spec_bytes(ctx).len() == Nlist::spec_size(ctx),
        Nlist::spec_at(splice(b, at, n.spec_bytes(ctx)), at, ctx) == n,
{
    let w = n.spec_bytes(ctx);
    let s = splice(b, at, w);
    match ctx.container {
        Container::Little => {
            let r = to_nlist32(n);
            crate::codec::lemma_u32_round_trip(r.n_strx, ctx.le);
            crate::codec::lemma_u16_round_trip(r.n_desc, ctx.le);
            crate::codec::lemma_u32_round_trip(r.n_value, ctx.le);
            assert(s.subrange(at, at + 12) =~= w);
            lemma_nlist32_round_trip(r, ctx.le, s, at);
        },
        Container::Big => {
            let r = to_nlist64(n);
            crate::codec::lemma_u32_round_trip(r.n_strx, ctx.le);
            crate::codec::lemma_u16_round_trip(r.n_desc, ctx.le);
            crate::codec::lemma_u64_round_trip(r.n_value, ctx.le);
            assert(s.subrange(at, at + 16) =~= w);
            lemma_nlist64_round_trip(r, ctx.le, s, at);
        },
    }
}

impl From<Nlist32> for Nlist {
    fn from(nlist: Nlist32) -> (r: Nlist)
        ensures
            r == from_nlist32(nlist),
    {
        Nlist {
            n_strx: nlist.n_strx as usize,
            n_type: nlist.n_type,
            n_sect: nlist.n_sect as usize,
            n_desc: nlist.n_desc,
            n_value: nlist.n_value as u64,
        }
    }
}

impl vstd::std_specs::convert::FromSpecImpl<Nlist32> for Nlist {
    open spec fn obeys_from_spec() -> bool {
        true
    }

    open spec fn from_spec(nlist: Nlist32) -> Nlist {
        from_nlist32(nlist)
    }
}

impl From<Nlist64> for Nlist {
    fn from(nlist: Nlist64) -> (r: Nlist)
        ensures
            r == from_nlist64(nlist),
    {
        Nlist {
            n_strx: nlist.n_strx as usize,
            n_type: nlist.n_type,
            n_sect: nlist.n_sect as usize,
            n_desc: nlist.n_desc,
            n_value: nlist.n_value,
        }
    }
}

impl vstd::std_specs::convert::FromSpecImpl<Nlist64> for Nlist {
    open spec fn obeys_from_spec() -> bool {
        true
    }

    open spec fn from_spec(nlist: Nlist64) -> Nlist {
        from_nlist64(nlist)
    }
}

} // verus!

verus! {

/// The position of the first NUL byte of `b` at or after `i`, or the length of `b`
/// where there is none.
pub open spec fn terminator(b: Seq<u8>, i: int) -> int
    decreases b.len() - i,
{
    if i < 0 || i >= b.len() {
        b.len() as int
    } else if b[i] == 0 {
        i
    } else {
        terminator(b, i + 1)
    }
}

/// The name at string index `strx` of the string table that starts at `strtab` in
/// `data`: the UTF-8 text of the bytes up to the next NUL.
pub open spec fn spec_name(data: Seq<u8>, strtab: int, strx: int) -> Result<Seq<char>> {
    let at = strtab + strx;
    let end = terminator(data, at);
    if end >= data.len() {
        Err(Error::BadString { strx: strx as usize })
    } else {
        match utf8_text(data.subrange(at, end)) {
            Some(s) => Ok(s),
            None => Err(Error::BadString { strx: strx as usize }),
        }
    }
}

/// Reads the NUL-terminated name at string index `strx` of the string table that
/// starts at `strtab` in `data`, without copying it.
pub fn name_at<'a>(data: &'a [u8], strtab: usize, strx: usize) -> (r: Result<&'a str>)
    ensures
        match r {
            Ok(s) => spec_name(data@, strtab as int, strx as int) == Ok::<_, Error>(s@),
            Err(e) => spec_name(data@, strtab as int, strx as int) == Err::<Seq<char>, _>(e),
        },
{
    let len = data.len();
    let at = match strtab.checked_add(strx) {
        Some(at) => at,
        None => return Err(Error::BadString { strx }),
    };
    let mut end = at;
    while end < len && data[end] != 0
        invariant
            at <= end,
            len == data@.len(),
            terminator(data@, at as int) == terminator(data@, end as int),
        decreases len - end,
    {
        end = end + 1;
    }
    if end >= len {
        return Err(Error::BadString { strx });
    }
    match read_str(data, at, end - at) {
        Ok(s) => Ok(s),
        Err(_) => Err(Error::BadString { strx }),
    }
}


/// What one step over the table yields, with the name as its characters.
pub open spec fn entry_view(r: Result<(&str, Nlist)>) -> Result<(Seq<char>, Nlist)> {
    match r {
        Ok((name, nlist)) => Ok((name@, nlist)),
        Err(e) => Err(e),
    }
}

/// The entry at `off` in `data` and its name, in the layout of `ctx`, with names
/// in the string table at `strtab`.
pub open spec fn spec_entry(data: Seq<u8>, off: int, strtab: int, ctx: Ctx) -> Result<
    (Seq<char>, Nlist),
> {
    if off + Nlist::spec_size(ctx) > data.len() {
        Err(Error::Truncated { record: Record::Nlist, offset: off as usize })
    } else {
        let nlist = Nlist::spec_at(data, off, ctx);
        match spec_name(data, strtab, nlist.n_strx as int) {
            Ok(name) => Ok((name, nlist)),
            Err(e) => Err(e),
        }
    }
}

/// What a symbol table holds: its bytes, where its entries start, how many there
/// are, where its string table starts, and the context of the binary.
pub struct SymbolsView {
    pub data: Seq<u8>,
    pub start: int,
    pub nsyms: int,
    pub strtab: int,
    pub ctx: Ctx,
}

impl SymbolsView {
    /// Where the read of entry `i` starts when entries are read in turn: a read that
    /// runs out of bytes does not move on, so every later one starts there too.
    pub open spec fn cursor(self, i: int) -> int {
        let next = self.start + i * Nlist::spec_size(self.ctx);
        let short = first_short(self.data.len() as int, self.start, Nlist::spec_size(self.ctx) as int);
        if next <= short {
            next
        } else {
            short
        }
    }

    /// What step `i` of an iteration over the table yields.
    pub open spec fn step(self, i: int) -> Result<(Seq<char>, Nlist)> {
        spec_entry(self.data, self.cursor(i), self.strtab, self.ctx)
    }

    /// What `get(index)` yields. An offset past `usize::MAX` is reported as
    /// `usize::MAX`.
    pub open spec fn at_index(self, index: int) -> Result<(Seq<char>, Nlist)> {
        let off = self.start + index * Nlist::spec_size(self.ctx);
        if index >= self.nsyms {
            Err(Error::IndexOutOfBounds { index: index as usize, count: self.nsyms as usize })
        } else if off > usize::MAX {
            Err(Error::Truncated { record: Record::Nlist, offset: usize::MAX })
        } else {
            spec_entry(self.data, off, self.strtab, self.ctx)
        }
    }
}

/// How to read a symbol table out of a buffer.
#[derive(Clone, Copy, Debug, PartialEq, Eq, Structural, Default)]
pub struct SymbolsCtx {
    pub nsyms: usize,
    pub strtab: usize,
    pub ctx: Ctx,
}

/// A zero-copy "nlist" style symbol table ("stab"), including the string table
pub struct Symbols<'a> {
    data: &'a [u8],
    start: usize,
    nsyms: usize,
    strtab: usize,
    ctx: Ctx,
}

impl<'a> View for Symbols<'a> {
    type V = SymbolsView;

    closed spec fn view(&self) -> SymbolsView {
        SymbolsView {
            data: self.data@,
            start: self.start as int,
            nsyms: self.nsyms as int,
            strtab: self.strtab as int,
            ctx: self.ctx,
        }
    }
}

/// The state of an iteration over a symbol table: the entries yielded so far and
/// where the next read starts.
pub struct SymbolIteratorView {
    pub data: Seq<u8>,
    pub nsyms: int,
    pub offset: int,
    pub count: int,
    pub ctx: Ctx,
    pub strtab: int,
}

/// Yields the entries of a symbol table in turn, each with its name.
pub struct SymbolIterator<'a> {
    data: &'a [u8],
    nsyms: usize,
    offset: usize,
    count: usize,
    ctx: Ctx,
    strtab: usize,
}

impl<'a> View for SymbolIterator<'a> {
    type V = SymbolIteratorView;

    closed spec fn view(&self) -> SymbolIteratorView {
        SymbolIteratorView {
            data: self.data@,
            nsyms: self.nsyms as int,
            offset: self.offset as int,
            count: self.count as int,
            ctx: self.ctx,
            strtab: self.strtab as int,
        }
    }
}

impl<'a> SymbolIterator<'a> {
    /// The next entry and its name, or `None` once `nsyms` entries were yielded. A
    /// step that fails yields the error and leaves the rest of the table to come.
    pub fn next(&mut self) -> (r: Option<Result<(&'a str, Nlist)>>)
        ensures
            old(self)@.count >= old(self)@.nsyms ==> r is None && final(self)@ == old(self)@,
            old(self)@.count < old(self)@.nsyms ==> {
                &&& r is Some
                &&& entry_view(r->Some_0) == spec_entry(
                    old(self)@.data,
                    old(self)@.offset,
                    old(self)@.strtab,
                    old(self)@.ctx,
                )
                &&& final(self)@ == (SymbolIteratorView {
                    count: old(self)@.count + 1,
                    offset: if old(self)@.offset + Nlist::spec_size(old(self)@.ctx)
                        <= old(self)@.data.len() {
                        old(self)@.offset + Nlist::spec_size(old(self)@.ctx)
                    } else {
                        old(self)@.offset
                    },
                    ..old(self)@
                })
            },
    {
        if self.count >= self.nsyms {
            None
        } else {
            self.count = self.count + 1;
            match Nlist::try_from_ctx(self.data, self.offset, self.ctx) {
                Ok((symbol, size)) => {
                    self.offset = self.offset + size;
                    match name_at(self.data, self.strtab, symbol.n_strx) {
                        Ok(name) => Some(Ok((name, symbol))),
                        Err(e) => Some(Err(e)),
                    }
                },
                Err(e) => Some(Err(e)),
            }
        }
    }
}


/// The opening lines of a dump of a symbol table.
pub uninterp spec fn header_text(len: usize, start: usize, nsyms: usize, strtab: usize) -> Seq<char>;

/// The line of a dump for an entry that was read with its name.
pub uninterp spec fn symbol_text(
    n_value: u64,
    name: Seq<char>,
    n_sect: usize,
    n_type: u8,
    n_desc: u16,
) -> Seq<char>;

/// The line of a dump for an entry that could not be read.
pub uninterp spec fn bad_symbol_text(index: usize, error: Error) -> Seq<char>;

/// Relies on std's `format!`: the buffer length and the table's offsets as text.
#[verifier::external_body]
fn format_header(len: usize, start: usize, nsyms: usize, strtab: usize) -> (r: String)
    ensures
        r@ == header_text(len, start, nsyms, strtab),
{
    format!("Data: {} start: {:#?}, nsyms: {} strtab: {:#x}\nSymbols: {{\n", len, start, nsyms, strtab)
}

/// Relies on std's `format!`: an entry's value, name, section, type and descriptor
/// as text.
#[verifier::external_body]
fn format_symbol(name: &str, nlist: &Nlist) -> (r: String)
    ensures
        r@ == symbol_text(nlist.n_value, name@, nlist.n_sect, nlist.n_type, nlist.n_desc),
{
    format!(
        "{: >10x} {} sect: {:#x} type: {:#02x} desc: {:#03x}\n",
        nlist.n_value,
        name,
        nlist.n_sect,
        nlist.n_type,
        nlist.n_desc,
    )
}

/// Relies on std's `format!`: an entry's index and its error as text.
#[verifier::external_body]
fn format_bad_symbol(index: usize, error: &Error) -> (r: String)
    ensures
        r@ == bad_symbol_text(index, *error),
{
    format!("  Bad symbol, index: {}, sym: {:?}\n", index, error)
}

/// The line of a dump for step `i` of an iteration.
pub open spec fn step_text(i: int, step: Result<(Seq<char>, Nlist)>) -> Seq<char> {
    match step {
        Ok((name, nlist)) => symbol_text(
            nlist.n_value,
            name,
            nlist.n_sect,
            nlist.n_type,
            nlist.n_desc,
        ),
        Err(e) => bad_symbol_text(i as usize, e),
    }
}

/// The lines of a dump for the first `n` steps of an iteration over `v`.
pub open spec fn steps_text(v: SymbolsView, n: int) -> Seq<char>
    decreases n,
{
    if n <= 0 {
        Seq::empty()
    } else {
        steps_text(v, n - 1) + step_text(n - 1, v.step(n - 1))
    }
}

impl<'a> Symbols<'a> {
    /// A symbol table of `count` entries from offset `start` on, with its string
    /// table at `strtab`, read as 64-bit little-endian records. A binary of another
    /// kind gives wrong entries: `parse` takes the binary's context.
    pub fn new(bytes: &'a [u8], start: usize, count: usize, strtab: usize) -> (r: Result<Symbols<'a>>)
        ensures
            r is Ok,
            r->Ok_0@ == (SymbolsView {
                data: bytes@,
                start: start as int,
                nsyms: count as int,
                strtab: strtab as int,
                ctx: Ctx { container: Container::Big, le: Endian::Little },
            }),
    {
        Ok(Symbols { data: bytes, start, nsyms: count, strtab, ctx: Ctx::default() })
    }

    /// The symbol table over all of `bytes`, with its entries from the start on, as
    /// `ctx` describes it; it also gives how many bytes it spans.
    pub fn try_from_ctx(bytes: &'a [u8], ctx: SymbolsCtx) -> (r: Result<(Symbols<'a>, usize)>)
        ensures
            r is Ok,
            r->Ok_0.0@ == (SymbolsView {
                data: bytes@,
                start: 0,
                nsyms: ctx.nsyms as int,
                strtab: ctx.strtab as int,
                ctx: ctx.ctx,
            }),
            r->Ok_0.1 == bytes@.len(),
    {
        Ok(
            (
                Symbols {
                    data: bytes,
                    start: 0,
                    nsyms: ctx.nsyms,
                    strtab: ctx.strtab,
                    ctx: ctx.ctx,
                },
                bytes.len(),
            ),
        )
    }

    /// The symbol table that `symtab` locates in the file `bytes`. Its buffer starts
    /// at the table, so its string table offset is taken relative to the table.
    pub fn parse(bytes: &'a [u8], symtab: &SymtabCommand, ctx: Ctx) -> (r: Result<Symbols<'a>>)
        requires
            symtab.symoff <= symtab.stroff,
        ensures
            symtab.symoff > bytes@.len() ==> r == Err::<Symbols<'a>, _>(
                Error::Truncated { record: Record::SymbolTable, offset: symtab.symoff as usize },
            ),
            symtab.symoff <= bytes@.len() ==> r is Ok && r->Ok_0@ == (SymbolsView {
                data: bytes@.subrange(symtab.symoff as int, bytes@.len() as int),
                start: 0,
                nsyms: symtab.nsyms as int,
                strtab: symtab.stroff - symtab.symoff,
                ctx,
            }),
    {
        let strtab = symtab.stroff - symtab.symoff;
        let symoff = symtab.symoff as usize;
        if symoff > bytes.len() {
            return Err(Error::Truncated { record: Record::SymbolTable, offset: symoff });
        }
        let data = vstd::slice::slice_subrange(bytes, symoff, bytes.len());
        let table_ctx = SymbolsCtx { nsyms: symtab.nsyms as usize, strtab: strtab as usize, ctx };
        match Symbols::try_from_ctx(data, table_ctx) {
            Ok((symbols, _)) => Ok(symbols),
            Err(e) => Err(e),
        }
    }

    /// A fresh iteration over the table, from its first entry.
    pub fn iter(&self) -> (r: SymbolIterator<'a>)
        ensures
            r@ == (SymbolIteratorView {
                data: self@.data,
                nsyms: self@.nsyms,
                offset: self@.start,
                count: 0,
                ctx: self@.ctx,
                strtab: self@.strtab,
            }),
    {
        SymbolIterator {
            offset: self.start,
            nsyms: self.nsyms,
            count: 0,
            data: self.data,
            ctx: self.ctx,
            strtab: self.strtab,
        }
    }

    /// Parses a single Nlist symbol from the binary, with its accompanying name
    pub fn get(&self, index: usize) -> (r: Result<(&'a str, Nlist)>)
        ensures
            entry_view(r) == self@.at_index(index as int),
    {
        if index >= self.nsyms {
            return Err(Error::IndexOutOfBounds { index, count: self.nsyms });
        }
        let size = Nlist::size_with(&self.ctx);
        let off = match index.checked_mul(size) {
            Some(rel) => match self.start.checked_add(rel) {
                Some(off) => off,
                None => return Err(Error::Truncated { record: Record::Nlist, offset: usize::MAX }),
            },
            None => {
                assert(self.start + index * size > usize::MAX) by (nonlinear_arith)
                    requires
                        index * size > usize::MAX,
                ;
                return Err(Error::Truncated { record: Record::Nlist, offset: usize::MAX });
            },
        };
        match Nlist::try_from_ctx(self.data, off, self.ctx) {
            Ok((symbol, _)) => match name_at(self.data, self.strtab, symbol.n_strx) {
                Ok(name) => Ok((name, symbol)),
                Err(e) => Err(e),
            },
            Err(e) => Err(e),
        }
    }

    /// A dump of the table: a line for every entry in file order, and for an entry
    /// that cannot be read, its index and the error, so that one bad entry does not
    /// hide the rest.
    pub fn describe(&self) -> (r: String)
        ensures
            r@ == header_text(
                self@.data.len() as usize,
                self@.start as usize,
                self@.nsyms as usize,
                self@.strtab as usize,
            ) + steps_text(self@, self@.nsyms) + "}\n"@,
    {
        let mut out = format_header(self.data.len(), self.start, self.nsyms, self.strtab);
        let ghost head = out@;
        let entries = self.entries();
        let mut i: usize = 0;
        while i < entries.len()
            invariant
                entries@.len() == self@.nsyms,
                forall|j: int|
                    0 <= j < self@.nsyms ==> entry_view(#[trigger] entries@[j]) == self@.step(j),
                i <= entries@.len(),
                out@ == head + steps_text(self@, i as int),
            decreases entries@.len() - i,
        {
            let line = match &entries[i] {
                Ok((name, nlist)) => format_symbol(name, nlist),
                Err(e) => format_bad_symbol(i, e),
            };
            out.append(line.as_str());
            i = i + 1;
            assert(out@ =~= head + steps_text(self@, i as int));
        }
        out.append("}\n");
        out
    }

    /// Every step of an iteration over the table, in file order: exactly `nsyms`
    /// of them, each an entry with its name or the error met there.
    pub fn entries(&self) -> (r: Vec<Result<(&'a str, Nlist)>>)
        ensures
            r@.len() == self@.nsyms,
            forall|i: int| 0 <= i < self@.nsyms ==> entry_view(#[trigger] r@[i]) == self@.step(i),
    {
        let mut it = self.iter();
        let mut out: Vec<Result<(&'a str, Nlist)>> = Vec::new();
        let ghost v = self@;
        let ghost size = Nlist::spec_size(v.ctx) as int;
        loop
            invariant
                v == self@,
                size == Nlist::spec_size(v.ctx),
                size > 0,
                it@.data == v.data,
                it@.nsyms == v.nsyms,
                it@.strtab == v.strtab,
                it@.ctx == v.ctx,
                0 <= it@.count <= v.nsyms,
                it@.offset == v.cursor(it@.count),
                out@.len() == it@.count,
                forall|i: int| 0 <= i < out@.len() ==> entry_view(#[trigger] out@[i]) == v.step(i),
            decreases v.nsyms - it@.count,
        {
            let ghost i = it@.count;
            proof {
                lemma_fitting(v.data.len() as int, v.start, size, i);
                lemma_fitting(v.data.len() as int, v.start, size, i + 1);
                assert(v.start + (i + 1) * size == v.start + i * size + size) by (nonlinear_arith);
            }
            match it.next() {
                Some(step) => {
                    out.push(step);
                },
                None => {
                    return out;
                },
            }
        }
    }
}

} // verus!
