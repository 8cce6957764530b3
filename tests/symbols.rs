use goblin::container::{Container, Ctx, Endian};
use goblin::error::{Error, Record};
use goblin::mach::load_command::SymtabCommand;
use goblin::mach::symbols::{
    n_type_to_str, name_at, Nlist, Nlist32, Nlist64, Symbols, SymbolsCtx, N_ABS, N_EXT, N_SECT,
    N_STAB, N_UNDF, SIZEOF_NLIST_32, SIZEOF_NLIST_64,
};

const STRINGS: &[u8] = b"\0foo\0bar\0";

fn narrow_le() -> Ctx {
    Ctx::new(Container::Little, Endian::Little)
}

fn entry32(strx: u32, n_type: u8, sect: u8, desc: u16, value: u32, le: bool) -> Vec<u8> {
    let mut v = Vec::new();
    let w32 = |x: u32| if le { x.to_le_bytes() } else { x.to_be_bytes() };
    let w16 = |x: u16| if le { x.to_le_bytes() } else { x.to_be_bytes() };
    v.extend_from_slice(&w32(strx));
    v.push(n_type);
    v.push(sect);
    v.extend_from_slice(&w16(desc));
    v.extend_from_slice(&w32(value));
    v
}

fn entry64(strx: u32, n_type: u8, sect: u8, desc: u16, value: u64) -> Vec<u8> {
    let mut v = Vec::new();
    v.extend_from_slice(&strx.to_le_bytes());
    v.push(n_type);
    v.push(sect);
    v.extend_from_slice(&desc.to_le_bytes());
    v.extend_from_slice(&value.to_le_bytes());
    v
}

/// Two 32-bit little-endian entries, "foo" and "bar", then the string table.
fn table32() -> Vec<u8> {
    let mut bytes = entry32(1, 0x01, 0, 0, 0, true);
    bytes.extend(entry32(5, 0x0f, 1, 0x10, 0x1000, true));
    bytes.extend_from_slice(STRINGS);
    bytes
}

#[test]
fn wire_entries_have_no_padding() {
    assert_eq!(std::mem::size_of::<Nlist32>(), SIZEOF_NLIST_32);
    assert_eq!(std::mem::size_of::<Nlist64>(), SIZEOF_NLIST_64);
    assert_eq!(SIZEOF_NLIST_32, 12);
    assert_eq!(SIZEOF_NLIST_64, 16);
}

#[test]
fn entry_size_depends_on_width_only() {
    for le in [Endian::Little, Endian::Big] {
        assert_eq!(Nlist::size_with(&Ctx::new(Container::Little, le)), 12);
        assert_eq!(Nlist::size_with(&Ctx::new(Container::Big, le)), 16);
    }
}

#[test]
fn external_undefined_entry() {
    let nlist = Nlist { n_strx: 1, n_type: 0x01, n_sect: 0, n_desc: 0, n_value: 0 };
    assert!(nlist.is_global());
    assert!(nlist.is_undefined());
    assert!(!nlist.is_stab());
    assert_eq!(nlist.get_type(), N_UNDF);
    assert_eq!(nlist.type_str(), "N_UNDF");
}

#[test]
fn predicates_on_other_types() {
    let sect = Nlist { n_strx: 0, n_type: N_SECT | N_EXT, n_sect: 1, n_desc: 0, n_value: 0 };
    assert_eq!(sect.get_type(), N_SECT);
    assert_eq!(sect.type_str(), "N_SECT");
    assert!(!sect.is_undefined());
    let undf_in_sect = Nlist { n_strx: 0, n_type: 0, n_sect: 2, n_desc: 0, n_value: 0 };
    assert!(!undf_in_sect.is_undefined());
    assert!(!undf_in_sect.is_global());
    let stab = Nlist { n_strx: 0, n_type: 0x24, n_sect: 1, n_desc: 0, n_value: 0 };
    assert!(stab.is_stab());
    assert_eq!(stab.n_type & N_STAB, 0x20);
}

#[test]
fn type_names() {
    assert_eq!(n_type_to_str(N_UNDF), "N_UNDF");
    assert_eq!(n_type_to_str(N_ABS), "N_ABS");
    assert_eq!(n_type_to_str(0xc), "N_PBUD");
    assert_eq!(n_type_to_str(0xa), "N_INDR");
    assert_eq!(n_type_to_str(0x4), "UNKNOWN_N_TYPE");
}

#[test]
fn names_resolve_in_string_blob() {
    assert_eq!(name_at(STRINGS, 0, 1), Ok("foo"));
    assert_eq!(name_at(STRINGS, 0, 5), Ok("bar"));
    assert_eq!(name_at(STRINGS, 0, 0), Ok(""));
    assert_eq!(name_at(STRINGS, 4, 1), Ok("bar"));
}

#[test]
fn bad_names_are_errors() {
    assert_eq!(name_at(STRINGS, 0, 9), Err(Error::BadString { strx: 9 }));
    assert_eq!(name_at(STRINGS, 0, 100), Err(Error::BadString { strx: 100 }));
    assert_eq!(name_at(b"abc", 0, 0), Err(Error::BadString { strx: 0 }));
    assert_eq!(name_at(b"\xff\xfe\0", 0, 0), Err(Error::BadString { strx: 0 }));
    assert_eq!(name_at(STRINGS, usize::MAX, 1), Err(Error::BadString { strx: 1 }));
}

#[test]
fn read_narrow_entry_both_orders() {
    let le = entry32(5, 0x0f, 1, 0x10, 0x1000, true);
    let (n, size) = Nlist::try_from_ctx(&le, 0, narrow_le()).unwrap();
    assert_eq!(size, 12);
    assert_eq!(n, Nlist { n_strx: 5, n_type: 0x0f, n_sect: 1, n_desc: 0x10, n_value: 0x1000 });
    let be = entry32(5, 0x0f, 1, 0x10, 0x1000, false);
    let (n, _) = Nlist::try_from_ctx(&be, 0, Ctx::new(Container::Little, Endian::Big)).unwrap();
    assert_eq!(n, Nlist { n_strx: 5, n_type: 0x0f, n_sect: 1, n_desc: 0x10, n_value: 0x1000 });
}

#[test]
fn read_wide_entry() {
    let bytes = entry64(1, 0x0e, 3, 7, 0x1_0000_0000);
    let ctx = Ctx::new(Container::Big, Endian::Little);
    let (n, size) = Nlist::try_from_ctx(&bytes, 0, ctx).unwrap();
    assert_eq!(size, 16);
    assert_eq!(n.n_value, 0x1_0000_0000);
    assert_eq!(n.n_sect, 3);
    assert_eq!(
        Nlist::try_from_ctx(&bytes, 1, ctx),
        Err(Error::Truncated { record: Record::Nlist, offset: 1 })
    );
}

#[test]
fn iteration_yields_entries_and_names() {
    let bytes = table32();
    let (symbols, len) =
        Symbols::try_from_ctx(&bytes, SymbolsCtx { nsyms: 2, strtab: 24, ctx: narrow_le() })
            .unwrap();
    assert_eq!(len, bytes.len());
    let mut it = symbols.iter();
    let (name, first) = it.next().unwrap().unwrap();
    assert_eq!(name, "foo");
    assert!(first.is_global() && first.is_undefined());
    let (name, second) = it.next().unwrap().unwrap();
    assert_eq!(name, "bar");
    assert_eq!(second.n_value, 0x1000);
    assert!(it.next().is_none());
    assert!(it.next().is_none());
}

#[test]
fn iteration_count_is_nsyms() {
    let bytes = table32();
    for n in [0usize, 1, 2, 5] {
        let (symbols, _) =
            Symbols::try_from_ctx(&bytes, SymbolsCtx { nsyms: n, strtab: 24, ctx: narrow_le() })
                .unwrap();
        assert_eq!(symbols.entries().len(), n);
        let mut it = symbols.iter();
        let mut steps = 0;
        while it.next().is_some() {
            steps += 1;
        }
        assert_eq!(steps, n);
    }
}

#[test]
fn errors_do_not_end_iteration() {
    let mut bytes = entry32(1, 0, 0, 0, 0, true);
    bytes.extend(entry32(200, 0, 0, 0, 0, true));
    bytes.extend(entry32(5, 0, 0, 0, 0, true));
    bytes.extend_from_slice(STRINGS);
    let (symbols, _) =
        Symbols::try_from_ctx(&bytes, SymbolsCtx { nsyms: 5, strtab: 36, ctx: narrow_le() })
            .unwrap();
    let entries = symbols.entries();
    assert_eq!(entries.len(), 5);
    assert_eq!(entries[0].as_ref().unwrap().0, "foo");
    assert_eq!(entries[1], Err(Error::BadString { strx: 200 }));
    assert_eq!(entries[2].as_ref().unwrap().0, "bar");
    // a read that runs out of bytes does not move on: later steps fail there too
    assert_eq!(entries[3], Err(Error::Truncated { record: Record::Nlist, offset: 36 }));
    assert_eq!(entries[4], Err(Error::Truncated { record: Record::Nlist, offset: 36 }));
}

#[test]
fn get_by_index() {
    let bytes = table32();
    let (symbols, _) =
        Symbols::try_from_ctx(&bytes, SymbolsCtx { nsyms: 2, strtab: 24, ctx: narrow_le() })
            .unwrap();
    assert_eq!(symbols.get(1).unwrap().0, "bar");
    assert_eq!(symbols.get(0).unwrap().0, "foo");
    assert_eq!(symbols.get(2), Err(Error::IndexOutOfBounds { index: 2, count: 2 }));
}

#[test]
fn get_past_buffer_is_truncated() {
    let bytes = table32();
    let (symbols, _) =
        Symbols::try_from_ctx(&bytes, SymbolsCtx { nsyms: 10, strtab: 24, ctx: narrow_le() })
            .unwrap();
    assert_eq!(symbols.get(3), Err(Error::Truncated { record: Record::Nlist, offset: 36 }));
    let (symbols, _) = Symbols::try_from_ctx(
        &bytes,
        SymbolsCtx { nsyms: usize::MAX, strtab: 24, ctx: narrow_le() },
    )
    .unwrap();
    assert_eq!(
        symbols.get(usize::MAX / 2),
        Err(Error::Truncated { record: Record::Nlist, offset: usize::MAX })
    );
}

#[test]
fn new_reads_wide_little_endian() {
    let mut bytes = vec![0u8; 3];
    bytes.extend(entry64(1, 0x01, 0, 0, 0x2000));
    bytes.extend_from_slice(STRINGS);
    let symbols = Symbols::new(&bytes, 3, 1, 19).unwrap();
    let (name, nlist) = symbols.get(0).unwrap();
    assert_eq!(name, "foo");
    assert_eq!(nlist.n_value, 0x2000);
}

#[test]
fn parse_normalises_string_table_offset() {
    let mut file = vec![0xffu8; 8];
    file.extend(table32());
    let symtab =
        SymtabCommand { cmd: 2, cmdsize: 24, symoff: 8, nsyms: 2, stroff: 32, strsize: 9 };
    let symbols = Symbols::parse(&file, &symtab, narrow_le()).unwrap();
    let names: Vec<&str> = symbols.entries().into_iter().map(|r| r.unwrap().0).collect();
    assert_eq!(names, vec!["foo", "bar"]);
}

#[test]
fn parse_past_file_is_truncated() {
    let file = vec![0u8; 4];
    let symtab =
        SymtabCommand { cmd: 2, cmdsize: 24, symoff: 8, nsyms: 2, stroff: 32, strsize: 9 };
    let r = Symbols::parse(&file, &symtab, narrow_le());
    assert!(matches!(r, Err(Error::Truncated { record: Record::SymbolTable, offset: 8 })));
}

#[test]
fn entry_round_trip_every_context() {
    let nlist = Nlist { n_strx: 5, n_type: 0x0f, n_sect: 1, n_desc: 0x10, n_value: 0x1000 };
    for container in [Container::Little, Container::Big] {
        for le in [Endian::Little, Endian::Big] {
            let ctx = Ctx::new(container, le);
            let mut buf = vec![0x55u8; 20];
            let written = nlist.try_into_ctx(&mut buf, 2, ctx).unwrap();
            assert_eq!(written, Nlist::size_with(&ctx));
            assert_eq!(buf[0], 0x55);
            assert!(buf[2 + written..].iter().all(|b| *b == 0x55));
            assert_eq!(Nlist::try_from_ctx(&buf, 2, ctx).unwrap(), (nlist, written));
        }
    }
}

#[test]
fn entry_write_matches_layout() {
    let nlist = Nlist { n_strx: 5, n_type: 0x0f, n_sect: 1, n_desc: 0x10, n_value: 0x1000 };
    let mut buf = vec![0u8; 12];
    nlist.try_into_ctx(&mut buf, 0, narrow_le()).unwrap();
    assert_eq!(buf, entry32(5, 0x0f, 1, 0x10, 0x1000, true));
    let mut short = vec![0u8; 15];
    let r = nlist.try_into_ctx(&mut short, 0, Ctx::new(Container::Big, Endian::Little));
    assert_eq!(r, Err(Error::Truncated { record: Record::Nlist, offset: 0 }));
    assert!(short.iter().all(|b| *b == 0));
}

#[test]
fn describe_lists_good_and_bad_entries() {
    let mut bytes = entry32(1, 0x01, 0, 0, 0x10, true);
    bytes.extend(entry32(200, 0, 0, 0, 0, true));
    bytes.extend_from_slice(STRINGS);
    let (symbols, _) =
        Symbols::try_from_ctx(&bytes, SymbolsCtx { nsyms: 2, strtab: 24, ctx: narrow_le() })
            .unwrap();
    let text = symbols.describe();
    assert!(text.starts_with("Data: 33 start: 0, nsyms: 2 strtab: 0x18\nSymbols: {\n"));
    assert!(text.contains("        10 foo sect: 0x0 type: 0x1 desc: 0x0\n"));
    assert!(text.contains("  Bad symbol, index: 1, sym: BadString { strx: 200 }\n"));
    assert!(text.ends_with("}\n"));
    assert_eq!(text.lines().count(), 5);
}
