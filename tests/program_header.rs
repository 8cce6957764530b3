use goblin::container::{Container, Ctx, Endian};
use goblin::elf::program_header::program_header32;
use goblin::elf::program_header::program_header64;
use goblin::elf::program_header::{
    pt_to_str, ProgramHeader, PF_R, PF_W, PF_X, PT_GNU_STACK, PT_HIOS, PT_LOAD, PT_NULL,
    PT_SUNWBSS,
};
use goblin::error::{Error, Record};

fn all_ctxs() -> Vec<Ctx> {
    vec![
        Ctx::new(Container::Little, Endian::Little),
        Ctx::new(Container::Little, Endian::Big),
        Ctx::new(Container::Big, Endian::Little),
        Ctx::new(Container::Big, Endian::Big),
    ]
}

fn sample() -> ProgramHeader {
    ProgramHeader {
        p_type: PT_LOAD,
        p_flags: PF_R | PF_X,
        p_offset: 0x1000,
        p_vaddr: 0x40_1000,
        p_paddr: 0x40_1000,
        p_filesz: 0x234,
        p_memsz: 0x300,
        p_align: 0x1000,
    }
}

#[test]
fn wire_layouts_have_no_padding() {
    assert_eq!(std::mem::size_of::<program_header32::ProgramHeader>(), program_header32::SIZEOF_PHDR);
    assert_eq!(std::mem::size_of::<program_header64::ProgramHeader>(), program_header64::SIZEOF_PHDR);
    assert_eq!(program_header32::SIZEOF_PHDR, 32);
    assert_eq!(program_header64::SIZEOF_PHDR, 56);
}

#[test]
fn size_depends_on_width_only() {
    for ctx in all_ctxs() {
        let expected = if ctx.container == Container::Little { 32 } else { 56 };
        assert_eq!(ProgramHeader::size(&ctx), expected);
    }
}

#[test]
fn round_trip_every_context() {
    for ctx in all_ctxs() {
        let ph = sample();
        let mut buf = vec![0xaau8; 80];
        let written = ph.try_into_ctx(&mut buf, 7, ctx).unwrap();
        assert_eq!(written, ProgramHeader::size(&ctx));
        assert!(buf[..7].iter().all(|b| *b == 0xaa));
        assert!(buf[7 + written..].iter().all(|b| *b == 0xaa));
        let (back, read) = ProgramHeader::try_from_ctx(&buf, 7, ctx).unwrap();
        assert_eq!(read, written);
        assert_eq!(back, ph);
    }
}

#[test]
fn narrow_write_keeps_low_bits() {
    let ctx = Ctx::new(Container::Little, Endian::Little);
    let mut ph = sample();
    ph.p_vaddr = 0x1_2345_6789;
    let mut buf = vec![0u8; 32];
    ph.try_into_ctx(&mut buf, 0, ctx).unwrap();
    let (back, _) = ProgramHeader::try_from_ctx(&buf, 0, ctx).unwrap();
    assert_eq!(back.p_vaddr, 0x2345_6789);
}

#[test]
fn narrow_layout_field_order() {
    let ctx = Ctx::new(Container::Little, Endian::Little);
    let mut buf = vec![0u8; 32];
    sample().try_into_ctx(&mut buf, 0, ctx).unwrap();
    assert_eq!(&buf[0..4], &[1, 0, 0, 0]);
    assert_eq!(&buf[4..8], &[0x00, 0x10, 0, 0]);
    assert_eq!(&buf[24..28], &[5, 0, 0, 0]);
    assert_eq!(&buf[28..32], &[0x00, 0x10, 0, 0]);
}

#[test]
fn wide_layout_field_order() {
    let ctx = Ctx::new(Container::Big, Endian::Big);
    let mut buf = vec![0u8; 56];
    sample().try_into_ctx(&mut buf, 0, ctx).unwrap();
    assert_eq!(&buf[0..4], &[0, 0, 0, 1]);
    assert_eq!(&buf[4..8], &[0, 0, 0, 5]);
    assert_eq!(&buf[8..16], &[0, 0, 0, 0, 0, 0, 0x10, 0x00]);
}

#[test]
fn wide_offset_honours_byte_order() {
    let mut bytes = vec![0u8; 56];
    bytes[8..16].copy_from_slice(&[0x00, 0x10, 0x00, 0x00, 0x00, 0x00, 0x00, 0x00]);
    let (le, _) =
        ProgramHeader::try_from_ctx(&bytes, 0, Ctx::new(Container::Big, Endian::Little)).unwrap();
    assert_eq!(le.p_offset, 0x1000);
    let (be, _) =
        ProgramHeader::try_from_ctx(&bytes, 0, Ctx::new(Container::Big, Endian::Big)).unwrap();
    assert_eq!(be.p_offset, 0x0010_0000_0000_0000);
    assert_ne!(be.p_offset, le.p_offset);
}

#[test]
fn short_buffer_is_truncated() {
    let bytes = vec![0u8; 55];
    let r = ProgramHeader::try_from_ctx(&bytes, 0, Ctx::new(Container::Big, Endian::Little));
    assert_eq!(r, Err(Error::Truncated { record: Record::ProgramHeader, offset: 0 }));
    let r = ProgramHeader::try_from_ctx(&bytes, 24, Ctx::new(Container::Little, Endian::Little));
    assert_eq!(r, Err(Error::Truncated { record: Record::ProgramHeader, offset: 24 }));
    let r = ProgramHeader::try_from_ctx(&bytes, 100, Ctx::new(Container::Little, Endian::Little));
    assert_eq!(r, Err(Error::Truncated { record: Record::ProgramHeader, offset: 100 }));
    let ok = ProgramHeader::try_from_ctx(&bytes, 23, Ctx::new(Container::Little, Endian::Little));
    assert!(ok.is_ok());
}

#[test]
fn short_destination_is_left_alone() {
    let mut buf = vec![7u8; 40];
    let r = sample().try_into_ctx(&mut buf, 0, Ctx::new(Container::Big, Endian::Little));
    assert_eq!(r, Err(Error::Truncated { record: Record::ProgramHeader, offset: 0 }));
    assert!(buf.iter().all(|b| *b == 7));
}

#[test]
fn parse_table_in_file_order() {
    let ctx = Ctx::new(Container::Little, Endian::Big);
    let mut headers = Vec::new();
    let mut buf = vec![0u8; 4 + 3 * 32];
    for i in 0..3u64 {
        let mut ph = sample();
        ph.p_vaddr = 0x1000 * (i + 1);
        ph.try_into_ctx(&mut buf, 4 + 32 * i as usize, ctx).unwrap();
        headers.push(ph);
    }
    let parsed = ProgramHeader::parse(&buf, 4, 3, ctx).unwrap();
    assert_eq!(parsed, headers);
    assert_eq!(ProgramHeader::parse(&buf, 4, 0, ctx).unwrap(), vec![]);
    assert_eq!(ProgramHeader::parse(&buf, 1000, 0, ctx).unwrap(), vec![]);
}

#[test]
fn parse_stops_at_first_short_record() {
    let ctx = Ctx::new(Container::Little, Endian::Little);
    let buf = vec![0u8; 4 + 2 * 32 + 10];
    let r = ProgramHeader::parse(&buf, 4, 3, ctx);
    assert_eq!(r, Err(Error::Truncated { record: Record::ProgramHeader, offset: 68 }));
    let r = ProgramHeader::parse(&buf, 200, 1, ctx);
    assert_eq!(r, Err(Error::Truncated { record: Record::ProgramHeader, offset: 200 }));
}

#[test]
fn new_is_loadable_segment() {
    let ph = ProgramHeader::new();
    assert_eq!(ph.p_type, PT_LOAD);
    assert_eq!(ph.p_flags, 0);
    assert_eq!(ph.p_filesz, 0);
    assert_eq!(ph.p_align, 0x200000);
}

#[test]
fn flags_are_ored_in() {
    let mut ph = ProgramHeader::new();
    ph.read();
    assert_eq!(ph.p_flags, 4);
    ph.write();
    assert_eq!(ph.p_flags, 6);
    ph.executable();
    assert_eq!(ph.p_flags, PF_R | PF_W | PF_X);
    assert_eq!(ph.p_flags, 7);
}

#[test]
fn range_spans_file_bytes() {
    let r = sample().to_range();
    assert_eq!(r, 0x1000..0x1234);
}

#[test]
fn segment_type_names() {
    assert_eq!(pt_to_str(PT_NULL), "PT_NULL");
    assert_eq!(pt_to_str(PT_LOAD), "PT_LOAD");
    assert_eq!(pt_to_str(PT_GNU_STACK), "PT_GNU_STACK");
    assert_eq!(pt_to_str(PT_SUNWBSS), "PT_SUNWBSS");
    assert_eq!(pt_to_str(PT_HIOS), "PT_HIOS");
    assert_eq!(pt_to_str(0x7000_0001), "PT_ARM_EXIDX");
    assert_eq!(pt_to_str(0x1234), "UNKNOWN_PT");
}

#[test]
fn wide_conversions_keep_fields() {
    let wide = program_header64::ProgramHeader::from(sample());
    assert_eq!(wide.p_offset, 0x1000);
    assert_eq!(ProgramHeader::from(wide), sample());
    let narrow = program_header32::ProgramHeader::from(sample());
    assert_eq!(narrow.p_memsz, 0x300);
    assert_eq!(ProgramHeader::from(narrow), sample());
}
