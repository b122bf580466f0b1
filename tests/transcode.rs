use ld9::aout9::{AOut9, Magic as AoutMagic};
use ld9::decode::{decode_macho, load};
use ld9::convert::to_aout;
use ld9::macho::{CpuSubtype, CpuType, Filetype, Flags, Magic, ThreadState, LC};
use ld9::Error;

fn push32(v: &mut Vec<u8>, n: u32) {
    v.extend_from_slice(&n.to_le_bytes());
}

fn push64(v: &mut Vec<u8>, n: u64) {
    v.extend_from_slice(&n.to_le_bytes());
}

fn name16(v: &mut Vec<u8>, s: &str) {
    let mut b = [0u8; 16];
    b[..s.len()].copy_from_slice(s.as_bytes());
    v.extend_from_slice(&b);
}

fn be(b: &[u8], off: usize) -> u32 {
    u32::from_be_bytes([b[off], b[off + 1], b[off + 2], b[off + 3]])
}

/// A 32-bit section: its name, its segment's name, the declared size and
/// the file offset of its data.
struct Sect {
    name: &'static str,
    size: u32,
    offset: u32,
}

fn segment32(v: &mut Vec<u8>, segname: &str, sects: &[Sect]) {
    push32(v, 0x1);
    push32(v, 56 + 68 * sects.len() as u32);
    name16(v, segname);
    for f in [0x1000u32, 0x1000, 0, 0, 7, 5] {
        push32(v, f);
    }
    push32(v, sects.len() as u32);
    push32(v, 0);
    for s in sects {
        name16(v, s.name);
        name16(v, segname);
        push32(v, 0x1000);
        push32(v, s.size);
        push32(v, s.offset);
        for _ in 0..6 {
            push32(v, 0);
        }
    }
}

fn header32(v: &mut Vec<u8>, ncmds: u32, sizeofcmds: u32) {
    push32(v, 0xfeedface);
    push32(v, 7);
    push32(v, 3);
    push32(v, 2);
    push32(v, ncmds);
    push32(v, sizeofcmds);
    push32(v, 1);
}

fn symtab(v: &mut Vec<u8>) {
    push32(v, 0x2);
    push32(v, 24);
    for _ in 0..4 {
        push32(v, 0);
    }
}

/// An image with the given commands, whose section data starts at `data_at`.
fn image(cmds: &[u8], ncmds: u32, payload: &[u8]) -> Vec<u8> {
    let mut v = Vec::new();
    header32(&mut v, ncmds, cmds.len() as u32);
    v.extend_from_slice(cmds);
    v.extend_from_slice(payload);
    v
}

/// A text segment with one section of `text`, a data segment with one data
/// section of `data` and one bss section declaring `bss` bytes.
fn two_segment_image(text: &[u8], data: &[u8], bss: u32) -> Vec<u8> {
    let base = 28 + 124 + 192;
    let mut cmds = Vec::new();
    segment32(&mut cmds, "__TEXT", &[Sect { name: "__text", size: text.len() as u32, offset: base }]);
    segment32(
        &mut cmds,
        "__DATA",
        &[
            Sect { name: "__data", size: data.len() as u32, offset: base + text.len() as u32 },
            Sect { name: "__bss", size: bss, offset: 0 },
        ],
    );
    let mut payload = text.to_vec();
    payload.extend_from_slice(data);
    image(&cmds, 2, &payload)
}

#[test]
fn end_to_end_two_segments() {
    let text = [0x90u8, 0x90, 0xcc, 0xc3, 0x01];
    let data = [7u8, 8, 9];
    let file = two_segment_image(&text, &data, 0x40);
    let m = decode_macho(&file).unwrap();
    assert_eq!(m.loads.len(), 2);
    let a = to_aout(&m).unwrap();
    assert!(a.fits());
    let mut out = Vec::new();
    a.write_to(&mut out);
    assert_eq!(out.len(), 32 + 5 + 3);
    assert_eq!(be(&out, 0), 0x1eb);
    assert_eq!(be(&out, 4), 5);
    assert_eq!(be(&out, 8), 3);
    assert_eq!(be(&out, 12), 0x40);
    assert_eq!(be(&out, 16), 0);
    assert_eq!(be(&out, 20), 0x1020);
    assert_eq!(be(&out, 24), 0);
    assert_eq!(be(&out, 28), 0);
    assert_eq!(&out[0..4], &[0, 0, 0x01, 0xeb]);
    assert_eq!(&out[32..37], &text);
    assert_eq!(&out[37..40], &data);
}

#[test]
fn header_fields_read_back() {
    let a = AOut9 { magic: AoutMagic::I, text: vec![1; 300], data: vec![2; 70000], bss: 0x12345678, entry: 0x20 };
    let mut out = vec![0xaa];
    a.write_to(&mut out);
    assert_eq!(out[0], 0xaa);
    let b = &out[1..];
    assert_eq!(be(b, 4), 300);
    assert_eq!(be(b, 8), 70000);
    assert_eq!(be(b, 12), 0x12345678);
    assert_eq!(&b[12..16], &[0x12, 0x34, 0x56, 0x78]);
    assert_eq!(be(b, 20), 0x1020);
    assert_eq!(b.len(), 32 + 300 + 70000);
}

#[test]
fn oversized_image_does_not_fit() {
    let a = AOut9 { magic: AoutMagic::I, text: vec![], data: vec![], bss: 0x1_0000_0000, entry: 0x20 };
    assert!(!a.fits());
    let b = AOut9 { magic: AoutMagic::I, text: vec![], data: vec![], bss: 0, entry: 0xffff_f000 };
    assert!(!b.fits());
    let c = AOut9 { magic: AoutMagic::I, text: vec![], data: vec![], bss: 0, entry: 0xffff_efff };
    assert!(c.fits());
}

#[test]
fn magic_numbers() {
    assert_eq!(AoutMagic::A.value(), 263);
    assert_eq!(AoutMagic::I.value(), 491);
    assert_eq!(AoutMagic::U.value(), 2507);
    assert_eq!(AoutMagic::S.value(), 0x8a97);
    assert_eq!(AoutMagic::R.value(), 0x8000 | 3143);
}

#[test]
fn short_buffer_is_too_short() {
    assert_eq!(decode_macho(&[]).unwrap_err(), Error::TooShort);
    let file = two_segment_image(&[1], &[2], 0);
    assert_eq!(decode_macho(&file[..27]).unwrap_err(), Error::TooShort);
}

#[test]
fn unknown_magic_is_reported() {
    let mut file = two_segment_image(&[1], &[2], 0);
    file[0..4].copy_from_slice(&0xcafebabeu32.to_le_bytes());
    assert_eq!(decode_macho(&file).unwrap_err(), Error::UnknownMagic(0xcafebabe));
}

#[test]
fn commands_past_end_are_too_short() {
    let mut cmds = Vec::new();
    symtab(&mut cmds);
    let mut file = image(&cmds, 1, &[]);
    file[20..24].copy_from_slice(&25u32.to_le_bytes());
    assert_eq!(decode_macho(&file).unwrap_err(), Error::TooShort);
}

#[test]
fn unrecognized_tag_reports_index() {
    let mut cmds = Vec::new();
    symtab(&mut cmds);
    push32(&mut cmds, 0x99);
    push32(&mut cmds, 8);
    symtab(&mut cmds);
    let file = image(&cmds, 3, &[]);
    assert_eq!(decode_macho(&file).unwrap_err(), Error::UnrecognizedSegment(1, 0x99));
}

#[test]
fn segment_size_mismatch() {
    let file = two_segment_image(&[1, 2], &[3], 0);
    let mut bad = file.clone();
    // the text segment declares two sections but holds one
    bad[28 + 48..28 + 52].copy_from_slice(&2u32.to_le_bytes());
    assert_eq!(decode_macho(&bad).unwrap_err(), Error::SizeMismatch);
    let mut short = file.clone();
    short[28 + 4..28 + 8].copy_from_slice(&40u32.to_le_bytes());
    assert_eq!(decode_macho(&short).unwrap_err(), Error::SizeMismatch);
}

#[test]
fn records_must_fill_declared_region() {
    let mut cmds = Vec::new();
    symtab(&mut cmds);
    symtab(&mut cmds);
    let mut file = image(&cmds, 1, &[]);
    assert_eq!(decode_macho(&file).unwrap_err(), Error::SizeMismatch);
    file[16..20].copy_from_slice(&2u32.to_le_bytes());
    let m = decode_macho(&file).unwrap();
    let sum: u32 = m.loads.iter().map(|lc| match lc {
        LC::Symtab(c) => c.head.cmdsize,
        _ => 0,
    }).sum();
    assert_eq!(sum, m.header.sizeofcmds);
}

#[test]
fn trailing_bytes_are_not_read() {
    let file = two_segment_image(&[1, 2, 3], &[4], 8);
    let mut longer = file.clone();
    longer.extend_from_slice(&[0x99, 0, 0, 0, 8, 0, 0, 0]);
    let a = to_aout(&decode_macho(&file).unwrap()).unwrap();
    let b = to_aout(&decode_macho(&longer).unwrap()).unwrap();
    assert_eq!(a.text, b.text);
    assert_eq!(a.data, b.data);
    assert_eq!(a.bss, b.bss);
}

#[test]
fn section_data_past_end_is_too_short() {
    let file = two_segment_image(&[1, 2, 3], &[4], 0);
    assert_eq!(decode_macho(&file[..file.len() - 1]).unwrap_err(), Error::TooShort);
}

#[test]
fn text_segments_concatenate_in_order() {
    let base = 28 + 192 + 124;
    let mut cmds = Vec::new();
    segment32(&mut cmds, "__TEXT", &[Sect { name: "a", size: 2, offset: base }, Sect { name: "b", size: 3, offset: base + 2 }]);
    segment32(&mut cmds, "__TEXT", &[Sect { name: "c", size: 1, offset: base + 5 }]);
    let file = image(&cmds, 2, &[10, 11, 20, 21, 22, 30]);
    let a = to_aout(&decode_macho(&file).unwrap()).unwrap();
    assert_eq!(a.text, vec![10, 11, 20, 21, 22, 30]);
    assert!(a.data.is_empty());
    assert_eq!(a.bss, 0);
    assert_eq!(a.entry, 0x20);
}

#[test]
fn dynamic_symbol_table_is_rejected() {
    let mut file_cmds = Vec::new();
    segment32(&mut file_cmds, "__TEXT", &[]);
    push32(&mut file_cmds, 0xb);
    push32(&mut file_cmds, 80);
    for _ in 0..18 {
        push32(&mut file_cmds, 0);
    }
    let file = image(&file_cmds, 2, &[]);
    let m = decode_macho(&file).unwrap();
    assert!(m.is_dynamic());
    assert_eq!(to_aout(&m).unwrap_err(), Error::DynamicUnsupported);
}

#[test]
fn dynamic_linker_is_rejected() {
    let mut cmds = Vec::new();
    push32(&mut cmds, 0xe);
    push32(&mut cmds, 20);
    push32(&mut cmds, 12);
    cmds.extend_from_slice(b"/usr/lib");
    let file = image(&cmds, 1, &[]);
    let m = decode_macho(&file).unwrap();
    match &m.loads[0] {
        LC::LoadDylinker(c, path) => {
            assert_eq!(c.body.name.offset, 12);
            assert_eq!(path, b"/usr/lib");
        },
        _ => panic!("not a dynamic linker command"),
    }
    assert_eq!(to_aout(&m).unwrap_err(), Error::DynamicUnsupported);
}

#[test]
fn thread_state_x86_is_decoded() {
    let mut cmds = Vec::new();
    push32(&mut cmds, 0x5);
    push32(&mut cmds, 16 + 64);
    push32(&mut cmds, 1);
    push32(&mut cmds, 16);
    for r in 0..16u32 {
        push32(&mut cmds, r * 3);
    }
    let file = image(&cmds, 1, &[]);
    let m = decode_macho(&file).unwrap();
    match &m.loads[0] {
        LC::UnixThread(_, ThreadState::ThreadStateX86(regs)) => {
            assert_eq!(regs[0], 0);
            assert_eq!(regs[15], 45);
        },
        _ => panic!("not an x86 thread state"),
    }
}

#[test]
fn thread_state_x86_64_is_decoded() {
    let mut cmds = Vec::new();
    push32(&mut cmds, 0x5);
    push32(&mut cmds, 16 + 168);
    push32(&mut cmds, 4);
    push32(&mut cmds, 42);
    for r in 0..21u64 {
        push64(&mut cmds, r << 33);
    }
    let file = image(&cmds, 1, &[]);
    match &decode_macho(&file).unwrap().loads[0] {
        LC::UnixThread(_, ThreadState::ThreadStateX86_64(regs)) => {
            assert_eq!(regs[20], 20u64 << 33);
        },
        _ => panic!("not an x86-64 thread state"),
    }
}

#[test]
fn thread_state_unrecognized() {
    let mut cmds = Vec::new();
    push32(&mut cmds, 0x5);
    push32(&mut cmds, 16 + 64);
    push32(&mut cmds, 7);
    push32(&mut cmds, 3);
    for _ in 0..16 {
        push32(&mut cmds, 0);
    }
    let file = image(&cmds, 1, &[]);
    assert_eq!(decode_macho(&file).unwrap_err(), Error::UnrecognizedThreadState(7, 3));
}

#[test]
fn wide_header_and_segment() {
    let mut v = Vec::new();
    push32(&mut v, 0xfeedfacf);
    push32(&mut v, 0x0100_0007);
    push32(&mut v, 3);
    push32(&mut v, 2);
    push32(&mut v, 1);
    push32(&mut v, 72 + 80);
    push32(&mut v, 1);
    push32(&mut v, 0);
    let data_at = 32 + 72 + 80;
    push32(&mut v, 0x19);
    push32(&mut v, 72 + 80);
    name16(&mut v, "__TEXT");
    for f in [0x1000u64, 0x1000, 0, 0] {
        push64(&mut v, f);
    }
    push32(&mut v, 7);
    push32(&mut v, 5);
    push32(&mut v, 1);
    push32(&mut v, 0);
    name16(&mut v, "__text");
    name16(&mut v, "__TEXT");
    push64(&mut v, 0x1000);
    push64(&mut v, 2);
    push32(&mut v, data_at);
    for _ in 0..7 {
        push32(&mut v, 0);
    }
    v.extend_from_slice(&[0xaa, 0xbb]);
    let m = decode_macho(&v).unwrap();
    assert_eq!(m.header.cputype, CpuType::X86_64.code());
    assert_eq!(to_aout(&m).unwrap().text, vec![0xaa, 0xbb]);
}

#[test]
fn cpu_type_codes() {
    assert_eq!(CpuType::from_code(7), Some(CpuType::X86));
    assert_eq!(CpuType::from_code(0x0100_0012), Some(CpuType::PowerPc64));
    assert_eq!(CpuType::from_code(8), None);
    assert_eq!(CpuType::PowerPc.code(), 18);
}

#[test]
fn load_copies_bytes_in_bounds() {
    let file = [1u8, 2, 3, 4, 5];
    assert_eq!(load(&file, 1, 3), Some(vec![2, 3, 4]));
    assert_eq!(load(&file, 5, 0), Some(vec![]));
    assert_eq!(load(&file, 3, 3), None);
    assert_eq!(load(&file, u64::MAX, 2), None);
}

#[test]
fn magic_validity() {
    assert!(Magic(0xfeedface).is_valid());
    assert!(Magic(0xfeedfacf).is_valid());
    assert!(!Magic(0xcefaedfe).is_valid());
}

#[test]
fn header_vocabulary_codes() {
    assert_eq!(CpuSubtype::from_code(0xffff_ffff), Some(CpuSubtype::Any));
    assert_eq!(CpuSubtype::I386All.code(), 3);
    assert_eq!(Filetype::from_code(2), Some(Filetype::Execute));
    assert_eq!(Filetype::from_code(3), None);
    assert_eq!(Flags::DyldLink.code(), 3);
    assert_eq!(Flags::from_code(0), None);
}

#[test]
fn segment_names_must_match_exactly() {
    let base = 28 + 124;
    let mut cmds = Vec::new();
    segment32(&mut cmds, "__TEXTX", &[Sect { name: "__text", size: 2, offset: base }]);
    let file = image(&cmds, 1, &[5, 6]);
    let a = to_aout(&decode_macho(&file).unwrap()).unwrap();
    assert!(a.text.is_empty());
}

#[test]
fn segment_size_mismatch_past_region() {
    let mut cmds = Vec::new();
    segment32(&mut cmds, "__TEXT", &[]);
    cmds[4..8].copy_from_slice(&200u32.to_le_bytes());
    let mut file = image(&cmds, 1, &[0u8; 200]);
    assert_eq!(u32::from_le_bytes([file[20], file[21], file[22], file[23]]), 56);
    assert_eq!(decode_macho(&file).unwrap_err(), Error::SizeMismatch);
    // nor does it matter where the buffer ends after the fixed part
    file.truncate(28 + 56);
    assert_eq!(decode_macho(&file).unwrap_err(), Error::SizeMismatch);
}

#[test]
fn unrecognized_tag_past_region() {
    let mut cmds = Vec::new();
    push32(&mut cmds, 0x77);
    push32(&mut cmds, 8);
    let mut file = image(&cmds, 1, &[]);
    file[20..24].copy_from_slice(&0u32.to_le_bytes());
    assert_eq!(decode_macho(&file).unwrap_err(), Error::UnrecognizedSegment(0, 0x77));
}

#[test]
fn thread_state_pair_before_size() {
    let mut cmds = Vec::new();
    push32(&mut cmds, 0x5);
    push32(&mut cmds, 8);
    let mut file = image(&cmds, 1, &[]);
    push32(&mut file, 9);
    push32(&mut file, 9);
    assert_eq!(decode_macho(&file).unwrap_err(), Error::UnrecognizedThreadState(9, 9));
}

#[test]
fn bss_named_text_section_keeps_its_bytes() {
    let base = 28 + 124;
    let mut cmds = Vec::new();
    segment32(&mut cmds, "__TEXT", &[Sect { name: "__bss", size: 1, offset: base }]);
    let file = image(&cmds, 1, &[0x42]);
    let a = to_aout(&decode_macho(&file).unwrap()).unwrap();
    assert_eq!(a.text, vec![0x42]);
    assert_eq!(a.bss, 0);
}

#[test]
fn small_declared_size_of_fixed_record() {
    let mut cmds = Vec::new();
    push32(&mut cmds, 0x2);
    push32(&mut cmds, 8);
    for _ in 0..4 {
        push32(&mut cmds, 0);
    }
    push32(&mut cmds, 0x2);
    push32(&mut cmds, 16);
    for _ in 0..2 {
        push32(&mut cmds, 0);
    }
    let file = image(&cmds, 2, &[]);
    // the first symbol table is read whole although it declares 8 bytes,
    // and the next record starts 8 bytes after it, on a zero tag
    assert_eq!(decode_macho(&file).unwrap_err(), Error::UnrecognizedSegment(1, 0));
}
