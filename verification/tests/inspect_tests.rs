use seam_probe::inspect::{inspect, InspectError};
use seam_probe::output::{BinFormat, Line, Outbox, SymKind};

fn u16le(v: &mut Vec<u8>, x: u16) {
    v.extend_from_slice(&x.to_le_bytes());
}
fn u32le(v: &mut Vec<u8>, x: u32) {
    v.extend_from_slice(&x.to_le_bytes());
}
fn u64le(v: &mut Vec<u8>, x: u64) {
    v.extend_from_slice(&x.to_le_bytes());
}

fn symbol(v: &mut Vec<u8>, name: u32, bind: u8, typ: u8, shndx: u16, value: u64, size: u64) {
    u32le(v, name);
    v.push((bind << 4) | typ);
    v.push(0);
    u16le(v, shndx);
    u64le(v, value);
    u64le(v, size);
}

#[allow(clippy::too_many_arguments)]
fn section(v: &mut Vec<u8>, name: u32, typ: u32, flags: u64, off: u64, size: u64, link: u32, info: u32, entsize: u64) {
    u32le(v, name);
    u32le(v, typ);
    u64le(v, flags);
    u64le(v, 0);
    u64le(v, off);
    u64le(v, size);
    u32le(v, link);
    u32le(v, info);
    u64le(v, 1);
    u64le(v, entsize);
}

/// A small ELF64 relocatable object with a symbol table and no dynamic
/// symbols, so it has no export list.
fn tiny_elf() -> Vec<u8> {
    let strtab = b"\0loc\0beta\0alpha\0ext\0";
    let shstrtab = b"\0.text\0.symtab\0.strtab\0.shstrtab\0";
    let mut syms = Vec::new();
    symbol(&mut syms, 0, 0, 0, 0, 0, 0);
    symbol(&mut syms, 1, 0, 2, 1, 0, 1); // loc: local function
    symbol(&mut syms, 5, 1, 2, 1, 0x20, 4); // beta: global function
    symbol(&mut syms, 10, 1, 1, 1, 0x10, 8); // alpha: global object
    symbol(&mut syms, 5, 1, 2, 1, 0x20, 99); // beta again: same key
    symbol(&mut syms, 5, 1, 0, 1, 0x08, 3); // beta: untyped, sized
    symbol(&mut syms, 16, 1, 2, 0, 0, 0); // ext: undefined
    let text_off = 64u64;
    let sym_off = text_off + 64;
    let str_off = sym_off + syms.len() as u64;
    let shstr_off = str_off + strtab.len() as u64;
    let sh_off = (shstr_off + shstrtab.len() as u64 + 7) / 8 * 8;

    let mut f = Vec::new();
    f.extend_from_slice(&[0x7f, b'E', b'L', b'F', 2, 1, 1, 0]);
    f.extend_from_slice(&[0; 8]);
    u16le(&mut f, 1); // relocatable
    u16le(&mut f, 62); // x86-64
    u32le(&mut f, 1);
    u64le(&mut f, 0);
    u64le(&mut f, 0);
    u64le(&mut f, sh_off);
    u32le(&mut f, 0);
    u16le(&mut f, 64);
    u16le(&mut f, 0);
    u16le(&mut f, 0);
    u16le(&mut f, 64);
    u16le(&mut f, 5);
    u16le(&mut f, 4);
    f.extend_from_slice(&[0; 64]);
    f.extend_from_slice(&syms);
    f.extend_from_slice(strtab);
    f.extend_from_slice(shstrtab);
    while (f.len() as u64) < sh_off {
        f.push(0);
    }
    section(&mut f, 0, 0, 0, 0, 0, 0, 0, 0);
    section(&mut f, 1, 1, 6, text_off, 64, 0, 0, 0);
    section(&mut f, 7, 2, 0, sym_off, syms.len() as u64, 3, 2, 24);
    section(&mut f, 15, 3, 0, str_off, strtab.len() as u64, 0, 0, 0);
    section(&mut f, 23, 3, 0, shstr_off, shstrtab.len() as u64, 0, 0, 0);
    f
}

#[test]
fn globals_are_listed_once_in_key_order() {
    let mut out = Outbox::new();
    assert_eq!(inspect(&mut out, &tiny_elf()), Ok(()));
    assert_eq!(
        out.take_lines(),
        vec![
            Line::Symbol { name: "alpha".into(), sym_kind: SymKind::Data, address: 0x10, size: 8 },
            Line::Symbol { name: "beta".into(), sym_kind: SymKind::Other, address: 0x08, size: 3 },
            Line::Symbol { name: "beta".into(), sym_kind: SymKind::Text, address: 0x20, size: 4 },
            Line::Summary { format: BinFormat::Elf, total: 3, functions: 1, data: 1 },
        ]
    );
}

#[test]
fn non_objects_are_refused() {
    let mut out = Outbox::new();
    match inspect(&mut out, b"definitely not an object file") {
        Err(InspectError::Parse(msg)) => assert!(!msg.is_empty()),
        other => panic!("unexpected {other:?}"),
    }
    assert!(out.take_lines().is_empty());
}
