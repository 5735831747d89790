use proc_macro_expander::inspector::{
    count_libraries, find_trie, get_symbols_from_lib, keep_named, read_macho_commands, read_u32,
    MachCommand, ObjectFormat, ParseError,
};

fn le16(v: u16) -> Vec<u8> {
    v.to_le_bytes().to_vec()
}

fn le32(v: u32) -> Vec<u8> {
    v.to_le_bytes().to_vec()
}

fn le64(v: u64) -> Vec<u8> {
    v.to_le_bytes().to_vec()
}

/// A 64-bit ELF shared object whose dynamic string table holds the names.
fn elf_with_strings(names: &[&str]) -> Vec<u8> {
    let mut strtab: Vec<u8> = vec![0];
    for n in names {
        strtab.extend_from_slice(n.as_bytes());
        strtab.push(0);
    }
    let dyn_off: u64 = 64 + 2 * 56;
    let str_off: u64 = dyn_off + 3 * 16;
    let total: u64 = str_off + strtab.len() as u64;
    let mut b: Vec<u8> = vec![0x7f, b'E', b'L', b'F', 2, 1, 1, 0, 0, 0, 0, 0, 0, 0, 0, 0];
    b.extend(le16(3));
    b.extend(le16(62));
    b.extend(le32(1));
    b.extend(le64(0));
    b.extend(le64(64));
    b.extend(le64(0));
    b.extend(le32(0));
    b.extend(le16(64));
    b.extend(le16(56));
    b.extend(le16(2));
    b.extend(le16(64));
    b.extend(le16(0));
    b.extend(le16(0));
    b.extend(le32(1));
    b.extend(le32(5));
    b.extend(le64(0));
    b.extend(le64(0));
    b.extend(le64(0));
    b.extend(le64(total));
    b.extend(le64(total));
    b.extend(le64(0x1000));
    b.extend(le32(2));
    b.extend(le32(6));
    b.extend(le64(dyn_off));
    b.extend(le64(dyn_off));
    b.extend(le64(dyn_off));
    b.extend(le64(48));
    b.extend(le64(48));
    b.extend(le64(8));
    b.extend(le64(5));
    b.extend(le64(str_off));
    b.extend(le64(10));
    b.extend(le64(strtab.len() as u64));
    b.extend(le64(0));
    b.extend(le64(0));
    b.extend(strtab);
    b
}

/// A 64-bit PE library with one export for each name. An export that is
/// not `mapped` has a name pointer that leads nowhere, so it has no name.
fn pe_with_exports(names: &[(&str, bool)]) -> Vec<u8> {
    let n = names.len() as u32;
    let mut b: Vec<u8> = b"MZ".to_vec();
    b.resize(0x3c, 0);
    b.extend(le32(0x40));
    b.extend(b"PE\0\0");
    b.extend(le16(0x8664));
    b.extend(le16(1));
    b.extend(le32(0));
    b.extend(le32(0));
    b.extend(le32(0));
    b.extend(le16(240));
    b.extend(le16(0x2022));
    b.extend(le16(0x20b));
    b.push(14);
    b.push(0);
    b.extend(le32(0));
    b.extend(le32(0x200));
    b.extend(le32(0));
    b.extend(le32(0));
    b.extend(le32(0x1000));
    b.extend(le64(0x1_8000_0000));
    b.extend(le32(0x1000));
    b.extend(le32(0x200));
    b.extend(le16(6));
    b.extend(le16(0));
    b.extend(le16(0));
    b.extend(le16(0));
    b.extend(le16(6));
    b.extend(le16(0));
    b.extend(le32(0));
    b.extend(le32(0x2000));
    b.extend(le32(0x200));
    b.extend(le32(0));
    b.extend(le16(3));
    b.extend(le16(0));
    b.extend(le64(0x100000));
    b.extend(le64(0x1000));
    b.extend(le64(0x100000));
    b.extend(le64(0x1000));
    b.extend(le32(0));
    b.extend(le32(16));
    let names_len: u32 = names.iter().map(|(s, _)| s.len() as u32 + 1).sum();
    let dir_size = 40 + n * 10 + 8 + names_len;
    b.extend(le32(0x1000));
    b.extend(le32(dir_size));
    for _ in 0..15 {
        b.extend(le64(0));
    }
    b.extend(b".edata\0\0");
    b.extend(le32(0x200));
    b.extend(le32(0x1000));
    b.extend(le32(0x200));
    b.extend(le32(0x200));
    b.extend(le32(0));
    b.extend(le32(0));
    b.extend(le16(0));
    b.extend(le16(0));
    b.extend(le32(0x4000_0040));
    b.resize(0x200, 0);
    let addr_rva = 0x1000 + 40;
    let names_rva = addr_rva + 4 * n;
    let ord_rva = names_rva + 4 * n;
    let dll_rva = ord_rva + 2 * n;
    let mut str_rva = dll_rva + 8;
    b.extend(le32(0));
    b.extend(le32(0));
    b.extend(le16(0));
    b.extend(le16(0));
    b.extend(le32(dll_rva));
    b.extend(le32(1));
    b.extend(le32(n));
    b.extend(le32(n));
    b.extend(le32(addr_rva));
    b.extend(le32(names_rva));
    b.extend(le32(ord_rva));
    for _ in 0..n {
        b.extend(le32(0x11f0));
    }
    for (s, mapped) in names {
        if *mapped {
            b.extend(le32(str_rva));
        } else {
            b.extend(le32(0x9000));
        }
        str_rva += s.len() as u32 + 1;
    }
    for i in 0..n {
        b.extend(le16(i as u16));
    }
    b.extend(b"a.dll\0\0\0");
    for (s, _) in names {
        b.extend(s.as_bytes());
        b.push(0);
    }
    b.resize(0x400, 0);
    b
}

/// A 64-bit Mach-O library for one architecture with one command that says
/// where the export trie lies; `trie` follows the command.
fn macho_with_trie(trie: &[u8], offset: u32, size: u32) -> Vec<u8> {
    let mut b: Vec<u8> = vec![0xcf, 0xfa, 0xed, 0xfe];
    b.extend(le32(0x0100_0007));
    b.extend(le32(3));
    b.extend(le32(6));
    b.extend(le32(1));
    b.extend(le32(48));
    b.extend(le32(0));
    b.extend(le32(0));
    b.extend(le32(0x8000_0022));
    b.extend(le32(48));
    for _ in 0..8 {
        b.extend(le32(0));
    }
    b.extend(le32(offset));
    b.extend(le32(size));
    b.extend(trie);
    b
}

/// A 64-bit Mach-O library for one architecture; with `export`, its export
/// trie holds that one name.
fn macho(export: Option<&str>) -> Vec<u8> {
    let mut b: Vec<u8> = vec![0xcf, 0xfa, 0xed, 0xfe];
    b.extend(le32(0x0100_0007));
    b.extend(le32(3));
    b.extend(le32(6));
    match export {
        None => {
            b.extend(le32(0));
            b.extend(le32(0));
            b.extend(le32(0));
            b.extend(le32(0));
        }
        Some(name) => {
            let mut trie: Vec<u8> = vec![0x00, 0x01];
            trie.extend(name.as_bytes());
            trie.push(0);
            trie.push(name.len() as u8 + 4);
            trie.extend(&[0x02, 0x00, 0x10, 0x00]);
            b.extend(le32(1));
            b.extend(le32(48));
            b.extend(le32(0));
            b.extend(le32(0));
            b.extend(le32(0x8000_0022));
            b.extend(le32(48));
            for _ in 0..8 {
                b.extend(le32(0));
            }
            b.extend(le32(80));
            b.extend(le32(trie.len() as u32));
            b.extend(trie);
        }
    }
    b
}

#[test]
fn elf_gives_every_entry_of_its_dynamic_string_table() {
    let bytes = elf_with_strings(&["malloc", "__rustc_proc_macro_decls_abc__", "free"]);
    assert_eq!(
        get_symbols_from_lib(&bytes),
        Ok(vec![
            "".to_string(),
            "malloc".to_string(),
            "__rustc_proc_macro_decls_abc__".to_string(),
            "free".to_string(),
        ])
    );
}

#[test]
fn elf_entries_are_not_filtered() {
    let bytes = elf_with_strings(&["libc.so.6", "GLIBC_2.2.5", "local_helper"]);
    assert_eq!(get_symbols_from_lib(&bytes).map(|names| names.len()), Ok(4));
}

#[test]
fn pe_gives_the_names_of_its_named_exports() {
    let bytes = pe_with_exports(&[
        ("alpha", true),
        ("hidden", false),
        ("__rustc_proc_macro_decls_x", true),
    ]);
    assert_eq!(
        get_symbols_from_lib(&bytes),
        Ok(vec!["alpha".to_string(), "__rustc_proc_macro_decls_x".to_string()])
    );
}

#[test]
fn pe_without_exports_gives_no_names() {
    assert_eq!(get_symbols_from_lib(&pe_with_exports(&[])), Ok(Vec::new()));
}

#[test]
fn macho_gives_the_names_in_its_export_trie() {
    assert_eq!(
        get_symbols_from_lib(&macho(Some("___rustc_proc_macro_decls_y"))),
        Ok(vec!["___rustc_proc_macro_decls_y".to_string()])
    );
    assert_eq!(get_symbols_from_lib(&macho(None)), Ok(Vec::new()));
}

#[test]
fn fat_macho_is_not_supported() {
    let mut bytes = vec![0xca, 0xfe, 0xba, 0xbe, 0, 0, 0, 0];
    bytes.extend(vec![0u8; 24]);
    assert_eq!(
        get_symbols_from_lib(&bytes),
        Err(ParseError::Unsupported(ObjectFormat::MachFat))
    );
}

#[test]
fn archive_is_not_supported() {
    let mut bytes = b"!<arch>\n".to_vec();
    bytes.extend(b"hello.o/        0           0     0     644     4         `\n");
    bytes.extend(b"abcd");
    assert_eq!(
        get_symbols_from_lib(&bytes),
        Err(ParseError::Unsupported(ObjectFormat::Archive))
    );
}

#[test]
fn unknown_magic_is_not_supported() {
    assert_eq!(
        get_symbols_from_lib(&[0u8; 16]),
        Err(ParseError::Unsupported(ObjectFormat::Unknown))
    );
    assert_eq!(
        get_symbols_from_lib(b"hello world, this is text"),
        Err(ParseError::Unsupported(ObjectFormat::Unknown))
    );
}

#[test]
fn too_few_bytes_are_malformed() {
    assert_eq!(get_symbols_from_lib(&[]), Err(ParseError::Malformed));
    assert_eq!(get_symbols_from_lib(&[0u8; 15]), Err(ParseError::Malformed));
}

#[test]
fn broken_files_of_a_known_format_are_malformed() {
    let mut elf = vec![0x7f, b'E', b'L', b'F', 2, 1, 1, 0, 0, 0, 0, 0, 0, 0, 0, 0];
    elf.extend(vec![0xffu8; 10]);
    assert_eq!(get_symbols_from_lib(&elf), Err(ParseError::Malformed));
    let mut pe = b"MZ".to_vec();
    pe.extend(vec![0u8; 100]);
    assert_eq!(get_symbols_from_lib(&pe), Err(ParseError::Malformed));
    let truncated = &elf_with_strings(&["malloc"])[..100];
    assert_eq!(get_symbols_from_lib(truncated), Err(ParseError::Malformed));
}

#[test]
fn keep_named_drops_the_exports_without_a_name() {
    let exports = vec![
        Some("a".to_string()),
        None,
        Some("b".to_string()),
        None,
        None,
        Some("c".to_string()),
    ];
    assert_eq!(keep_named(&exports), vec!["a".to_string(), "b".to_string(), "c".to_string()]);
    assert_eq!(keep_named(&vec![None, None]), Vec::<String>::new());
    assert_eq!(keep_named(&Vec::new()), Vec::<String>::new());
}

#[test]
fn macho_names_come_in_the_order_of_the_walk() {
    let trie = [
        0x00, 0x01, b'_', 0x00, 0x05, 0x00, 0x02, b'a', 0x00, 0x0d, b'b', 0x00, 0x11, 0x02, 0x00,
        0x10, 0x00, 0x02, 0x00, 0x20, 0x00,
    ];
    assert_eq!(
        get_symbols_from_lib(&macho_with_trie(&trie, 80, trie.len() as u32)),
        Ok(vec!["_a".to_string(), "_b".to_string()])
    );
}

#[test]
fn macho_with_an_empty_trie_exports_nothing() {
    assert_eq!(get_symbols_from_lib(&macho_with_trie(&[], 0, 0)), Ok(Vec::new()));
    assert_eq!(get_symbols_from_lib(&macho_with_trie(&[], 80, 0)), Ok(Vec::new()));
}

#[test]
fn macho_trie_that_reaches_past_the_file_is_an_error() {
    let trie = [0x02, 0x00, 0x10, 0x00];
    assert_eq!(
        get_symbols_from_lib(&macho_with_trie(&trie, 80, 5)),
        Err(ParseError::SymbolTable)
    );
    assert_eq!(
        get_symbols_from_lib(&macho_with_trie(&trie, 0xffff_fff0, 0x20)),
        Err(ParseError::SymbolTable)
    );
    assert_eq!(
        get_symbols_from_lib(&macho_with_trie(&trie, 0xffff_ffff, 0xffff_ffff)),
        Err(ParseError::SymbolTable)
    );
}

#[test]
fn macho_reexport_from_a_library_that_is_not_named_is_an_error() {
    let trie = [0x00, 0x01, b'f', 0x00, 0x05, 0x03, 0x08, 0x7f, 0x00, 0x00];
    assert_eq!(
        get_symbols_from_lib(&macho_with_trie(&trie, 80, trie.len() as u32)),
        Err(ParseError::SymbolTable)
    );
    let own = [0x00, 0x01, b'f', 0x00, 0x05, 0x03, 0x08, 0x00, 0x00, 0x00];
    assert_eq!(
        get_symbols_from_lib(&macho_with_trie(&own, 80, own.len() as u32)),
        Ok(vec!["f".to_string()])
    );
}

#[test]
fn macho_trie_that_loops_is_an_error() {
    let trie = [0x00, 0x01, b'a', 0x00, 0x00];
    assert_eq!(
        get_symbols_from_lib(&macho_with_trie(&trie, 80, trie.len() as u32)),
        Err(ParseError::SymbolTable)
    );
}

#[test]
fn the_last_command_that_names_a_trie_counts() {
    let commands = vec![
        MachCommand::Other,
        MachCommand::Trie { offset: 1, size: 2 },
        MachCommand::Other,
        MachCommand::Trie { offset: 3, size: 4 },
        MachCommand::Other,
    ];
    assert_eq!(find_trie(&commands), Some((3, 4)));
    assert_eq!(find_trie(&vec![MachCommand::Other, MachCommand::Other]), None);
    assert_eq!(find_trie(&Vec::new()), None);
}

fn be32(v: u32) -> Vec<u8> {
    v.to_be_bytes().to_vec()
}

/// A 64-bit Mach-O library for one architecture with the given load
/// commands, each already laid out, and what follows them.
fn macho_with_commands(commands: &[Vec<u8>], rest: &[u8]) -> Vec<u8> {
    let size: usize = commands.iter().map(|c| c.len()).sum();
    let mut b: Vec<u8> = vec![0xcf, 0xfa, 0xed, 0xfe];
    b.extend(le32(0x0100_0007));
    b.extend(le32(3));
    b.extend(le32(6));
    b.extend(le32(commands.len() as u32));
    b.extend(le32(size as u32));
    b.extend(le32(0));
    b.extend(le32(0));
    for c in commands {
        b.extend(c);
    }
    b.extend(rest);
    b
}

fn trie_command(offset: u32, size: u32) -> Vec<u8> {
    let mut c = le32(0x8000_0022);
    c.extend(le32(48));
    for _ in 0..8 {
        c.extend(le32(0));
    }
    c.extend(le32(offset));
    c.extend(le32(size));
    c
}

fn library_command(name: &str) -> Vec<u8> {
    let mut c = le32(0xc);
    c.extend(le32(32));
    c.extend(le32(24));
    c.extend(le32(0));
    c.extend(le32(0));
    c.extend(le32(0));
    let mut text = name.as_bytes().to_vec();
    text.resize(8, 0);
    c.extend(text);
    c
}

fn text_segment(vmaddr: u64, fileoff: u64, filesize: u64) -> Vec<u8> {
    let mut c = le32(0x19);
    c.extend(le32(72));
    c.extend(b"__TEXT\0\0\0\0\0\0\0\0\0\0");
    c.extend(le64(vmaddr));
    c.extend(le64(0));
    c.extend(le64(fileoff));
    c.extend(le64(filesize));
    c.extend(le32(7));
    c.extend(le32(5));
    c.extend(le32(0));
    c.extend(le32(0));
    c
}

fn main_command(entryoff: u64) -> Vec<u8> {
    let mut c = le32(0x8000_0028);
    c.extend(le32(24));
    c.extend(le64(entryoff));
    c.extend(le64(0));
    c
}

#[test]
fn read_u32_follows_the_byte_order() {
    let bytes = [0xaa, 0x01, 0x02, 0x03, 0x04, 0xbb];
    assert_eq!(read_u32(&bytes, 1, true), 0x0403_0201);
    assert_eq!(read_u32(&bytes, 1, false), 0x0102_0304);
    assert_eq!(read_u32(&[0xff, 0xff, 0xff, 0xff], 0, true), u32::MAX);
    assert_eq!(read_u32(&[0, 0, 0, 0x80], 0, true), 0x8000_0000);
}

#[test]
fn load_commands_are_read_one_by_one_in_file_order() {
    let bytes = macho_with_commands(
        &[
            text_segment(0x1000, 0, 0x1000),
            library_command("libx"),
            trie_command(7, 9),
            main_command(0x10),
            library_command("liby"),
        ],
        &[],
    );
    let commands = read_macho_commands(&bytes, true, true).unwrap();
    assert_eq!(
        commands,
        vec![
            MachCommand::Other,
            MachCommand::Library,
            MachCommand::Trie { offset: 7, size: 9 },
            MachCommand::Other,
            MachCommand::Library,
        ]
    );
    assert_eq!(count_libraries(&commands), 2);
    assert_eq!(count_libraries(&Vec::new()), 0);
}

#[test]
fn a_header_that_promises_too_much_is_refused() {
    assert_eq!(read_macho_commands(&[0u8; 31], true, true), None);
    let mut more = macho_with_commands(&[main_command(0)], &[]);
    more[16] = 4;
    assert_eq!(read_macho_commands(&more, true, true), None);
    let mut cut = macho_with_commands(&[main_command(0), main_command(0)], &[]);
    cut.truncate(32 + 24 + 10);
    assert_eq!(read_macho_commands(&cut, true, true), None);
    let mut crowded = macho_with_commands(&[main_command(0)], &[]);
    crowded[16] = 3;
    crowded[20] = 23;
    assert_eq!(read_macho_commands(&crowded, true, true), None);
    assert_eq!(get_symbols_from_lib(&more), Err(ParseError::Malformed));
    assert_eq!(get_symbols_from_lib(&cut), Err(ParseError::Malformed));
}

#[test]
fn an_entry_point_before_its_segment_does_no_harm() {
    let bytes = macho_with_commands(&[text_segment(0, 1, 0), main_command(u64::MAX)], &[]);
    assert_eq!(get_symbols_from_lib(&bytes), Ok(Vec::new()));
    let odd = macho_with_commands(&[main_command(5)], &[]);
    assert_eq!(get_symbols_from_lib(&odd), Ok(Vec::new()));
}

#[test]
fn an_export_may_refer_to_a_library_that_the_binary_names() {
    let from_first = [0x00, 0x01, b'f', 0x00, 0x05, 0x03, 0x08, 0x01, 0x00, 0x00];
    let from_second = [0x00, 0x01, b'f', 0x00, 0x05, 0x03, 0x08, 0x02, 0x00, 0x00];
    let at = 32 + 32 + 48;
    let with = |trie: &[u8]| {
        macho_with_commands(
            &[library_command("libx"), trie_command(at, trie.len() as u32)],
            trie,
        )
    };
    assert_eq!(get_symbols_from_lib(&with(&from_first)), Ok(vec!["f".to_string()]));
    assert_eq!(get_symbols_from_lib(&with(&from_second)), Err(ParseError::SymbolTable));
}

#[test]
fn a_big_endian_macho_is_read_in_its_byte_order() {
    let trie = [0x00, 0x01, b'g', 0x00, 0x05, 0x02, 0x00, 0x10, 0x00];
    let mut b: Vec<u8> = vec![0xfe, 0xed, 0xfa, 0xcf];
    b.extend(be32(0x0100_0012));
    b.extend(be32(0));
    b.extend(be32(6));
    b.extend(be32(1));
    b.extend(be32(48));
    b.extend(be32(0));
    b.extend(be32(0));
    b.extend(be32(0x8000_0022));
    b.extend(be32(48));
    for _ in 0..8 {
        b.extend(be32(0));
    }
    b.extend(be32(80));
    b.extend(be32(trie.len() as u32));
    b.extend(trie);
    assert_eq!(get_symbols_from_lib(&b), Ok(vec!["g".to_string()]));
}

#[test]
fn a_32_bit_macho_has_a_shorter_header() {
    let trie = [0x00, 0x01, b'h', 0x00, 0x05, 0x02, 0x00, 0x10, 0x00];
    let mut b: Vec<u8> = vec![0xce, 0xfa, 0xed, 0xfe];
    b.extend(le32(7));
    b.extend(le32(3));
    b.extend(le32(6));
    b.extend(le32(1));
    b.extend(le32(48));
    b.extend(le32(0));
    b.extend(trie_command(76, trie.len() as u32));
    b.extend(trie);
    assert_eq!(get_symbols_from_lib(&b), Ok(vec!["h".to_string()]));
}

#[test]
fn a_malformed_archive_is_still_an_archive() {
    let mut bytes = b"!<arch>\n".to_vec();
    bytes.extend(vec![b' '; 60]);
    assert_eq!(
        get_symbols_from_lib(&bytes),
        Err(ParseError::Unsupported(ObjectFormat::Archive))
    );
}
