use proc_macro_expander::inspector::{ObjectFormat, ParseError};
use proc_macro_expander::loader::{
    finish_open, registrar_of, LinkError, LoadError, LoadErrorKind, MacroKind, PluginDescriptor,
    ProcMacroLibrary,
};

fn le16(v: u16) -> Vec<u8> {
    v.to_le_bytes().to_vec()
}

fn le32(v: u32) -> Vec<u8> {
    v.to_le_bytes().to_vec()
}

fn le64(v: u64) -> Vec<u8> {
    v.to_le_bytes().to_vec()
}

/// A 64-bit ELF shared object whose dynamic string table holds the names.
fn elf_with_strings(names: &[&str]) -> Vec<u8> {
    let mut strtab: Vec<u8> = vec![0];
    for n in names {
        strtab.extend_from_slice(n.as_bytes());
        strtab.push(0);
    }
    let dyn_off: u64 = 64 + 2 * 56;
    let str_off: u64 = dyn_off + 3 * 16;
    let total: u64 = str_off + strtab.len() as u64;
    let mut b: Vec<u8> = vec![0x7f, b'E', b'L', b'F', 2, 1, 1, 0, 0, 0, 0, 0, 0, 0, 0, 0];
    b.extend(le16(3));
    b.extend(le16(62));
    b.extend(le32(1));
    b.extend(le64(0));
    b.extend(le64(64));
    b.extend(le64(0));
    b.extend(le32(0));
    b.extend(le16(64));
    b.extend(le16(56));
    b.extend(le16(2));
    b.extend(le16(64));
    b.extend(le16(0));
    b.extend(le16(0));
    b.extend(le32(1));
    b.extend(le32(5));
    b.extend(le64(0));
    b.extend(le64(0));
    b.extend(le64(0));
    b.extend(le64(total));
    b.extend(le64(total));
    b.extend(le64(0x1000));
    b.extend(le32(2));
    b.extend(le32(6));
    b.extend(le64(dyn_off));
    b.extend(le64(dyn_off));
    b.extend(le64(dyn_off));
    b.extend(le64(48));
    b.extend(le64(48));
    b.extend(le64(8));
    b.extend(le64(5));
    b.extend(le64(str_off));
    b.extend(le64(10));
    b.extend(le64(strtab.len() as u64));
    b.extend(le64(0));
    b.extend(le64(0));
    b.extend(strtab);
    b
}

fn plugin_bytes() -> Vec<u8> {
    elf_with_strings(&["malloc", "__rustc_proc_macro_decls_0123__", "free"])
}

fn table() -> Vec<PluginDescriptor> {
    vec![
        PluginDescriptor::FunctionCapability { name: "id_macro".to_string(), entry: 0 },
        PluginDescriptor::DeriveCapability { name: "Setters".to_string(), entry: 1 },
        PluginDescriptor::AttributeCapability { name: "route".to_string(), entry: 2 },
    ]
}

#[test]
fn descriptor_knows_its_kind_name_and_entry() {
    let t = table();
    assert_eq!(t[0].kind(), MacroKind::Bang);
    assert_eq!(t[1].kind(), MacroKind::CustomDerive);
    assert_eq!(t[2].kind(), MacroKind::Attr);
    assert_eq!(t[0].name(), "id_macro");
    assert_eq!(t[1].name(), "Setters");
    assert_eq!(t[2].name(), "route");
    assert_eq!(t[0].entry(), 0);
    assert_eq!(t[1].entry(), 1);
    assert_eq!(t[2].entry(), 2);
}

#[test]
fn registrar_of_finds_the_capability_table() {
    assert_eq!(
        registrar_of(&plugin_bytes()),
        Ok("__rustc_proc_macro_decls_0123__".to_string())
    );
}

#[test]
fn registrar_of_takes_the_first_of_several() {
    let bytes = elf_with_strings(&["x__rustc_proc_macro_decls_1", "y__rustc_proc_macro_decls_2"]);
    assert_eq!(registrar_of(&bytes), Ok("x__rustc_proc_macro_decls_1".to_string()));
}

#[test]
fn a_library_without_a_capability_table_has_no_registrar() {
    let bytes = elf_with_strings(&["malloc", "free"]);
    assert_eq!(registrar_of(&bytes), Err(LoadErrorKind::RegistrarMissing));
}

#[test]
fn a_file_that_is_no_library_has_an_unrecognized_format() {
    assert_eq!(
        registrar_of(b"this is a text file, not a library"),
        Err(LoadErrorKind::UnrecognizedFormat(ParseError::Unsupported(ObjectFormat::Unknown)))
    );
    assert_eq!(
        registrar_of(b""),
        Err(LoadErrorKind::UnrecognizedFormat(ParseError::Malformed))
    );
}

#[test]
fn finish_open_keeps_the_table_and_the_path() {
    let path = "/plugins/libdemo.so".to_string();
    assert_eq!(
        finish_open(&path, Ok(table())),
        Ok(ProcMacroLibrary { path: path.clone(), exported_macros: table() })
    );
}

#[test]
fn finish_open_names_the_plugin_in_each_error() {
    let path = "/plugins/libdemo.so".to_string();
    assert_eq!(
        finish_open(&path, Err(LinkError::LoadFailed("wrong ELF class".to_string()))),
        Err(LoadError {
            path: path.clone(),
            kind: LoadErrorKind::LoadFailed,
            detail: "wrong ELF class".to_string(),
        })
    );
    assert_eq!(
        finish_open(&path, Err(LinkError::SymbolUnresolved("undefined symbol".to_string()))),
        Err(LoadError {
            path: path.clone(),
            kind: LoadErrorKind::SymbolUnresolved,
            detail: "undefined symbol".to_string(),
        })
    );
}

#[test]
fn open_reads_locates_and_loads() {
    let path = "/plugins/libdemo.so".to_string();
    let read = |p: &String| {
        assert_eq!(p, "/plugins/libdemo.so");
        Some(plugin_bytes())
    };
    let load = |p: &String, symbol: &String| {
        assert_eq!(p, "/plugins/libdemo.so");
        assert_eq!(symbol, "__rustc_proc_macro_decls_0123__");
        Ok(table())
    };
    assert_eq!(
        ProcMacroLibrary::open(&path, &read, &load),
        Ok(ProcMacroLibrary { path: path.clone(), exported_macros: table() })
    );
}

#[test]
fn open_of_an_unreadable_file_names_the_file() {
    let path = "/nowhere/libmissing.so".to_string();
    let read = |_: &String| None;
    let load = |_: &String, _: &String| -> Result<Vec<PluginDescriptor>, LinkError> {
        panic!("a file that cannot be read must not be loaded")
    };
    assert_eq!(
        ProcMacroLibrary::open(&path, &read, &load),
        Err(LoadError {
            path: path.clone(),
            kind: LoadErrorKind::Unreadable,
            detail: String::new(),
        })
    );
}

#[test]
fn open_of_a_file_that_is_no_library_names_the_file() {
    let path = "/etc/hostname".to_string();
    let read = |_: &String| Some(b"just a host name in a text file\n".to_vec());
    let load = |_: &String, _: &String| -> Result<Vec<PluginDescriptor>, LinkError> {
        panic!("a file that is no library must not be loaded")
    };
    assert_eq!(
        ProcMacroLibrary::open(&path, &read, &load),
        Err(LoadError {
            path: path.clone(),
            kind: LoadErrorKind::UnrecognizedFormat(ParseError::Unsupported(ObjectFormat::Unknown)),
            detail: String::new(),
        })
    );
}

#[test]
fn open_of_a_library_without_capabilities_names_the_file() {
    let path = "/usr/lib/libc.so".to_string();
    let read = |_: &String| Some(elf_with_strings(&["malloc", "free"]));
    let load = |_: &String, _: &String| -> Result<Vec<PluginDescriptor>, LinkError> {
        panic!("a library without a capability table must not be loaded")
    };
    assert_eq!(
        ProcMacroLibrary::open(&path, &read, &load),
        Err(LoadError {
            path: path.clone(),
            kind: LoadErrorKind::RegistrarMissing,
            detail: String::new(),
        })
    );
}

#[test]
fn open_passes_on_what_the_system_said() {
    let path = "/plugins/libdemo.so".to_string();
    let read = |_: &String| Some(plugin_bytes());
    let refuse = |_: &String, _: &String| -> Result<Vec<PluginDescriptor>, LinkError> {
        Err(LinkError::LoadFailed("cannot open shared object file".to_string()))
    };
    assert_eq!(
        ProcMacroLibrary::open(&path, &read, &refuse),
        Err(LoadError {
            path: path.clone(),
            kind: LoadErrorKind::LoadFailed,
            detail: "cannot open shared object file".to_string(),
        })
    );
    let lose = |_: &String, symbol: &String| -> Result<Vec<PluginDescriptor>, LinkError> {
        Err(LinkError::SymbolUnresolved(format!("undefined symbol: {}", symbol)))
    };
    assert_eq!(
        ProcMacroLibrary::open(&path, &read, &lose),
        Err(LoadError {
            path: path.clone(),
            kind: LoadErrorKind::SymbolUnresolved,
            detail: "undefined symbol: __rustc_proc_macro_decls_0123__".to_string(),
        })
    );
}

#[test]
fn each_kind_of_failure_has_a_reason_of_its_own() {
    let error = |kind: LoadErrorKind, detail: &str| LoadError {
        path: "/p/lib \"x\".so".to_string(),
        kind,
        detail: detail.to_string(),
    };
    assert_eq!(
        error(LoadErrorKind::Unreadable, "").reason(),
        "Cannot read file \"/p/lib \\\"x\\\".so\""
    );
    assert_eq!(
        error(LoadErrorKind::UnrecognizedFormat(ParseError::Malformed), "").reason(),
        "Cannot enumerate symbols of file \"/p/lib \\\"x\\\".so\""
    );
    assert_eq!(
        error(LoadErrorKind::RegistrarMissing, "").reason(),
        format!("Cannot find registrar symbol in file {:?}", "/p/lib \"x\".so")
    );
    assert_eq!(error(LoadErrorKind::LoadFailed, "no such file").reason(), "no such file");
    assert_eq!(error(LoadErrorKind::SymbolUnresolved, "undefined").reason(), "undefined");
}
