//! The plugin loader: from the path of a compiled plugin to its capability
//! table.
//!
//! Reading the file and loading the library are the work of the caller,
//! handed in as two functions. What happens between them and with their
//! results is decided here.

use crate::inspector::{exported_symbols, get_symbols_from_lib, ParseError};
use crate::registrar::{locate, located, NEW_REGISTRAR_SYMBOL};
use crate::text::{debug_text, str_debug};
use vstd::prelude::*;
use vstd::string::*;

verus! {

/// The kinds of capability.
#[derive(Clone, Copy, Debug, PartialEq, Eq, Structural)]
pub enum MacroKind {
    /// Derives code from the item it is put on.
    CustomDerive,
    /// Is called like a function, with a body of tokens.
    Bang,
    /// Is put on an item as an attribute, with arguments of its own.
    Attr,
}

/// One capability of a plugin: its kind, the name it goes by, and the entry
/// to call. The entry is a number that only the loader of the library can
/// turn into code.
#[derive(Debug, PartialEq, Eq)]
pub enum PluginDescriptor {
    DeriveCapability { name: String, entry: u64 },
    FunctionCapability { name: String, entry: u64 },
    AttributeCapability { name: String, entry: u64 },
}

/// The mathematical value of a descriptor.
pub struct DescriptorView {
    pub kind: MacroKind,
    pub name: Seq<char>,
    pub entry: u64,
}

impl View for PluginDescriptor {
    type V = DescriptorView;

    open spec fn view(&self) -> DescriptorView {
        match self {
            PluginDescriptor::DeriveCapability { name, entry } => DescriptorView {
                kind: MacroKind::CustomDerive,
                name: name@,
                entry: *entry,
            },
            PluginDescriptor::FunctionCapability { name, entry } => DescriptorView {
                kind: MacroKind::Bang,
                name: name@,
                entry: *entry,
            },
            PluginDescriptor::AttributeCapability { name, entry } => DescriptorView {
                kind: MacroKind::Attr,
                name: name@,
                entry: *entry,
            },
        }
    }
}

impl PluginDescriptor {
    /// The kind of the capability.
    pub fn kind(&self) -> (r: MacroKind)
        ensures
            r == self@.kind,
    {
        match self {
            PluginDescriptor::DeriveCapability { .. } => MacroKind::CustomDerive,
            PluginDescriptor::FunctionCapability { .. } => MacroKind::Bang,
            PluginDescriptor::AttributeCapability { .. } => MacroKind::Attr,
        }
    }

    /// The name that the capability goes by.
    pub fn name(&self) -> (r: &String)
        ensures
            r@ == self@.name,
    {
        match self {
            PluginDescriptor::DeriveCapability { name, .. } => name,
            PluginDescriptor::FunctionCapability { name, .. } => name,
            PluginDescriptor::AttributeCapability { name, .. } => name,
        }
    }

    /// The entry to call.
    pub fn entry(&self) -> (r: u64)
        ensures
            r == self@.entry,
    {
        match self {
            PluginDescriptor::DeriveCapability { entry, .. } => *entry,
            PluginDescriptor::FunctionCapability { entry, .. } => *entry,
            PluginDescriptor::AttributeCapability { entry, .. } => *entry,
        }
    }
}

/// What went wrong with a plugin.
#[derive(Clone, Copy, Debug, PartialEq, Eq, Structural)]
pub enum LoadErrorKind {
    /// The file cannot be read.
    Unreadable,
    /// The file is no object file whose symbols can be enumerated.
    UnrecognizedFormat(ParseError),
    /// The file exports no capability table.
    RegistrarMissing,
    /// The system refuses to load the file as a library.
    LoadFailed,
    /// The library is loaded, and the capability table is not found in it.
    SymbolUnresolved,
}

/// A plugin that could not be loaded: which one, why, and what the system
/// said, where it said something.
#[derive(Debug, PartialEq, Eq)]
pub struct LoadError {
    pub path: String,
    pub kind: LoadErrorKind,
    pub detail: String,
}

/// The mathematical value of a load error.
pub struct LoadErrorView {
    pub path: Seq<char>,
    pub kind: LoadErrorKind,
    pub detail: Seq<char>,
}

impl View for LoadError {
    type V = LoadErrorView;

    open spec fn view(&self) -> LoadErrorView {
        LoadErrorView { path: self.path@, kind: self.kind, detail: self.detail@ }
    }
}

/// What is said of a plugin that could not be loaded. The first three kinds
/// name the file, shown as the standard library shows a string for
/// debugging; the last two pass on what the system said.
pub open spec fn load_error_text(e: LoadErrorView) -> Seq<char> {
    match e.kind {
        LoadErrorKind::Unreadable => "Cannot read file "@ + str_debug(e.path),
        LoadErrorKind::UnrecognizedFormat(_) => "Cannot enumerate symbols of file "@ + str_debug(
            e.path,
        ),
        LoadErrorKind::RegistrarMissing => "Cannot find registrar symbol in file "@ + str_debug(
            e.path,
        ),
        LoadErrorKind::LoadFailed => e.detail,
        LoadErrorKind::SymbolUnresolved => e.detail,
    }
}

impl LoadError {
    /// The reason as text.
    pub fn reason(&self) -> (r: String)
        ensures
            r@ == load_error_text(self@),
    {
        match self.kind {
            LoadErrorKind::Unreadable => {
                let mut out = String::from_str("Cannot read file ");
                out.append(debug_text(self.path.as_str()).as_str());
                out
            },
            LoadErrorKind::UnrecognizedFormat(_) => {
                let mut out = String::from_str("Cannot enumerate symbols of file ");
                out.append(debug_text(self.path.as_str()).as_str());
                out
            },
            LoadErrorKind::RegistrarMissing => {
                let mut out = String::from_str("Cannot find registrar symbol in file ");
                out.append(debug_text(self.path.as_str()).as_str());
                out
            },
            LoadErrorKind::LoadFailed => self.detail.clone(),
            LoadErrorKind::SymbolUnresolved => self.detail.clone(),
        }
    }
}

/// Why the system did not hand over the capability table of a library.
#[derive(Debug, PartialEq, Eq)]
pub enum LinkError {
    /// The library could not be loaded.
    LoadFailed(String),
    /// The library is loaded, and the symbol could not be resolved.
    SymbolUnresolved(String),
}

/// A loaded plugin: where it came from and what it can do.
#[derive(Debug, PartialEq, Eq)]
pub struct ProcMacroLibrary {
    pub path: String,
    pub exported_macros: Vec<PluginDescriptor>,
}

impl View for ProcMacroLibrary {
    type V = Seq<DescriptorView>;

    /// The capability table, in the order of the plugin.
    open spec fn view(&self) -> Seq<DescriptorView> {
        Seq::new(self.exported_macros@.len(), |i: int| self.exported_macros@[i]@)
    }
}

/// The name of the capability table in the bytes of a plugin, or the reason
/// why there is none.
pub open spec fn registrar_in(bytes: Seq<u8>) -> Result<Seq<char>, LoadErrorKind> {
    match exported_symbols(bytes) {
        Err(e) => Err(LoadErrorKind::UnrecognizedFormat(e)),
        Ok(symbols) => match located(symbols, NEW_REGISTRAR_SYMBOL@) {
            None => Err(LoadErrorKind::RegistrarMissing),
            Some(name) => Ok(name),
        },
    }
}

/// What the answer of the system makes of a plugin: the library, or the
/// error that names the plugin.
pub open spec fn linked(
    file: String,
    link: Result<Vec<PluginDescriptor>, LinkError>,
) -> Result<ProcMacroLibrary, LoadError> {
    match link {
        Ok(table) => Ok(ProcMacroLibrary { path: file, exported_macros: table }),
        Err(LinkError::LoadFailed(reason)) => Err(
            LoadError { path: file, kind: LoadErrorKind::LoadFailed, detail: reason },
        ),
        Err(LinkError::SymbolUnresolved(reason)) => Err(
            LoadError { path: file, kind: LoadErrorKind::SymbolUnresolved, detail: reason },
        ),
    }
}

/// Finds the name of the capability table in the bytes of a plugin.
pub fn registrar_of(bytes: &[u8]) -> (r: Result<String, LoadErrorKind>)
    ensures
        match r {
            Ok(name) => registrar_in(bytes@) == Ok::<Seq<char>, LoadErrorKind>(name@),
            Err(kind) => registrar_in(bytes@) == Err::<Seq<char>, LoadErrorKind>(kind),
        },
{
    match get_symbols_from_lib(bytes) {
        Err(e) => Err(LoadErrorKind::UnrecognizedFormat(e)),
        Ok(symbols) => match locate(&symbols, NEW_REGISTRAR_SYMBOL) {
            None => Err(LoadErrorKind::RegistrarMissing),
            Some(name) => Ok(name),
        },
    }
}

/// Turns the answer of the system into the library or the error.
pub fn finish_open(file: &String, link: Result<Vec<PluginDescriptor>, LinkError>) -> (r: Result<
    ProcMacroLibrary,
    LoadError,
>)
    ensures
        r == linked(*file, link),
{
    match link {
        Ok(table) => Ok(ProcMacroLibrary { path: file.clone(), exported_macros: table }),
        Err(LinkError::LoadFailed(reason)) => Err(
            LoadError { path: file.clone(), kind: LoadErrorKind::LoadFailed, detail: reason },
        ),
        Err(LinkError::SymbolUnresolved(reason)) => Err(
            LoadError { path: file.clone(), kind: LoadErrorKind::SymbolUnresolved, detail: reason },
        ),
    }
}

/// What opening a plugin comes to, given the two functions that do the
/// outside work. A file that cannot be read, or that holds no capability
/// table, is never loaded; every error names the file.
pub open spec fn opened<R: Fn(&String) -> Option<Vec<u8>>, L: Fn(&String, &String) -> Result<
    Vec<PluginDescriptor>,
    LinkError,
>>(file: String, read: R, load: L, r: Result<ProcMacroLibrary, LoadError>) -> bool {
    exists|bytes: Option<Vec<u8>>| #[trigger]
        call_ensures(read, (&file,), bytes) && match bytes {
            None => r is Err && r->Err_0@ == (LoadErrorView {
                path: file@,
                kind: LoadErrorKind::Unreadable,
                detail: Seq::empty(),
            }),
            Some(content) => match registrar_in(content@) {
                Err(kind) => r is Err && r->Err_0@ == (LoadErrorView {
                    path: file@,
                    kind,
                    detail: Seq::empty(),
                }),
                Ok(name) => exists|symbol: String, link: Result<Vec<PluginDescriptor>, LinkError>|
                    symbol@ == name && #[trigger] call_ensures(load, (&file, &symbol), link) && r
                        == linked(file, link),
            },
        }
}

impl ProcMacroLibrary {
    /// Opens a plugin: reads the file, finds the name of its capability
    /// table, and has the library loaded and the table resolved.
    pub fn open<R: Fn(&String) -> Option<Vec<u8>>, L: Fn(&String, &String) -> Result<
        Vec<PluginDescriptor>,
        LinkError,
    >>(file: &String, read: &R, load: &L) -> (r: Result<ProcMacroLibrary, LoadError>)
        requires
            forall|path: &String| call_requires(read, (path,)),
            forall|path: &String, symbol: &String| call_requires(load, (path, symbol)),
        ensures
            opened(*file, *read, *load, r),
            r is Err ==> r->Err_0@.path == file@,
    {
        let bytes = read(file);
        match bytes {
            None => Err(
                LoadError {
                    path: file.clone(),
                    kind: LoadErrorKind::Unreadable,
                    detail: String::new(),
                },
            ),
            Some(content) => {
                match registrar_of(content.as_slice()) {
                    Err(kind) => Err(
                        LoadError { path: file.clone(), kind, detail: String::new() },
                    ),
                    Ok(symbol) => {
                        let link = load(file, &symbol);
                        finish_open(file, link)
                    },
                }
            },
        }
    }
}

/// A file that cannot be read, and a file whose bytes hold no capability
/// table, is refused with an error that names the file and says which of the
/// two it was; the library is then never loaded.
pub proof fn lemma_unloadable<R: Fn(&String) -> Option<Vec<u8>>, L: Fn(&String, &String) -> Result<
    Vec<PluginDescriptor>,
    LinkError,
>>(file: String, read: R, load: L, r: Result<ProcMacroLibrary, LoadError>)
    requires
        opened(file, read, load, r),
        forall|bytes: Option<Vec<u8>>| #[trigger]
            call_ensures(read, (&file,), bytes) ==> match bytes {
                None => true,
                Some(content) => registrar_in(content@) is Err,
            },
    ensures
        r is Err,
        r->Err_0@.path == file@,
        r->Err_0@.kind == LoadErrorKind::Unreadable || r->Err_0@.kind
            == LoadErrorKind::RegistrarMissing || r->Err_0@.kind is UnrecognizedFormat,
{
}

} // verus!
