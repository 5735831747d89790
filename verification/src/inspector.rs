//! The binary inspector: from the bytes of a compiled library to the names
//! of the symbols it exports.
//!
//! The object-file formats are read by `goblin`: it tells the format by the
//! first bytes, reads the tables of an ELF and of a PE file, and reads the
//! load commands of a Mach-O binary one by one. The header of a Mach-O
//! binary and its export trie are read here; the walk of the trie is that of
//! the module `trie`.

use crate::trie::{trie_names, walk_export_trie};
use goblin::container::Endian;
use goblin::mach::load_command::{CommandVariant, LoadCommand};
use goblin::Hint;
use vstd::prelude::*;
use vstd::slice::*;

verus! {

/// The layouts that the inspector tells apart.
#[derive(Clone, Copy, Debug, PartialEq, Eq, Structural)]
pub enum ObjectFormat {
    Elf,
    Pe,
    /// A Mach-O binary for one architecture.
    MachBinary,
    /// A Mach-O container of binaries for several architectures.
    MachFat,
    Archive,
    /// A magic number that stands for no known format.
    Unknown,
    /// A known format that holds no table of exports to read.
    Other,
}

/// Why the symbols of a binary cannot be enumerated.
#[derive(Clone, Copy, Debug, PartialEq, Eq, Structural)]
pub enum ParseError {
    /// The bytes are too few to tell their format, or begin like a known
    /// format and then break its rules.
    Malformed,
    /// The format is known, and its exports are not read.
    Unsupported(ObjectFormat),
    /// The format is supported, and the table of names in it is broken.
    SymbolTable,
}

/// What the first bytes of a file say of its format.
#[derive(Clone, Copy, Debug, PartialEq, Eq)]
pub enum Magic {
    Elf,
    Pe,
    /// A Mach-O binary for one architecture: its byte order, and whether it
    /// is a 64-bit binary.
    Mach { little_endian: bool, wide: Option<bool> },
    MachFat,
    Archive,
    Unknown,
    Other,
    /// Fewer bytes than a magic number takes, or a magic number that
    /// contradicts itself.
    Malformed,
}

/// A load command of a Mach-O binary, as far as the inspector reads it.
#[derive(Clone, Copy, Debug, PartialEq, Eq, Structural)]
pub enum MachCommand {
    /// A command that says where the export trie lies in the file.
    Trie { offset: u32, size: u32 },
    /// A command that names a library for the binary to load.
    Library,
    /// Any other command.
    Other,
}

/// What `goblin::peek_bytes` makes of the first 16 bytes.
pub uninterp spec fn magic_of(bytes: Seq<u8>) -> Magic;

/// What `goblin::elf::Elf::parse` and `goblin::strtab::Strtab::to_vec` read
/// from the bytes: nothing where the file does not parse; else the entries
/// of the dynamic string table in table order, or nothing where the table
/// is broken.
pub uninterp spec fn elf_dynamic_strings(bytes: Seq<u8>) -> Option<Option<Seq<Seq<char>>>>;

/// The exports that `goblin::pe::PE::parse` reads from the bytes, in the
/// order of the export directory, each with its name where it has one;
/// nothing where the parse fails.
pub uninterp spec fn pe_exports(bytes: Seq<u8>) -> Option<Seq<Option<Seq<char>>>>;

/// The load command that `goblin::mach::load_command::LoadCommand::parse`
/// reads at an offset, in the given byte order, and the offset after it;
/// nothing where the command does not parse.
pub uninterp spec fn load_command_at(bytes: Seq<u8>, offset: usize, little_endian: bool) -> Option<
    (MachCommand, usize),
>;

/// `goblin::peek_bytes` on the first 16 bytes: the format that the magic
/// number stands for.
#[verifier::external_body]
fn peek_magic(bytes: &[u8]) -> (r: Magic)
    ensures
        r == magic_of(bytes@),
{
    let head: Option<&[u8; 16]> = bytes.get(..16).and_then(|s| s.try_into().ok());
    match head.map(goblin::peek_bytes) {
        Some(Ok(Hint::Elf(_))) => Magic::Elf,
        Some(Ok(Hint::PE)) => Magic::Pe,
        Some(Ok(Hint::Mach(d))) => Magic::Mach { little_endian: d.is_lsb, wide: d.is_64 },
        Some(Ok(Hint::MachFat(_))) => Magic::MachFat,
        Some(Ok(Hint::Archive)) => Magic::Archive,
        Some(Ok(Hint::Unknown(_))) => Magic::Unknown,
        Some(Ok(_)) => Magic::Other,
        _ => Magic::Malformed,
    }
}

/// `goblin::elf::Elf::parse`, then `to_vec` on the dynamic string table:
/// every entry of the table, as an owned string.
#[verifier::external_body]
fn read_elf_dynamic_strings(bytes: &[u8]) -> (r: Option<Option<Vec<String>>>)
    ensures
        r.deep_view() == elf_dynamic_strings(bytes@),
{
    let elf = goblin::elf::Elf::parse(bytes).ok()?;
    Some(elf.dynstrtab.to_vec().ok().map(|v| v.iter().map(|s| s.to_string()).collect()))
}

/// `goblin::pe::PE::parse`: the name of every export, where it has one, as
/// an owned string.
#[verifier::external_body]
fn read_pe_exports(bytes: &[u8]) -> (r: Option<Vec<Option<String>>>)
    ensures
        r.deep_view() == pe_exports(bytes@),
{
    let pe = goblin::pe::PE::parse(bytes).ok()?;
    Some(pe.exports.iter().map(|e| e.name.map(|n| n.to_string())).collect())
}

/// `goblin::mach::load_command::LoadCommand::parse`: the command at the
/// offset by its variant, with the place of the trie where it names one, and
/// the offset after the command.
#[verifier::external_body]
fn read_load_command(bytes: &[u8], offset: usize, little_endian: bool) -> (r: Option<
    (MachCommand, usize),
>)
    ensures
        r == load_command_at(bytes@, offset, little_endian),
{
    let mut next = offset;
    let command = match LoadCommand::parse(bytes, &mut next, Endian::from(little_endian)).ok()?.command {
        CommandVariant::DyldInfo(d) | CommandVariant::DyldInfoOnly(d) => {
            MachCommand::Trie { offset: d.export_off, size: d.export_size }
        },
        CommandVariant::DyldExportsTrie(l) => MachCommand::Trie { offset: l.dataoff, size: l.datasize },
        CommandVariant::LoadDylib(_) | CommandVariant::LoadUpwardDylib(_)
        | CommandVariant::ReexportDylib(_) | CommandVariant::LoadWeakDylib(_)
        | CommandVariant::LazyLoadDylib(_) => MachCommand::Library,
        _ => MachCommand::Other,
    };
    Some((command, next))
}

/// The bytes that a Mach-O header takes here, whether the binary is a
/// 32-bit or a 64-bit one.
pub const MACH_HEADER_BYTES: usize = 32;

/// Where the number of load commands stands in the header.
pub const NCMDS_AT: usize = 16;

/// Where the size of the load commands stands in the header.
pub const SIZEOFCMDS_AT: usize = 20;

/// The 32-bit number in the four bytes from `at` on, in the given byte
/// order.
pub open spec fn u32_at(bytes: Seq<u8>, at: int, little_endian: bool) -> u32 {
    let a = bytes[at] as u32;
    let b = bytes[at + 1] as u32;
    let c = bytes[at + 2] as u32;
    let d = bytes[at + 3] as u32;
    if little_endian {
        a | (b << 8) | (c << 16) | (d << 24)
    } else {
        d | (c << 8) | (b << 16) | (a << 24)
    }
}

/// Where the load commands begin: after the header, which is four bytes
/// longer in a 64-bit binary.
pub open spec fn commands_start(wide: bool) -> usize {
    if wide {
        32
    } else {
        28
    }
}

/// The next `n` load commands from `offset` on, in file order; nothing
/// where one of them does not parse.
pub open spec fn commands_from(bytes: Seq<u8>, little_endian: bool, offset: usize, n: nat) -> Option<
    Seq<MachCommand>,
>
    decreases n,
{
    if n == 0 {
        Some(Seq::empty())
    } else {
        match load_command_at(bytes, offset, little_endian) {
            None => None,
            Some((command, next)) => match commands_from(
                bytes,
                little_endian,
                next,
                (n - 1) as nat,
            ) {
                None => None,
                Some(rest) => Some(seq![command] + rest),
            },
        }
    }
}

/// The load commands of a Mach-O binary for one architecture. The header
/// says how many there are and how many bytes they take. Nothing where the
/// file is shorter than a header, where the commands could not fit in
/// their bytes at eight bytes each, where their bytes are more than the
/// file has, or where one of them does not parse.
pub open spec fn macho_commands(bytes: Seq<u8>, little_endian: bool, wide: bool) -> Option<
    Seq<MachCommand>,
> {
    if bytes.len() < MACH_HEADER_BYTES {
        None
    } else {
        let ncmds = u32_at(bytes, NCMDS_AT as int, little_endian);
        let sizeofcmds = u32_at(bytes, SIZEOFCMDS_AT as int, little_endian);
        if ncmds > sizeofcmds / 8 || sizeofcmds > bytes.len() {
            None
        } else {
            commands_from(bytes, little_endian, commands_start(wide), ncmds as nat)
        }
    }
}

/// How many of the commands name a library to load.
pub open spec fn library_count(commands: Seq<MachCommand>) -> nat
    decreases commands.len(),
{
    if commands.len() == 0 {
        0
    } else {
        library_count(commands.drop_last()) + if commands.last() == MachCommand::Library {
            1nat
        } else {
            0nat
        }
    }
}

/// Where the export trie lies: the place that the last command to name one
/// gives.
pub open spec fn last_trie(commands: Seq<MachCommand>) -> Option<(u32, u32)>
    decreases commands.len(),
{
    if commands.len() == 0 {
        None
    } else {
        match commands.last() {
            MachCommand::Trie { offset, size } => Some((offset, size)),
            _ => last_trie(commands.drop_last()),
        }
    }
}

/// The names that a Mach-O binary for one architecture exports: those of
/// its export trie, and none where no command names a trie. The libraries
/// that an export may refer to are the binary itself and one for each
/// command that names a library. A header or a command that does not parse
/// makes the file malformed; a trie that reaches past the end of the file,
/// or that cannot be walked, is a broken table.
pub open spec fn macho_names(bytes: Seq<u8>, little_endian: bool, wide: bool) -> Result<
    Seq<Seq<char>>,
    ParseError,
> {
    match macho_commands(bytes, little_endian, wide) {
        None => Err(ParseError::Malformed),
        Some(commands) => match last_trie(commands) {
            None => Ok(Seq::empty()),
            Some((offset, size)) => if offset + size > bytes.len() {
                Err(ParseError::SymbolTable)
            } else {
                match trie_names(
                    bytes.subrange(offset as int, offset + size),
                    1 + library_count(commands) as int,
                ) {
                    Some(names) => Ok(names),
                    None => Err(ParseError::SymbolTable),
                }
            },
        },
    }
}

/// Reads the 32-bit number in the four bytes from `at` on.
pub fn read_u32(bytes: &[u8], at: usize, little_endian: bool) -> (r: u32)
    requires
        at + 4 <= bytes@.len(),
    ensures
        r == u32_at(bytes@, at as int, little_endian),
{
    let a = bytes[at] as u32;
    let b = bytes[at + 1] as u32;
    let c = bytes[at + 2] as u32;
    let d = bytes[at + 3] as u32;
    if little_endian {
        a | (b << 8) | (c << 16) | (d << 24)
    } else {
        d | (c << 8) | (b << 16) | (a << 24)
    }
}

/// Reads the load commands of a Mach-O binary for one architecture.
pub fn read_macho_commands(bytes: &[u8], little_endian: bool, wide: bool) -> (r: Option<
    Vec<MachCommand>,
>)
    ensures
        match r {
            Some(commands) => macho_commands(bytes@, little_endian, wide) == Some(commands@)
                && commands@.len() <= u32::MAX / 8,
            None => macho_commands(bytes@, little_endian, wide) is None,
        },
{
    let total = bytes.len();
    if total < MACH_HEADER_BYTES {
        return None;
    }
    let ncmds = read_u32(bytes, NCMDS_AT, little_endian);
    let sizeofcmds = read_u32(bytes, SIZEOFCMDS_AT, little_endian);
    if ncmds > sizeofcmds / 8 || sizeofcmds as u64 > total as u64 {
        return None;
    }
    let start: usize = if wide {
        32
    } else {
        28
    };
    let ghost whole = commands_from(bytes@, little_endian, start, ncmds as nat);
    let mut commands: Vec<MachCommand> = Vec::new();
    let mut offset: usize = start;
    let mut left: u32 = ncmds;
    assert(Seq::<MachCommand>::empty() + Seq::<MachCommand>::empty() =~= Seq::<MachCommand>::empty());
    while left > 0
        invariant
            commands@.len() + left == ncmds,
            ncmds <= u32::MAX / 8,
            whole == macho_commands(bytes@, little_endian, wide),
            whole == match commands_from(bytes@, little_endian, offset, left as nat) {
                None => None::<Seq<MachCommand>>,
                Some(rest) => Some(commands@ + rest),
            },
        decreases left,
    {
        match read_load_command(bytes, offset, little_endian) {
            None => {
                assert(commands_from(bytes@, little_endian, offset, left as nat) is None);
                return None;
            },
            Some((command, next)) => {
                proof {
                    let rest = commands_from(bytes@, little_endian, next, (left - 1) as nat);
                    if rest is Some {
                        assert(commands@ + (seq![command] + rest->Some_0) =~= commands@.push(command)
                            + rest->Some_0);
                    }
                }
                commands.push(command);
                offset = next;
                left = left - 1;
            },
        }
    }
    assert(commands@ + Seq::<MachCommand>::empty() =~= commands@);
    Some(commands)
}

/// Counts the commands that name a library to load.
pub fn count_libraries(commands: &Vec<MachCommand>) -> (r: usize)
    ensures
        r == library_count(commands@),
        r <= commands@.len(),
{
    let n = commands.len();
    let mut count: usize = 0;
    let mut i: usize = 0;
    assert(commands@.take(0) =~= Seq::<MachCommand>::empty());
    while i < n
        invariant
            n == commands@.len(),
            i <= n,
            count <= i,
            count == library_count(commands@.take(i as int)),
        decreases n - i,
    {
        assert(commands@.take(i + 1).drop_last() =~= commands@.take(i as int));
        assert(commands@.take(i + 1).last() == commands@[i as int]);
        match commands[i] {
            MachCommand::Library => {
                count = count + 1;
            },
            _ => {},
        }
        i = i + 1;
    }
    assert(commands@.take(n as int) =~= commands@);
    count
}

/// Finds the place of the export trie among the load commands.
pub fn find_trie(commands: &Vec<MachCommand>) -> (r: Option<(u32, u32)>)
    ensures
        r == last_trie(commands@),
{
    let mut i = commands.len();
    assert(commands@.take(i as int) =~= commands@);
    while i > 0
        invariant
            i <= commands@.len(),
            last_trie(commands@) == last_trie(commands@.take(i as int)),
        decreases i,
    {
        assert(commands@.take(i as int).drop_last() =~= commands@.take(i - 1));
        match commands[i - 1] {
            MachCommand::Trie { offset, size } => {
                return Some((offset, size));
            },
            _ => {},
        }
        i = i - 1;
    }
    None
}

/// Enumerates the names that a Mach-O binary for one architecture exports.
pub fn read_macho_names(bytes: &[u8], little_endian: bool, wide: bool) -> (r: Result<
    Vec<String>,
    ParseError,
>)
    ensures
        match r {
            Ok(names) => macho_names(bytes@, little_endian, wide) == Ok::<
                Seq<Seq<char>>,
                ParseError,
            >(names.deep_view()),
            Err(e) => macho_names(bytes@, little_endian, wide) == Err::<Seq<Seq<char>>, ParseError>(
                e,
            ),
        },
{
    let commands = match read_macho_commands(bytes, little_endian, wide) {
        Some(commands) => commands,
        None => {
            return Err(ParseError::Malformed);
        },
    };
    match find_trie(&commands) {
        None => {
            let names: Vec<String> = Vec::new();
            assert(names.deep_view() =~= Seq::<Seq<char>>::empty());
            Ok(names)
        },
        Some((offset, size)) => {
            let total = bytes.len();
            if offset as u64 + size as u64 > total as u64 {
                return Err(ParseError::SymbolTable);
            }
            let start = offset as usize;
            let end = start + size as usize;
            let libs = count_libraries(&commands);
            match walk_export_trie(slice_subrange(bytes, start, end), libs + 1) {
                Some(names) => Ok(names),
                None => Err(ParseError::SymbolTable),
            }
        },
    }
}

/// The names among the exports, in order: an export without a name is left
/// out.
pub open spec fn named_only(exports: Seq<Option<Seq<char>>>) -> Seq<Seq<char>>
    decreases exports.len(),
{
    if exports.len() == 0 {
        Seq::empty()
    } else {
        match exports.last() {
            Some(name) => named_only(exports.drop_last()).push(name),
            None => named_only(exports.drop_last()),
        }
    }
}

/// The symbols that a binary exports. An ELF file gives every entry of its
/// dynamic string table, a PE file the names of its named exports, a Mach-O
/// binary for one architecture the names that its export trie spells.
/// Everything else gives an error.
pub open spec fn exported_symbols(bytes: Seq<u8>) -> Result<Seq<Seq<char>>, ParseError> {
    match magic_of(bytes) {
        Magic::Elf => match elf_dynamic_strings(bytes) {
            None => Err(ParseError::Malformed),
            Some(None) => Err(ParseError::SymbolTable),
            Some(Some(names)) => Ok(names),
        },
        Magic::Pe => match pe_exports(bytes) {
            None => Err(ParseError::Malformed),
            Some(exports) => Ok(named_only(exports)),
        },
        Magic::Mach { little_endian, wide } => match wide {
            None => Err(ParseError::Malformed),
            Some(wide) => macho_names(bytes, little_endian, wide),
        },
        Magic::MachFat => Err(ParseError::Unsupported(ObjectFormat::MachFat)),
        Magic::Archive => Err(ParseError::Unsupported(ObjectFormat::Archive)),
        Magic::Unknown => Err(ParseError::Unsupported(ObjectFormat::Unknown)),
        Magic::Other => Err(ParseError::Unsupported(ObjectFormat::Other)),
        Magic::Malformed => Err(ParseError::Malformed),
    }
}

/// Keeps the names of the named exports, in order.
pub fn keep_named(exports: &Vec<Option<String>>) -> (r: Vec<String>)
    ensures
        r.deep_view() == named_only(exports.deep_view()),
{
    let ghost all = exports.deep_view();
    let mut out: Vec<String> = Vec::new();
    let n = exports.len();
    let mut i: usize = 0;
    assert(all.take(0) =~= Seq::<Option<Seq<char>>>::empty());
    assert(out.deep_view() =~= named_only(all.take(0)));
    while i < n
        invariant
            n == exports@.len(),
            all == exports.deep_view(),
            i <= n,
            out.deep_view() == named_only(all.take(i as int)),
        decreases n - i,
    {
        proof {
            assert(all[i as int] == exports@[i as int].deep_view());
            assert(all.take(i + 1).drop_last() =~= all.take(i as int));
            assert(all.take(i + 1).last() == all[i as int]);
        }
        let ghost before = out.deep_view();
        match &exports[i] {
            Some(name) => {
                out.push(name.clone());
                assert(out.deep_view() =~= before.push(name.deep_view()));
            },
            None => {},
        }
        i = i + 1;
    }
    assert(all.take(n as int) =~= all);
    out
}

/// Enumerates the symbols that a compiled library exports.
pub fn get_symbols_from_lib(bytes: &[u8]) -> (r: Result<Vec<String>, ParseError>)
    ensures
        match r {
            Ok(names) => exported_symbols(bytes@) == Ok::<Seq<Seq<char>>, ParseError>(
                names.deep_view(),
            ),
            Err(e) => exported_symbols(bytes@) == Err::<Seq<Seq<char>>, ParseError>(e),
        },
{
    match peek_magic(bytes) {
        Magic::Elf => match read_elf_dynamic_strings(bytes) {
            None => Err(ParseError::Malformed),
            Some(None) => Err(ParseError::SymbolTable),
            Some(Some(names)) => Ok(names),
        },
        Magic::Pe => match read_pe_exports(bytes) {
            None => Err(ParseError::Malformed),
            Some(exports) => Ok(keep_named(&exports)),
        },
        Magic::Mach { little_endian, wide } => match wide {
            None => Err(ParseError::Malformed),
            Some(wide) => read_macho_names(bytes, little_endian, wide),
        },
        Magic::MachFat => Err(ParseError::Unsupported(ObjectFormat::MachFat)),
        Magic::Archive => Err(ParseError::Unsupported(ObjectFormat::Archive)),
        Magic::Unknown => Err(ParseError::Unsupported(ObjectFormat::Unknown)),
        Magic::Other => Err(ParseError::Unsupported(ObjectFormat::Other)),
        Magic::Malformed => Err(ParseError::Malformed),
    }
}

} // verus!
