//! The registrar locator: which of the exported symbols is the capability
//! table of a plugin.

use crate::inspector::{exported_symbols, get_symbols_from_lib};
use crate::text::{chars_of, contains_chars, contains_text, occurs_in};
use vstd::prelude::*;

verus! {

/// The marker in the name of the symbol that holds the capability table, as
/// the compiler writes it today.
pub const NEW_REGISTRAR_SYMBOL: &'static str = "__rustc_proc_macro_decls_";

/// Is this the name of a capability table?
pub fn is_derive_registrar_symbol(symbol: &str) -> (r: bool)
    ensures
        r == occurs_in(symbol@, NEW_REGISTRAR_SYMBOL@),
{
    contains_text(symbol, NEW_REGISTRAR_SYMBOL)
}

/// The first of `symbols`, from position `from` on, that holds `marker`.
pub open spec fn located_from(symbols: Seq<Seq<char>>, marker: Seq<char>, from: int) -> Option<
    Seq<char>,
>
    decreases symbols.len() - from,
{
    if from < 0 || from >= symbols.len() {
        None
    } else if occurs_in(symbols[from], marker) {
        Some(symbols[from])
    } else {
        located_from(symbols, marker, from + 1)
    }
}

/// The first of `symbols` that holds `marker`: where several do, the
/// earliest in the given order wins.
pub open spec fn located(symbols: Seq<Seq<char>>, marker: Seq<char>) -> Option<Seq<char>> {
    located_from(symbols, marker, 0)
}

/// A located symbol is one of the symbols, it holds the marker, and no
/// symbol before it does; nothing is located only where no symbol holds the
/// marker.
pub proof fn lemma_located(symbols: Seq<Seq<char>>, marker: Seq<char>, from: int)
    requires
        0 <= from <= symbols.len(),
    ensures
        match located_from(symbols, marker, from) {
            Some(name) => exists|i: int|
                from <= i < symbols.len() && symbols[i] == name && occurs_in(name, marker)
                    && forall|j: int| from <= j < i ==> !occurs_in(#[trigger] symbols[j], marker),
            None => forall|j: int|
                from <= j < symbols.len() ==> !occurs_in(#[trigger] symbols[j], marker),
        },
    decreases symbols.len() - from,
{
    if from < symbols.len() {
        if occurs_in(symbols[from], marker) {
            assert(from <= from < symbols.len() && symbols[from] == symbols[from]);
        } else {
            lemma_located(symbols, marker, from + 1);
            match located_from(symbols, marker, from + 1) {
                Some(name) => {
                    let i = choose|i: int|
                        from + 1 <= i < symbols.len() && symbols[i] == name && occurs_in(
                            name,
                            marker,
                        ) && forall|j: int|
                            from + 1 <= j < i ==> !occurs_in(#[trigger] symbols[j], marker);
                    assert(from <= i < symbols.len() && symbols[i] == name);
                },
                None => {},
            }
        }
    }
}

/// Scans the symbols for the first that holds the marker.
pub fn locate(symbols: &Vec<String>, marker: &str) -> (r: Option<String>)
    ensures
        r.deep_view() == located(symbols.deep_view(), marker@),
{
    let needle = chars_of(marker);
    let n = symbols.len();
    let mut i: usize = 0;
    while i < n
        invariant
            n == symbols@.len(),
            i <= n,
            needle@ == marker@,
            located(symbols.deep_view(), marker@) == located_from(
                symbols.deep_view(),
                marker@,
                i as int,
            ),
        decreases n - i,
    {
        assert(symbols.deep_view()[i as int] == symbols@[i as int]@);
        let hay = chars_of(symbols[i].as_str());
        if contains_chars(&hay, &needle) {
            return Some(symbols[i].clone());
        }
        i = i + 1;
    }
    None
}

/// The name of the capability table among the symbols that a compiled
/// library exports; `None` where the symbols cannot be enumerated or none of
/// them carries the marker.
pub fn find_registrar_symbol(bytes: &[u8]) -> (r: Option<String>)
    ensures
        r.deep_view() == match exported_symbols(bytes@) {
            Ok(symbols) => located(symbols, NEW_REGISTRAR_SYMBOL@),
            Err(_) => None,
        },
{
    match get_symbols_from_lib(bytes) {
        Ok(symbols) => locate(&symbols, NEW_REGISTRAR_SYMBOL),
        Err(_) => None,
    }
}

} // verus!
