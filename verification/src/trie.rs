//! The export trie of a Mach-O binary: a tree of name fragments, laid out in
//! bytes, whose paths spell the names of the exported symbols.
//!
//! A node begins with the size of its export information, zero where the
//! node ends no name. After the information come the number of children and,
//! for each child, the fragment it adds, closed by a zero byte, and the
//! offset of its node from the start of the trie. Numbers are ULEB128.

use crate::text::utf8_str;
use vstd::prelude::*;
use vstd::slice::*;
use vstd::string::*;
use vstd::utf8::*;

verus! {

/// The deepest nesting of nodes that is walked.
pub const MAX_TRIE_DEPTH: usize = 1024;

/// The flag bits that tell the kind of a symbol.
pub const KIND_MASK: u64 = 0x03;

/// The flag bit of a symbol that is exported again from another library.
pub const FLAG_REEXPORT: u64 = 0x08;

/// The flag bit of a symbol with a stub and a resolver.
pub const FLAG_STUB_AND_RESOLVER: u64 = 0x10;

/// The number that begins at `at`, continued from the bits read so far: the
/// low seven bits of each byte, least significant first, up to the first
/// byte without the high bit. With the number comes the offset after it.
/// Nothing where the bytes end first or the number has more than 64 bits.
pub open spec fn uleb_from(t: Seq<u8>, at: int, shift: u64, acc: u64) -> Option<(u64, int)>
    decreases 70 - shift,
{
    if at < 0 || at >= t.len() || shift > 63 {
        None
    } else if shift == 63 && t[at] != 0 && t[at] != 1 {
        None
    } else {
        let v = acc | (((t[at] & 0x7f) as u64) << shift);
        if t[at] & 0x80 == 0 {
            Some((v, at + 1))
        } else {
            uleb_from(t, at + 1, (shift + 7) as u64, v)
        }
    }
}

/// The ULEB128 number at `at` and the offset after it.
pub open spec fn uleb_at(t: Seq<u8>, at: int) -> Option<(u64, int)> {
    uleb_from(t, at, 0, 0)
}

/// The offset of the first zero byte from `at` on.
pub open spec fn nul_from(t: Seq<u8>, at: int) -> Option<int>
    decreases t.len() - at,
{
    if at < 0 || at >= t.len() {
        None
    } else if t[at] == 0 {
        Some(at)
    } else {
        nul_from(t, at + 1)
    }
}

/// The text at `at`, closed by a zero byte, and the offset after that byte.
/// Nothing where no zero byte follows or the bytes are no UTF-8.
pub open spec fn label_at(t: Seq<u8>, at: int) -> Option<(Seq<char>, int)> {
    match nul_from(t, at) {
        None => None,
        Some(end) => if valid_utf8(t.subrange(at, end)) {
            Some((decode_utf8(t.subrange(at, end)), end + 1))
        } else {
            None
        },
    }
}

/// Is the export information at `at` whole? It begins with the flags. A
/// symbol exported again names its library by a number below `libs` and
/// then its name there; a stub gives two offsets; any other gives an
/// address.
pub open spec fn info_ok(t: Seq<u8>, libs: int, at: int) -> bool {
    match uleb_at(t, at) {
        None => false,
        Some((flags, p)) => if flags & KIND_MASK != KIND_MASK && flags & FLAG_REEXPORT != 0 {
            match uleb_at(t, p) {
                None => false,
                Some((ordinal, q)) => ordinal < libs && label_at(t, q) is Some,
            }
        } else if flags & KIND_MASK == 0 && flags & FLAG_STUB_AND_RESOLVER != 0 {
            match uleb_at(t, p) {
                None => false,
                Some((_, q)) => uleb_at(t, q) is Some,
            }
        } else {
            uleb_at(t, p) is Some
        },
    }
}

/// The names below the node at `node`, each after `prefix`, and how many
/// nodes were walked to find them: the node's own name first, where it ends
/// one, then the names below each child in turn. Nothing where the node lies
/// outside the trie, a number or a text is broken, the information of an
/// export is not whole, or more than `budget` nodes or `depth` levels would
/// have to be walked.
pub open spec fn walk_node(
    t: Seq<u8>,
    libs: int,
    node: int,
    prefix: Seq<char>,
    budget: nat,
    depth: nat,
) -> Option<(Seq<Seq<char>>, nat)>
    decreases budget, 0nat,
{
    if budget == 0 || depth == 0 || node < 0 || node >= t.len() {
        None
    } else {
        match uleb_at(t, node) {
            None => None,
            Some((size, p)) => if size != 0 && !info_ok(t, libs, p) {
                None
            } else {
                match uleb_at(t, p + size) {
                    None => None,
                    Some((n, q)) => match walk_children(
                        t,
                        libs,
                        q,
                        n as nat,
                        prefix,
                        (budget - 1) as nat,
                        (depth - 1) as nat,
                    ) {
                        None => None,
                        Some((names, used)) => Some(
                            (
                                if size == 0 {
                                    names
                                } else {
                                    seq![prefix] + names
                                },
                                (used + 1) as nat,
                            ),
                        ),
                    },
                }
            },
        }
    }
}

/// The names below the next `n` children whose records begin at `at`, and
/// how many nodes were walked to find them.
pub open spec fn walk_children(
    t: Seq<u8>,
    libs: int,
    at: int,
    n: nat,
    prefix: Seq<char>,
    budget: nat,
    depth: nat,
) -> Option<(Seq<Seq<char>>, nat)>
    decreases budget, n + 1,
{
    if n == 0 {
        Some((Seq::empty(), 0))
    } else {
        match label_at(t, at) {
            None => None,
            Some((text, p)) => match uleb_at(t, p) {
                None => None,
                Some((offset, q)) => match walk_node(
                    t,
                    libs,
                    offset as int,
                    prefix + text,
                    budget,
                    depth,
                ) {
                    None => None,
                    Some((first, used)) => if used > budget {
                        None
                    } else {
                        match walk_children(
                            t,
                            libs,
                            q,
                            (n - 1) as nat,
                            prefix,
                            (budget - used) as nat,
                            depth,
                        ) {
                            None => None,
                            Some((rest, more)) => Some((first + rest, (used + more) as nat)),
                        }
                    },
                },
            },
        }
    }
}

/// The names that a trie exports, in the order of the walk from its root.
/// The empty trie exports nothing. The walk is given as many nodes as the
/// trie has bytes.
pub open spec fn trie_names(t: Seq<u8>, libs: int) -> Option<Seq<Seq<char>>> {
    if t.len() == 0 {
        Some(Seq::empty())
    } else {
        match walk_node(t, libs, 0, Seq::empty(), t.len(), MAX_TRIE_DEPTH as nat) {
            None => None,
            Some((names, _)) => Some(names),
        }
    }
}

/// Reads the ULEB128 number at `at`.
pub fn read_uleb(t: &[u8], at: usize) -> (r: Option<(u64, usize)>)
    ensures
        match r {
            Some((v, next)) => uleb_at(t@, at as int) == Some((v, next as int)) && at < next
                <= t@.len(),
            None => uleb_at(t@, at as int) is None,
        },
{
    let mut acc: u64 = 0;
    let mut shift: u64 = 0;
    let mut p: usize = at;
    loop
        invariant
            shift <= 63,
            shift % 7 == 0,
            at <= p,
            uleb_at(t@, at as int) == uleb_from(t@, p as int, shift, acc),
        decreases 63 - shift,
    {
        if p >= t.len() {
            return None;
        }
        let b = t[p];
        if shift == 63 && b != 0 && b != 1 {
            return None;
        }
        let v = acc | (((b & 0x7f) as u64) << shift);
        if b & 0x80 == 0 {
            return Some((v, p + 1));
        }
        assert(b != 0 && b != 1) by (bit_vector)
            requires
                b & 0x80 != 0,
        ;
        acc = v;
        shift = shift + 7;
        p = p + 1;
    }
}

/// Finds the first zero byte from `at` on.
fn find_nul(t: &[u8], at: usize) -> (r: Option<usize>)
    ensures
        match r {
            Some(end) => nul_from(t@, at as int) == Some(end as int) && at <= end < t@.len(),
            None => nul_from(t@, at as int) is None,
        },
{
    let mut p: usize = at;
    while p < t.len()
        invariant
            at <= p,
            nul_from(t@, at as int) == nul_from(t@, p as int),
        decreases t@.len() - p,
    {
        if t[p] == 0 {
            return Some(p);
        }
        p = p + 1;
    }
    None
}

/// Reads the text at `at`.
pub fn read_label(t: &[u8], at: usize) -> (r: Option<(String, usize)>)
    ensures
        match r {
            Some((text, next)) => label_at(t@, at as int) == Some((text@, next as int)) && at
                < next <= t@.len(),
            None => label_at(t@, at as int) is None,
        },
{
    let size = t.len();
    match find_nul(t, at) {
        None => None,
        Some(end) => {
            assert(end < size);
            let bytes = slice_subrange(t, at, end);
            match utf8_str(bytes) {
                None => None,
                Some(s) => {
                    proof {
                        encode_utf8_valid_utf8(s@);
                        encode_utf8_decode_utf8(s@);
                    }
                    Some((String::from_str(s), end + 1))
                },
            }
        },
    }
}

/// Checks the export information at `at`.
pub fn check_info(t: &[u8], libs: usize, at: usize) -> (r: bool)
    ensures
        r == info_ok(t@, libs as int, at as int),
{
    let (flags, p) = match read_uleb(t, at) {
        Some(found) => found,
        None => {
            return false;
        },
    };
    if flags & KIND_MASK != KIND_MASK && flags & FLAG_REEXPORT != 0 {
        match read_uleb(t, p) {
            None => false,
            Some((ordinal, q)) => ordinal < libs as u64 && read_label(t, q).is_some(),
        }
    } else if flags & KIND_MASK == 0 && flags & FLAG_STUB_AND_RESOLVER != 0 {
        match read_uleb(t, p) {
            None => false,
            Some((_, q)) => read_uleb(t, q).is_some(),
        }
    } else {
        read_uleb(t, p).is_some()
    }
}

/// Walks the node at `node` and appends the names below it to `out`. Gives
/// the number of nodes walked.
fn walk_node_into(
    t: &[u8],
    libs: usize,
    node: usize,
    prefix: &String,
    budget: usize,
    depth: usize,
    out: &mut Vec<String>,
) -> (r: Option<usize>)
    ensures
        match r {
            Some(used) => walk_node(
                t@,
                libs as int,
                node as int,
                prefix@,
                budget as nat,
                depth as nat,
            ) matches Some((names, u)) && u == used && used <= budget && final(out).deep_view()
                == old(out).deep_view() + names,
            None => walk_node(t@, libs as int, node as int, prefix@, budget as nat, depth as nat)
                is None,
        },
    decreases budget, 0nat,
{
    if budget == 0 || depth == 0 || node >= t.len() {
        return None;
    }
    let (size, p) = match read_uleb(t, node) {
        Some(found) => found,
        None => {
            return None;
        },
    };
    if size != 0 && !check_info(t, libs, p) {
        return None;
    }
    if size >= (t.len() - p) as u64 {
        return None;
    }
    let children = p + size as usize;
    let (n, q) = match read_uleb(t, children) {
        Some(found) => found,
        None => {
            return None;
        },
    };
    let ghost before = out.deep_view();
    if size != 0 {
        out.push(prefix.clone());
        assert(out.deep_view() =~= before + seq![prefix@]);
    }
    match walk_children_into(t, libs, q, n, prefix, budget - 1, depth - 1, out) {
        None => None,
        Some(used) => {
            proof {
                let names = walk_children(
                    t@,
                    libs as int,
                    q as int,
                    n as nat,
                    prefix@,
                    (budget - 1) as nat,
                    (depth - 1) as nat,
                )->Some_0.0;
                if size != 0 {
                    assert(out.deep_view() =~= before + (seq![prefix@] + names));
                }
            }
            Some(used + 1)
        },
    }
}

/// Walks the next `n` children whose records begin at `at` and appends the
/// names below them to `out`. Gives the number of nodes walked.
fn walk_children_into(
    t: &[u8],
    libs: usize,
    at: usize,
    n: u64,
    prefix: &String,
    budget: usize,
    depth: usize,
    out: &mut Vec<String>,
) -> (r: Option<usize>)
    ensures
        match r {
            Some(used) => walk_children(
                t@,
                libs as int,
                at as int,
                n as nat,
                prefix@,
                budget as nat,
                depth as nat,
            ) matches Some((names, u)) && u == used && used <= budget && final(out).deep_view()
                == old(out).deep_view() + names,
            None => walk_children(
                t@,
                libs as int,
                at as int,
                n as nat,
                prefix@,
                budget as nat,
                depth as nat,
            ) is None,
        },
    decreases budget, 1nat,
{
    let ghost whole = walk_children(
        t@,
        libs as int,
        at as int,
        n as nat,
        prefix@,
        budget as nat,
        depth as nat,
    );
    let ghost before = out.deep_view();
    let ghost mut done: Seq<Seq<char>> = Seq::empty();
    let mut left: u64 = n;
    let mut p: usize = at;
    let mut used: usize = 0;
    assert(out.deep_view() =~= before + done);
    while left > 0
        invariant
            used <= budget,
            out.deep_view() == before + done,
            before == old(out).deep_view(),
            whole == walk_children(
                t@,
                libs as int,
                at as int,
                n as nat,
                prefix@,
                budget as nat,
                depth as nat,
            ),
            whole == match walk_children(
                t@,
                libs as int,
                p as int,
                left as nat,
                prefix@,
                (budget - used) as nat,
                depth as nat,
            ) {
                None => None::<(Seq<Seq<char>>, nat)>,
                Some((rest, more)) => Some((done + rest, (used + more) as nat)),
            },
        decreases left,
    {
        let ghost here = walk_children(
            t@,
            libs as int,
            p as int,
            left as nat,
            prefix@,
            (budget - used) as nat,
            depth as nat,
        );
        let (text, p1) = match read_label(t, p) {
            Some(found) => found,
            None => {
                assert(here is None);
                return None;
            },
        };
        let (offset, q) = match read_uleb(t, p1) {
            Some(found) => found,
            None => {
                assert(here is None);
                return None;
            },
        };
        if offset >= t.len() as u64 {
            assert(walk_node(
                t@,
                libs as int,
                offset as int,
                prefix@ + text@,
                (budget - used) as nat,
                depth as nat,
            ) is None);
            assert(here is None);
            return None;
        }
        let mut name = prefix.clone();
        name.append(text.as_str());
        let ghost so_far = out.deep_view();
        match walk_node_into(t, libs, offset as usize, &name, budget - used, depth, out) {
            None => {
                assert(here is None);
                return None;
            },
            Some(walked) => {
                proof {
                    let first = walk_node(
                        t@,
                        libs as int,
                        offset as int,
                        name@,
                        (budget - used) as nat,
                        depth as nat,
                    )->Some_0.0;
                    let next = walk_children(
                        t@,
                        libs as int,
                        q as int,
                        (left - 1) as nat,
                        prefix@,
                        (budget - used - walked) as nat,
                        depth as nat,
                    );
                    assert(out.deep_view() == before + (done + first)) by {
                        assert(so_far + first =~= before + (done + first));
                    }
                    if next is Some {
                        assert((done + first) + next->Some_0.0 =~= done + (first + next->Some_0.0));
                    }
                    done = done + first;
                }
                used = used + walked;
                p = q;
                left = left - 1;
            },
        }
    }
    assert(done + Seq::<Seq<char>>::empty() =~= done);
    Some(used)
}

/// The names that a trie exports, in the order of the walk from its root;
/// `None` for a trie that is broken, too large for its bytes, or too deep.
pub fn walk_export_trie(t: &[u8], libs: usize) -> (r: Option<Vec<String>>)
    ensures
        r.deep_view() == trie_names(t@, libs as int),
{
    let mut out: Vec<String> = Vec::new();
    if t.len() == 0 {
        assert(out.deep_view() =~= Seq::<Seq<char>>::empty());
        return Some(out);
    }
    let root = String::new();
    assert(out.deep_view() =~= Seq::<Seq<char>>::empty());
    match walk_node_into(t, libs, 0, &root, t.len(), MAX_TRIE_DEPTH, &mut out) {
        None => None,
        Some(_) => {
            proof {
                let names = walk_node(
                    t@,
                    libs as int,
                    0,
                    Seq::empty(),
                    t@.len(),
                    MAX_TRIE_DEPTH as nat,
                )->Some_0.0;
                assert(Seq::<Seq<char>>::empty() + names =~= names);
            }
            Some(out)
        },
    }
}

} // verus!
