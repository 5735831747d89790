use proc_macro_expander::expander::{
    expansion_result, finish_expand, malformed_attributes, nothing_to_expand, FailureReason,
    Invocation, PanicMessage, TaskFailure,
};
use proc_macro_expander::lexer::parse_string;
use proc_macro_expander::loader::{
    LinkError, LoadError, LoadErrorKind, PluginDescriptor, ProcMacroLibrary,
};
use proc_macro_expander::macro_expansion::{ExpansionResult, ExpansionResults, ExpansionTask};
use proc_macro_expander::rustc_server::{MySpan, Rustc};
use proc_macro_expander::tokens::MyTokenStream;
use proc_macro_expander::{expand_task, Expander};

fn le16(v: u16) -> Vec<u8> {
    v.to_le_bytes().to_vec()
}

fn le32(v: u32) -> Vec<u8> {
    v.to_le_bytes().to_vec()
}

fn le64(v: u64) -> Vec<u8> {
    v.to_le_bytes().to_vec()
}

/// A 64-bit ELF shared object whose dynamic string table holds the names.
fn elf_with_strings(names: &[&str]) -> Vec<u8> {
    let mut strtab: Vec<u8> = vec![0];
    for n in names {
        strtab.extend_from_slice(n.as_bytes());
        strtab.push(0);
    }
    let dyn_off: u64 = 64 + 2 * 56;
    let str_off: u64 = dyn_off + 3 * 16;
    let total: u64 = str_off + strtab.len() as u64;
    let mut b: Vec<u8> = vec![0x7f, b'E', b'L', b'F', 2, 1, 1, 0, 0, 0, 0, 0, 0, 0, 0, 0];
    b.extend(le16(3));
    b.extend(le16(62));
    b.extend(le32(1));
    b.extend(le64(0));
    b.extend(le64(64));
    b.extend(le64(0));
    b.extend(le32(0));
    b.extend(le16(64));
    b.extend(le16(56));
    b.extend(le16(2));
    b.extend(le16(64));
    b.extend(le16(0));
    b.extend(le16(0));
    b.extend(le32(1));
    b.extend(le32(5));
    b.extend(le64(0));
    b.extend(le64(0));
    b.extend(le64(0));
    b.extend(le64(total));
    b.extend(le64(total));
    b.extend(le64(0x1000));
    b.extend(le32(2));
    b.extend(le32(6));
    b.extend(le64(dyn_off));
    b.extend(le64(dyn_off));
    b.extend(le64(dyn_off));
    b.extend(le64(48));
    b.extend(le64(48));
    b.extend(le64(8));
    b.extend(le64(5));
    b.extend(le64(str_off));
    b.extend(le64(10));
    b.extend(le64(strtab.len() as u64));
    b.extend(le64(0));
    b.extend(le64(0));
    b.extend(strtab);
    b
}

fn function(name: &str, entry: u64) -> PluginDescriptor {
    PluginDescriptor::FunctionCapability { name: name.to_string(), entry }
}

fn derive(name: &str, entry: u64) -> PluginDescriptor {
    PluginDescriptor::DeriveCapability { name: name.to_string(), entry }
}

fn attribute(name: &str, entry: u64) -> PluginDescriptor {
    PluginDescriptor::AttributeCapability { name: name.to_string(), entry }
}

fn library(path: &str, table: Vec<PluginDescriptor>) -> ProcMacroLibrary {
    ProcMacroLibrary { path: path.to_string(), exported_macros: table }
}

fn two_plugins() -> Expander {
    Expander {
        libs: vec![
            library("/p/one.so", vec![function("a", 10), derive("B", 11), function("dup", 12)]),
            library("/p/two.so", vec![attribute("c", 20), function("dup", 21), derive("a", 22)]),
        ],
    }
}

/// Every capability hands its input back; an attribute hands back its
/// arguments followed by its item.
fn echo(_server: Rustc, invocation: Invocation) -> Result<MyTokenStream, PanicMessage> {
    match invocation {
        Invocation::CustomDerive { item, .. } => Ok(item),
        Invocation::Bang { body, .. } => Ok(body),
        Invocation::Attr { arguments, item, .. } => {
            let mut out = arguments;
            for tree in item.trees {
                out.push(tree);
            }
            Ok(out)
        }
    }
}

/// Every capability answers with the number of its entry.
fn entry_number(mut server: Rustc, invocation: Invocation) -> Result<MyTokenStream, PanicMessage> {
    let entry = match invocation {
        Invocation::CustomDerive { entry, .. } => entry,
        Invocation::Bang { entry, .. } => entry,
        Invocation::Attr { entry, .. } => entry,
    };
    Ok(server.token_stream_from_str(&format!("{}", entry)).unwrap())
}

fn must_not_run(_server: Rustc, _invocation: Invocation) -> Result<MyTokenStream, PanicMessage> {
    panic!("no plugin may run here")
}

fn task(body: &str, names: &[&str], attributes: Option<&str>, libs: &[&str]) -> ExpansionTask {
    ExpansionTask {
        macro_body: body.to_string(),
        macro_names: names.iter().map(|n| n.to_string()).collect(),
        attributes: attributes.map(|a| a.to_string()),
        libs: libs.iter().map(|l| l.to_string()).collect(),
    }
}

fn read_plugin(path: &String) -> Option<Vec<u8>> {
    if path.ends_with(".so") {
        Some(elf_with_strings(&["__rustc_proc_macro_decls_demo__"]))
    } else if path.ends_with(".txt") {
        Some(b"this is text and no library at all".to_vec())
    } else {
        None
    }
}

fn load_plugin(path: &String, symbol: &String) -> Result<Vec<PluginDescriptor>, LinkError> {
    assert_eq!(symbol, "__rustc_proc_macro_decls_demo__");
    if path.contains("only_b") {
        Ok(vec![function("B", 1)])
    } else if path.contains("broken") {
        Err(LinkError::LoadFailed("invalid ELF header".to_string()))
    } else {
        Ok(vec![function("A", 0), function("B", 1), attribute("at", 2), derive("D", 3)])
    }
}

#[test]
fn select_finds_the_first_in_plugin_order_then_table_order() {
    let e = two_plugins();
    assert_eq!(e.select("a"), Some((0, 0)));
    assert_eq!(e.select("B"), Some((0, 1)));
    assert_eq!(e.select("dup"), Some((0, 2)));
    assert_eq!(e.select("c"), Some((1, 0)));
}

#[test]
fn select_finds_nothing_for_an_unknown_name() {
    let e = two_plugins();
    assert_eq!(e.select("b"), None);
    assert_eq!(e.select(""), None);
    assert_eq!(e.select("dup "), None);
    assert_eq!(Expander { libs: Vec::new() }.select("a"), None);
    assert_eq!(Expander { libs: vec![library("/p/empty.so", Vec::new())] }.select("a"), None);
}

#[test]
fn select_matches_a_name_whatever_the_kind() {
    let e = Expander {
        libs: vec![library("/p/x.so", vec![derive("same", 1), function("same", 2)])],
    };
    assert_eq!(e.select("same"), Some((0, 0)));
}

#[test]
fn plan_gives_a_function_its_body() {
    let e = two_plugins();
    let plan = e.plan("x + 1", "a", None).unwrap();
    assert_eq!(plan, Invocation::Bang { entry: 10, body: parse_string("x + 1", 1).unwrap() });
}

#[test]
fn plan_gives_a_derive_its_item() {
    let e = two_plugins();
    let plan = e.plan("struct S;", "B", None).unwrap();
    assert_eq!(
        plan,
        Invocation::CustomDerive { entry: 11, item: parse_string("struct S;", 1).unwrap() }
    );
}

#[test]
fn plan_gives_an_attribute_its_arguments_and_its_item() {
    let e = two_plugins();
    let attributes = "GET, \"/\"".to_string();
    let plan = e.plan("fn index() {}", "c", Some(&attributes)).unwrap();
    assert_eq!(
        plan,
        Invocation::Attr {
            entry: 20,
            arguments: parse_string("GET, \"/\"", 2).unwrap(),
            item: parse_string("fn index() {}", 1).unwrap(),
        }
    );
}

#[test]
fn plan_gives_an_attribute_without_text_no_arguments() {
    let e = two_plugins();
    let plan = e.plan("fn index() {}", "c", None).unwrap();
    assert_eq!(
        plan,
        Invocation::Attr {
            entry: 20,
            arguments: MyTokenStream::new(),
            item: parse_string("fn index() {}", 1).unwrap(),
        }
    );
}

#[test]
fn plan_ignores_the_attribute_text_for_other_kinds() {
    let e = two_plugins();
    let garbage = "((((".to_string();
    assert!(e.plan("struct S;", "B", Some(&garbage)).is_ok());
    assert!(e.plan("x", "a", Some(&garbage)).is_ok());
    assert_eq!(e.plan("fn f() {}", "c", Some(&garbage)), Err(FailureReason::MalformedAttributes));
}

#[test]
fn plan_checks_the_code_before_the_name() {
    let e = two_plugins();
    assert_eq!(e.plan("struct {", "a", None), Err(FailureReason::MalformedSource));
    assert_eq!(e.plan("struct {", "unknown", None), Err(FailureReason::MalformedSource));
    assert_eq!(e.plan("struct S;", "unknown", None), Err(FailureReason::NothingToExpand));
}

#[test]
fn finish_renders_the_stream_or_keeps_the_message() {
    let stream = parse_string("fn answer() -> u32 { 42 }", 1).unwrap();
    assert_eq!(finish_expand(Ok(stream)), Ok("fn answer () -> u32 { 42 }".to_string()));
    assert_eq!(
        finish_expand(Err(PanicMessage::String("boom".to_string()))),
        Err(FailureReason::Panicked(PanicMessage::String("boom".to_string())))
    );
    assert_eq!(
        finish_expand(Err(PanicMessage::Unknown)),
        Err(FailureReason::Panicked(PanicMessage::Unknown))
    );
}

#[test]
fn panic_message_as_str() {
    assert_eq!(PanicMessage::String("boom".to_string()).as_str(), Some("boom"));
    assert_eq!(PanicMessage::Unknown.as_str(), None);
}

#[test]
fn expand_calls_the_selected_entry() {
    let e = two_plugins();
    assert_eq!(e.expand("x", "a", None, 0, &entry_number), Ok("10".to_string()));
    assert_eq!(e.expand("x", "B", None, 0, &entry_number), Ok("11".to_string()));
    assert_eq!(e.expand("x", "dup", None, 0, &entry_number), Ok("12".to_string()));
    assert_eq!(e.expand("x", "c", None, 0, &entry_number), Ok("20".to_string()));
}

#[test]
fn expand_hands_over_a_new_server_of_the_session() {
    let e = two_plugins();
    let probe = |mut server: Rustc, _: Invocation| -> Result<MyTokenStream, PanicMessage> {
        assert_eq!(server.span_call_site(), Ok(MySpan { session: 41, index: 0 }));
        Ok(server.token_stream_new())
    };
    assert_eq!(e.expand("x", "a", None, 41, &probe), Ok(String::new()));
}

#[test]
fn expand_runs_no_plugin_without_a_plan() {
    let e = two_plugins();
    assert_eq!(
        e.expand("x", "unknown", None, 0, &must_not_run),
        Err(FailureReason::NothingToExpand)
    );
    assert_eq!(e.expand("(", "a", None, 0, &must_not_run), Err(FailureReason::MalformedSource));
}

#[test]
fn identity_capability_gives_back_the_tokens_of_its_input() {
    let e = two_plugins();
    let inputs = [
        "struct S {}",
        "struct S { #[set] y: i32 }",
        "fn f<'a>(x: &'a str) -> &'a str { x }",
        "",
        "a.b().c::<D>()[0] += 1;",
    ];
    for input in inputs.iter() {
        let expansion = e.expand(input, "a", None, 0, &echo).unwrap();
        assert_eq!(
            parse_string(&expansion, 1).unwrap().to_string(),
            parse_string(input, 1).unwrap().to_string()
        );
        let theirs: proc_macro2::TokenStream = input.parse().unwrap();
        let back: proc_macro2::TokenStream = expansion.parse().unwrap();
        assert_eq!(back.to_string(), theirs.to_string());
    }
}

#[test]
fn constant_capability_gives_its_fragment_whatever_the_input() {
    let e = two_plugins();
    let answer = |mut server: Rustc, _: Invocation| -> Result<MyTokenStream, PanicMessage> {
        Ok(server.token_stream_from_str("fn answer() -> u32 { 42 }").unwrap())
    };
    for input in ["", "struct S {}", "1 + 1", "anything (at all)"].iter() {
        assert_eq!(
            e.expand(input, "a", None, 0, &answer),
            Ok("fn answer () -> u32 { 42 }".to_string())
        );
    }
}

#[test]
fn attribute_gets_both_inputs() {
    let e = two_plugins();
    let attributes = "first".to_string();
    assert_eq!(
        e.expand("second", "c", Some(&attributes), 0, &echo),
        Ok("first second".to_string())
    );
    assert_eq!(e.expand("second", "c", None, 0, &echo), Ok("second".to_string()));
}

#[test]
fn a_panic_of_the_plugin_becomes_a_failure() {
    let e = two_plugins();
    let boom = |_: Rustc, _: Invocation| -> Result<MyTokenStream, PanicMessage> {
        Err(PanicMessage::String("plugin gave up".to_string()))
    };
    assert_eq!(
        e.expand("x", "a", None, 0, &boom),
        Err(FailureReason::Panicked(PanicMessage::String("plugin gave up".to_string())))
    );
}

#[test]
fn reason_for_an_unknown_name() {
    assert_eq!(
        nothing_to_expand("Missing"),
        ExpansionResult::Error {
            reason: "Cannot perform expansion for Missing: error Some(\"Nothing to expand\")!"
                .to_string(),
        }
    );
}

#[test]
fn reason_for_an_unknown_name_is_what_a_message_of_that_text_gives() {
    assert_eq!(
        nothing_to_expand("m"),
        expansion_result("m", Err(PanicMessage::String("Nothing to expand".to_string())))
    );
}

#[test]
fn reason_shows_the_message_as_debug_text() {
    assert_eq!(
        expansion_result("m", Err(PanicMessage::String("it \"broke\"\n".to_string()))),
        ExpansionResult::Error {
            reason: "Cannot perform expansion for m: error Some(\"it \\\"broke\\\"\\n\")!"
                .to_string(),
        }
    );
    assert_eq!(
        expansion_result("m", Err(PanicMessage::Unknown)),
        ExpansionResult::Error { reason: "Cannot perform expansion for m: error None!".to_string() }
    );
}

#[test]
fn reason_is_what_the_formatting_of_the_standard_library_gives() {
    for text in ["", "plain", "quo\"te", "back\\slash", "new\nline", "\u{e9}\u{1F600}\0"] {
        let expected = format!("Cannot perform expansion for {}: error {:?}!", "name", Some(text));
        assert_eq!(
            expansion_result("name", Err(PanicMessage::String(text.to_string()))),
            ExpansionResult::Error { reason: expected }
        );
    }
    let none: Option<&str> = None;
    assert_eq!(
        expansion_result("name", Err(PanicMessage::Unknown)),
        ExpansionResult::Error {
            reason: format!("Cannot perform expansion for {}: error {:?}!", "name", none),
        }
    );
}

#[test]
fn success_carries_the_expansion() {
    assert_eq!(
        expansion_result("m", Ok("struct S ;".to_string())),
        ExpansionResult::Success { expansion: "struct S ;".to_string() }
    );
}

#[test]
fn new_opens_the_plugins_in_order() {
    let paths = vec!["/p/full.so".to_string(), "/p/only_b.so".to_string()];
    let e = Expander::new(&paths, &read_plugin, &load_plugin).unwrap();
    assert_eq!(e.libs.len(), 2);
    assert_eq!(e.libs[0].path, "/p/full.so");
    assert_eq!(e.libs[0].exported_macros.len(), 4);
    assert_eq!(e.libs[1].path, "/p/only_b.so");
    assert_eq!(e.libs[1].exported_macros, vec![function("B", 1)]);
}

#[test]
fn new_of_no_plugins_is_empty() {
    let e = Expander::new(&Vec::new(), &read_plugin, &load_plugin).unwrap();
    assert!(e.libs.is_empty());
}

#[test]
fn new_stops_at_the_first_plugin_that_cannot_be_opened() {
    let paths = vec![
        "/p/full.so".to_string(),
        "/p/missing".to_string(),
        "/p/notes.txt".to_string(),
    ];
    let read = |p: &String| {
        assert!(!p.ends_with(".txt"), "loading must have stopped before this plugin");
        read_plugin(p)
    };
    assert_eq!(
        Expander::new(&paths, &read, &load_plugin),
        Err(LoadError {
            path: "/p/missing".to_string(),
            kind: LoadErrorKind::Unreadable,
            detail: String::new(),
        })
    );
}

#[test]
fn unknown_name_is_an_error_result_and_no_crash() {
    let t = task("struct S {}", &["Nope"], None, &["/p/full.so"]);
    assert_eq!(
        expand_task(&t, 0, &read_plugin, &load_plugin, &must_not_run),
        Ok((
            ExpansionResults {
                results: vec![ExpansionResult::Error {
                    reason: "Cannot perform expansion for Nope: error Some(\"Nothing to expand\")!"
                        .to_string(),
                }],
            },
            1
        ))
    );
}

#[test]
fn unknown_name_is_an_error_for_every_task() {
    let bodies = ["", "struct S {}", "fn f() {}", "1 + 1"];
    let plugin_lists: [&[&str]; 3] = [&[], &["/p/only_b.so"], &["/p/full.so", "/p/only_b.so"]];
    for body in bodies.iter() {
        for libs in plugin_lists.iter() {
            let t = task(body, &["no_such_macro"], None, libs);
            let r = expand_task(&t, 0, &read_plugin, &load_plugin, &must_not_run).unwrap().0;
            assert_eq!(r.results.len(), 1);
            match &r.results[0] {
                ExpansionResult::Error { reason } => {
                    assert!(reason.contains("Nothing to expand"));
                    assert!(reason.contains("no_such_macro"));
                }
                other => panic!("an error was expected, not {:?}", other),
            }
        }
    }
}

#[test]
fn results_come_in_the_order_of_the_names() {
    let t = task("struct S {}", &["A", "B"], None, &["/p/only_b.so"]);
    let r = expand_task(&t, 0, &read_plugin, &load_plugin, &echo).unwrap().0;
    assert_eq!(r.results.len(), 2);
    assert_eq!(
        r.results[0],
        ExpansionResult::Error {
            reason: "Cannot perform expansion for A: error Some(\"Nothing to expand\")!"
                .to_string(),
        }
    );
    assert_eq!(r.results[1], ExpansionResult::Success { expansion: "struct S { }".to_string() });
}

#[test]
fn one_answer_for_each_name_even_for_repeated_names() {
    let t = task("x", &["B", "A", "B", "zzz", "D"], None, &["/p/full.so"]);
    let r = expand_task(&t, 0, &read_plugin, &load_plugin, &entry_number).unwrap().0;
    assert_eq!(
        r.results,
        vec![
            ExpansionResult::Success { expansion: "1".to_string() },
            ExpansionResult::Success { expansion: "0".to_string() },
            ExpansionResult::Success { expansion: "1".to_string() },
            ExpansionResult::Error {
                reason: "Cannot perform expansion for zzz: error Some(\"Nothing to expand\")!"
                    .to_string(),
            },
            ExpansionResult::Success { expansion: "3".to_string() },
        ]
    );
}

#[test]
fn a_task_without_names_has_no_answers() {
    let t = task("this ( does not lex", &[], None, &["/p/full.so"]);
    assert_eq!(
        expand_task(&t, 0, &read_plugin, &load_plugin, &must_not_run),
        Ok((ExpansionResults { results: Vec::new() }, 0))
    );
}

#[test]
fn each_name_runs_in_a_session_of_its_own() {
    let t = task("x", &["A", "B", "D"], None, &["/p/full.so"]);
    let session = |mut server: Rustc, _: Invocation| -> Result<MyTokenStream, PanicMessage> {
        let site = server.span_call_site().unwrap();
        assert_eq!(site.index, 0);
        Ok(server.token_stream_from_str(&format!("{}", site.session)).unwrap())
    };
    let (r, next) = expand_task(&t, 40, &read_plugin, &load_plugin, &session).unwrap();
    assert_eq!(
        r.results,
        vec![
            ExpansionResult::Success { expansion: "40".to_string() },
            ExpansionResult::Success { expansion: "41".to_string() },
            ExpansionResult::Success { expansion: "42".to_string() },
        ]
    );
    assert_eq!(next, 43);
}

#[test]
fn a_panic_marks_only_its_own_name() {
    let t = task("x", &["A", "B", "D"], None, &["/p/full.so"]);
    let moody = |server: Rustc, invocation: Invocation| match invocation {
        Invocation::Bang { entry: 1, .. } => Err(PanicMessage::String("B is broken".to_string())),
        other => echo(server, other),
    };
    let r = expand_task(&t, 0, &read_plugin, &load_plugin, &moody).unwrap().0;
    assert_eq!(
        r.results,
        vec![
            ExpansionResult::Success { expansion: "x".to_string() },
            ExpansionResult::Error {
                reason: "Cannot perform expansion for B: error Some(\"B is broken\")!".to_string(),
            },
            ExpansionResult::Success { expansion: "x".to_string() },
        ]
    );
}

#[test]
fn malformed_code_ends_the_task() {
    let t = task("struct S {", &["A", "B"], None, &["/p/full.so"]);
    assert_eq!(
        expand_task(&t, 0, &read_plugin, &load_plugin, &must_not_run),
        Err(TaskFailure::MalformedSource)
    );
}

#[test]
fn malformed_attributes_mark_only_the_attribute() {
    let t = task("fn f() {}", &["A", "at", "nope", "D"], Some("(("), &["/p/full.so"]);
    let r = expand_task(&t, 0, &read_plugin, &load_plugin, &echo).unwrap().0;
    assert_eq!(
        r.results,
        vec![
            ExpansionResult::Success { expansion: "fn f () { }".to_string() },
            ExpansionResult::Error {
                reason: "Cannot perform expansion for at: error Some(\"Malformed attributes\")!"
                    .to_string(),
            },
            ExpansionResult::Error {
                reason: "Cannot perform expansion for nope: error Some(\"Nothing to expand\")!"
                    .to_string(),
            },
            ExpansionResult::Success { expansion: "fn f () { }".to_string() },
        ]
    );
    assert_eq!(malformed_attributes("at"), r.results.into_iter().nth(1).unwrap());
}

#[test]
fn sessions_go_on_from_task_to_task() {
    let first = task("x", &["A", "B"], None, &["/p/full.so"]);
    let second = task("x", &["D", "nope", "A"], None, &["/p/full.so"]);
    let session = |mut server: Rustc, _: Invocation| -> Result<MyTokenStream, PanicMessage> {
        let site = server.span_call_site().unwrap();
        Ok(server.token_stream_from_str(&format!("{}", site.session)).unwrap())
    };
    let (a, next) = expand_task(&first, 0, &read_plugin, &load_plugin, &session).unwrap();
    assert_eq!(next, 2);
    let (b, last) = expand_task(&second, next, &read_plugin, &load_plugin, &session).unwrap();
    assert_eq!(last, 5);
    assert_eq!(a.results[1], ExpansionResult::Success { expansion: "1".to_string() });
    assert_eq!(b.results[0], ExpansionResult::Success { expansion: "2".to_string() });
    assert_eq!(b.results[2], ExpansionResult::Success { expansion: "4".to_string() });
}

#[test]
fn session_numbers_go_round() {
    let t = task("x", &["A", "B", "D"], None, &["/p/full.so"]);
    let session = |mut server: Rustc, _: Invocation| -> Result<MyTokenStream, PanicMessage> {
        let site = server.span_call_site().unwrap();
        Ok(server.token_stream_from_str(&format!("{}", site.session)).unwrap())
    };
    let (r, next) = expand_task(&t, u32::MAX - 1, &read_plugin, &load_plugin, &session).unwrap();
    assert_eq!(
        r.results,
        vec![
            ExpansionResult::Success { expansion: "4294967294".to_string() },
            ExpansionResult::Success { expansion: "4294967295".to_string() },
            ExpansionResult::Success { expansion: "0".to_string() },
        ]
    );
    assert_eq!(next, 1);
    let none = task("x", &[], None, &["/p/full.so"]);
    assert_eq!(
        expand_task(&none, u32::MAX, &read_plugin, &load_plugin, &must_not_run),
        Ok((ExpansionResults { results: Vec::new() }, u32::MAX))
    );
}

#[test]
fn a_handle_of_an_earlier_task_is_refused_in_a_later_one() {
    let t = task("x", &["A"], None, &["/p/full.so"]);
    let stale = std::cell::Cell::new(None);
    let probe = |mut server: Rustc, _: Invocation| -> Result<MyTokenStream, PanicMessage> {
        let site = server.span_call_site().unwrap();
        if let Some(old) = stale.get() {
            assert_ne!(old, site);
            assert!(server.span_start(old).is_err());
        }
        stale.set(Some(site));
        Ok(server.token_stream_new())
    };
    let (_, next) = expand_task(&t, 0, &read_plugin, &load_plugin, &probe).unwrap();
    expand_task(&t, next, &read_plugin, &load_plugin, &probe).unwrap();
}

#[test]
fn a_missing_plugin_ends_the_task_and_is_named() {
    let t = task("struct S {}", &["A"], None, &["/p/full.so", "/p/gone"]);
    assert_eq!(
        expand_task(&t, 0, &read_plugin, &load_plugin, &must_not_run),
        Err(TaskFailure::Load(LoadError {
            path: "/p/gone".to_string(),
            kind: LoadErrorKind::Unreadable,
            detail: String::new(),
        }))
    );
}

#[test]
fn a_file_that_is_no_library_ends_the_task_and_is_named() {
    let t = task("struct S {}", &["A"], None, &["/p/notes.txt"]);
    match expand_task(&t, 0, &read_plugin, &load_plugin, &must_not_run) {
        Err(TaskFailure::Load(e)) => {
            assert_eq!(e.path, "/p/notes.txt");
            assert!(matches!(e.kind, LoadErrorKind::UnrecognizedFormat(_)));
        }
        other => panic!("a load failure was expected, not {:?}", other),
    }
}

#[test]
fn a_library_that_the_system_refuses_ends_the_task_and_is_named() {
    let t = task("struct S {}", &["A"], None, &["/p/broken.so"]);
    assert_eq!(
        expand_task(&t, 0, &read_plugin, &load_plugin, &must_not_run),
        Err(TaskFailure::Load(LoadError {
            path: "/p/broken.so".to_string(),
            kind: LoadErrorKind::LoadFailed,
            detail: "invalid ELF header".to_string(),
        }))
    );
}

#[test]
fn plugins_are_loaded_before_the_code_is_looked_at() {
    let t = task("struct S {", &["A"], None, &["/p/gone"]);
    assert!(matches!(
        expand_task(&t, 0, &read_plugin, &load_plugin, &must_not_run),
        Err(TaskFailure::Load(_))
    ));
}

#[test]
fn expand_all_expands_on_loaded_plugins() {
    let e = two_plugins();
    let t = task("x", &["c", "nope", "a"], Some("args"), &[]);
    let (r, next) = e.expand_all(&t, 7, &echo).unwrap();
    assert_eq!(next, 10);
    assert_eq!(r.results.len(), 3);
    assert_eq!(r.results[0], ExpansionResult::Success { expansion: "args x".to_string() });
    assert!(matches!(r.results[1], ExpansionResult::Error { .. }));
    assert_eq!(r.results[2], ExpansionResult::Success { expansion: "x".to_string() });
}
