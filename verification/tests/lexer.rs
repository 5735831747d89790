use proc_macro_expander::lexer::{lex, parse_string};
use proc_macro_expander::tokens::{
    Delimiter, LineColumn, MyIdentData, MyLiteral, MyPunctData, MySpanData, Spacing, Token,
};

fn at(source: u32, line: usize, from: usize, to: usize) -> MySpanData {
    MySpanData {
        source,
        start: LineColumn { line, column: from },
        end: LineColumn { line, column: to },
    }
}

#[test]
fn empty_text_lexes_to_the_empty_stream() {
    assert!(parse_string("", 1).unwrap().is_empty());
    assert!(lex("", 3).unwrap().is_empty());
    assert!(lex("   \n\t ", 3).unwrap().is_empty());
    assert!(lex("// only a comment", 3).unwrap().is_empty());
}

#[test]
fn malformed_text_does_not_lex() {
    assert_eq!(parse_string("struct S {", 1), None);
    assert_eq!(parse_string(")", 1), None);
    assert_eq!(parse_string("\"unterminated", 1), None);
    assert_eq!(lex("( ]", 3), None);
    assert_eq!(lex("'", 3), None);
}

#[test]
fn tokens_carry_their_positions_and_their_source() {
    let stream = parse_string("struct S", 1).unwrap();
    assert_eq!(
        stream.trees,
        vec![
            Token::Ident(MyIdentData { text: "struct".to_string(), raw: false, span: at(1, 1, 0, 6) }),
            Token::Ident(MyIdentData { text: "S".to_string(), raw: false, span: at(1, 1, 7, 8) }),
        ]
    );
}

#[test]
fn the_source_number_is_the_one_given() {
    let stream = lex("a", 77).unwrap();
    assert_eq!(
        stream.trees,
        vec![Token::Ident(MyIdentData { text: "a".to_string(), raw: false, span: at(77, 1, 0, 1) })]
    );
}

#[test]
fn lines_count_from_one_and_columns_from_zero() {
    let stream = lex("a\n  b", 3).unwrap();
    assert_eq!(
        stream.trees,
        vec![
            Token::Ident(MyIdentData { text: "a".to_string(), raw: false, span: at(3, 1, 0, 1) }),
            Token::Ident(MyIdentData { text: "b".to_string(), raw: false, span: at(3, 2, 2, 3) }),
        ]
    );
}

#[test]
fn raw_identifiers_lose_their_prefix_and_keep_their_rawness() {
    let stream = lex("r#type rtype", 3).unwrap();
    assert_eq!(
        stream.trees,
        vec![
            Token::Ident(MyIdentData { text: "type".to_string(), raw: true, span: at(3, 1, 0, 6) }),
            Token::Ident(MyIdentData { text: "rtype".to_string(), raw: false, span: at(3, 1, 7, 12) }),
        ]
    );
}

#[test]
fn short_identifiers_are_not_mistaken_for_raw_ones() {
    let stream = lex("r r0 _", 3).unwrap();
    let texts: Vec<(String, bool)> = stream
        .trees
        .iter()
        .map(|t| match t {
            Token::Ident(i) => (i.text.clone(), i.raw),
            _ => panic!("an identifier was expected"),
        })
        .collect();
    assert_eq!(
        texts,
        vec![("r".to_string(), false), ("r0".to_string(), false), ("_".to_string(), false)]
    );
}

#[test]
fn punctuation_knows_whether_it_is_joined() {
    let stream = lex("-> +", 3).unwrap();
    assert_eq!(
        stream.trees,
        vec![
            Token::Punct(MyPunctData { ch: '-', spacing: Spacing::Joint, span: at(3, 1, 0, 1) }),
            Token::Punct(MyPunctData { ch: '>', spacing: Spacing::Alone, span: at(3, 1, 1, 2) }),
            Token::Punct(MyPunctData { ch: '+', spacing: Spacing::Alone, span: at(3, 1, 3, 4) }),
        ]
    );
}

#[test]
fn literals_keep_their_text() {
    let stream = lex("42 \"s\" 'c' 1.5f32", 3).unwrap();
    assert_eq!(
        stream.trees,
        vec![
            Token::Literal(MyLiteral { text: "42".to_string(), span: at(3, 1, 0, 2) }),
            Token::Literal(MyLiteral { text: "\"s\"".to_string(), span: at(3, 1, 3, 6) }),
            Token::Literal(MyLiteral { text: "'c'".to_string(), span: at(3, 1, 7, 10) }),
            Token::Literal(MyLiteral { text: "1.5f32".to_string(), span: at(3, 1, 11, 17) }),
        ]
    );
}

#[test]
fn groups_nest_and_carry_their_delimiters() {
    let stream = lex("( [ { } ] )", 3).unwrap();
    assert_eq!(stream.trees.len(), 1);
    let outer = match &stream.trees[0] {
        Token::Group(g) => g,
        _ => panic!("a group was expected"),
    };
    assert_eq!(outer.delimiter, Delimiter::Parenthesis);
    assert_eq!(outer.span, at(3, 1, 0, 11));
    let middle = match &outer.stream.trees[0] {
        Token::Group(g) => g,
        _ => panic!("a group was expected"),
    };
    assert_eq!(middle.delimiter, Delimiter::Bracket);
    let inner = match &middle.stream.trees[0] {
        Token::Group(g) => g,
        _ => panic!("a group was expected"),
    };
    assert_eq!(inner.delimiter, Delimiter::Brace);
    assert_eq!(inner.span, at(3, 1, 4, 7));
    assert!(inner.stream.is_empty());
}

#[test]
fn tokens_inside_groups_lie_in_the_same_source() {
    let stream = parse_string("f(x)", 1).unwrap();
    let group = match &stream.trees[1] {
        Token::Group(g) => g,
        _ => panic!("a group was expected"),
    };
    assert_eq!(group.span.source, 1);
    assert_eq!(
        group.stream.trees,
        vec![Token::Ident(MyIdentData { text: "x".to_string(), raw: false, span: at(1, 1, 2, 3) })]
    );
}

#[test]
fn both_lexers_agree() {
    let samples = ["struct S {}", "a + b", "r#x 'l 1.0 \"s\"", "f(g[h{i}])"];
    for code in samples.iter() {
        assert_eq!(parse_string(code, 5), lex(code, 5));
    }
}

#[test]
fn a_deep_nest_is_walked_to_the_bottom() {
    let mut code = String::new();
    for _ in 0..200 {
        code.push('(');
    }
    code.push('x');
    for _ in 0..200 {
        code.push(')');
    }
    let stream = lex(&code, 3).unwrap();
    let mut depth = 0;
    let mut current = &stream;
    loop {
        match &current.trees[0] {
            Token::Group(g) => {
                depth += 1;
                current = &g.stream;
            }
            Token::Ident(i) => {
                assert_eq!(i.text, "x");
                break;
            }
            _ => panic!("a group or the identifier was expected"),
        }
    }
    assert_eq!(depth, 200);
}
