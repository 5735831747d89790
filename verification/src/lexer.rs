//! Lexing: from source text to the token model.
//!
//! The lexer is that of `proc_macro2`, built without its `proc-macro`
//! feature, so that every call goes to its own lexer and never to that of a
//! compiler. This module names what its values hold, and walks a lexed
//! stream into a [`MyTokenStream`].
//!
//! `proc_macro2` keeps every text it lexes, under 32-bit offsets, for as long
//! as the thread lives. The positions it reports are right while a thread
//! has lexed less than 4 GiB of text in all.

use crate::tokens::{
    lemma_group_token_view, placed, placed_span, placed_token, rendered_token, span_of, Delimiter,
    GroupView, IdentView, LineColumn, LiteralView, MyGroup, MyIdentData, MyLiteral, MyPunctData,
    MySpanData, MyTokenStream, Spacing, Token, TokenView,
};
use vstd::prelude::*;
use vstd::string::*;

verus! {

/// What `syn::parse_str` makes of a text: its tokens, or nothing where the
/// text does not lex. The spans hold positions; their source number says
/// nothing until the tokens are placed.
pub uninterp spec fn parsed(code: Seq<char>) -> Option<Seq<TokenView>>;

/// What `proc_macro2::TokenStream::from_str` makes of a text: its tokens, or
/// nothing where the text does not lex. The spans hold positions; their
/// source number says nothing until the tokens are placed.
pub uninterp spec fn lexed(code: Seq<char>) -> Option<Seq<TokenView>>;

/// The tokens that a `proc_macro2::TokenStream` holds, in order.
pub uninterp spec fn stream_view(ts: proc_macro2::TokenStream) -> Seq<TokenView>;

/// The token that a `proc_macro2::TokenTree` is.
pub uninterp spec fn tree_view(tt: proc_macro2::TokenTree) -> TokenView;

/// The positions that a `proc_macro2::Span` covers.
pub uninterp spec fn span_view(span: proc_macro2::Span) -> MySpanData;

/// The group that a `proc_macro2::Group` is.
pub uninterp spec fn group_view(g: proc_macro2::Group) -> GroupView;

/// The identifier that a `proc_macro2::Ident` is.
pub uninterp spec fn ident_view(i: proc_macro2::Ident) -> IdentView;

/// The punctuation character that a `proc_macro2::Punct` is.
pub uninterp spec fn punct_view(p: proc_macro2::Punct) -> MyPunctData;

/// The literal that a `proc_macro2::Literal` is.
pub uninterp spec fn literal_view(l: proc_macro2::Literal) -> LiteralView;

/// The text of the string literal that `proc_macro2::Literal::string` makes
/// of a string: quoted and escaped.
pub uninterp spec fn string_literal_text(s: Seq<char>) -> Seq<char>;

/// The text of the character literal that `proc_macro2::Literal::character`
/// makes of a character: quoted and escaped.
pub uninterp spec fn character_literal_text(c: char) -> Seq<char>;

/// The text of the byte string literal that
/// `proc_macro2::Literal::byte_string` makes of bytes: quoted and escaped.
pub uninterp spec fn byte_string_literal_text(bytes: Seq<u8>) -> Seq<char>;

/// A `proc_macro2::TokenTree` taken apart by its variant.
pub enum RawTree<'a> {
    Group(&'a proc_macro2::Group),
    Ident(&'a proc_macro2::Ident),
    Punct(&'a proc_macro2::Punct),
    Literal(&'a proc_macro2::Literal),
}

/// `syn::parse_str` at the type `proc_macro2::TokenStream`: the stream of
/// the whole text, or nothing where the lexer rejects it.
#[verifier::external_body]
pub(crate) fn parse_str(code: &str) -> (r: Option<proc_macro2::TokenStream>)
    ensures
        match r {
            Some(ts) => parsed(code@) == Some(stream_view(ts)),
            None => parsed(code@) is None,
        },
{
    syn::parse_str::<proc_macro2::TokenStream>(code).ok()
}

/// `proc_macro2::TokenStream::from_str`, reached through `str::parse`: the
/// stream of the whole text, or nothing where the lexer rejects it.
#[verifier::external_body]
pub(crate) fn lex_str(code: &str) -> (r: Option<proc_macro2::TokenStream>)
    ensures
        match r {
            Some(ts) => lexed(code@) == Some(stream_view(ts)),
            None => lexed(code@) is None,
        },
{
    code.parse::<proc_macro2::TokenStream>().ok()
}

/// `proc_macro2::TokenStream::into_iter`, collected: the trees of the stream
/// in order.
#[verifier::external_body]
pub(crate) fn stream_trees(ts: proc_macro2::TokenStream) -> (r: Vec<proc_macro2::TokenTree>)
    ensures
        r@.len() == stream_view(ts).len(),
        forall|i: int| 0 <= i < r@.len() ==> tree_view(#[trigger] r@[i]) == stream_view(ts)[i],
{
    ts.into_iter().collect()
}

/// `proc_macro2::TokenTree::span`: the span of the token inside.
#[verifier::external_body]
pub(crate) fn tree_span(tt: &proc_macro2::TokenTree) -> (r: proc_macro2::Span)
    ensures
        span_view(r) == span_of(tree_view(*tt)),
{
    tt.span()
}

/// `proc_macro2::Span::start`: the line and column where the span begins.
#[verifier::external_body]
pub(crate) fn span_start(span: proc_macro2::Span) -> (r: LineColumn)
    ensures
        r == span_view(span).start,
{
    let at = span.start();
    LineColumn { line: at.line, column: at.column }
}

/// `proc_macro2::Span::end`: the line and column where the span ends.
#[verifier::external_body]
pub(crate) fn span_end(span: proc_macro2::Span) -> (r: LineColumn)
    ensures
        r == span_view(span).end,
{
    let at = span.end();
    LineColumn { line: at.line, column: at.column }
}

/// The variants of `proc_macro2::TokenTree`, told apart.
#[verifier::external_body]
pub(crate) fn split_tree<'a>(tt: &'a proc_macro2::TokenTree) -> (r: RawTree<'a>)
    ensures
        match r {
            RawTree::Group(g) => tree_view(*tt) == TokenView::Group(group_view(*g)),
            RawTree::Ident(i) => tree_view(*tt) == TokenView::Ident(ident_view(*i)),
            RawTree::Punct(p) => tree_view(*tt) == TokenView::Punct(punct_view(*p)),
            RawTree::Literal(l) => tree_view(*tt) == TokenView::Literal(literal_view(*l)),
        },
{
    match tt {
        proc_macro2::TokenTree::Group(g) => RawTree::Group(g),
        proc_macro2::TokenTree::Ident(i) => RawTree::Ident(i),
        proc_macro2::TokenTree::Punct(p) => RawTree::Punct(p),
        proc_macro2::TokenTree::Literal(l) => RawTree::Literal(l),
    }
}

/// `proc_macro2::Group::delimiter`.
#[verifier::external_body]
pub(crate) fn group_delimiter(g: &proc_macro2::Group) -> (r: Delimiter)
    ensures
        r == group_view(*g).delimiter,
{
    match g.delimiter() {
        proc_macro2::Delimiter::Parenthesis => Delimiter::Parenthesis,
        proc_macro2::Delimiter::Brace => Delimiter::Brace,
        proc_macro2::Delimiter::Bracket => Delimiter::Bracket,
        proc_macro2::Delimiter::None => Delimiter::Invisible,
    }
}

/// `proc_macro2::Group::stream`: the tokens between the delimiters.
#[verifier::external_body]
pub(crate) fn group_stream(g: &proc_macro2::Group) -> (r: proc_macro2::TokenStream)
    ensures
        stream_view(r) == group_view(*g).stream,
{
    g.stream()
}

/// `proc_macro2::Ident`, printed: the text of the identifier, after `r#`
/// where it is raw. An identifier that is not raw prints without any `#`.
#[verifier::external_body]
pub(crate) fn ident_text(i: &proc_macro2::Ident) -> (r: String)
    ensures
        r@ == rendered_token(TokenView::Ident(ident_view(*i))),
        !ident_view(*i).raw ==> !r@.contains('#'),
{
    i.to_string()
}

/// `proc_macro2::Punct::as_char`.
#[verifier::external_body]
pub(crate) fn punct_char(p: &proc_macro2::Punct) -> (r: char)
    ensures
        r == punct_view(*p).ch,
{
    p.as_char()
}

/// `proc_macro2::Punct::spacing`.
#[verifier::external_body]
pub(crate) fn punct_spacing(p: &proc_macro2::Punct) -> (r: Spacing)
    ensures
        r == punct_view(*p).spacing,
{
    match p.spacing() {
        proc_macro2::Spacing::Alone => Spacing::Alone,
        proc_macro2::Spacing::Joint => Spacing::Joint,
    }
}

/// `proc_macro2::Literal`, printed: the literal as it stands in source code.
#[verifier::external_body]
pub(crate) fn literal_text(l: &proc_macro2::Literal) -> (r: String)
    ensures
        r@ == literal_view(*l).text,
{
    l.to_string()
}

/// The span of a tree as data, in the given source text.
fn lower_span(tt: &proc_macro2::TokenTree, source: u32) -> (r: MySpanData)
    ensures
        r == placed_span(span_of(tree_view(*tt)), source),
{
    let span = tree_span(tt);
    MySpanData { source, start: span_start(span), end: span_end(span) }
}

/// Splits the printed form of an identifier into its text and its rawness.
fn lower_ident(printed: &str, span: MySpanData, Ghost(iv): Ghost<IdentView>) -> (r: MyIdentData)
    requires
        printed@ == rendered_token(TokenView::Ident(iv)),
        !iv.raw ==> !printed@.contains('#'),
    ensures
        r@ == (IdentView { text: iv.text, raw: iv.raw, span }),
{
    let n = printed.unicode_len();
    let raw = n >= 2 && printed.get_char(0) == 'r' && printed.get_char(1) == '#';
    proof {
        if iv.raw {
            assert(printed@ == seq!['r', '#'] + iv.text);
            assert(printed@[0] == 'r' && printed@[1] == '#');
        } else {
            assert(printed@ =~= iv.text);
            if raw {
                assert(printed@.contains(printed@[1]));
            }
        }
    }
    if raw {
        let text = String::from_str(printed.substring_char(2, n));
        assert(text@ =~= iv.text);
        MyIdentData { text, raw: true, span }
    } else {
        MyIdentData { text: String::from_str(printed), raw: false, span }
    }
}

/// One lexed tree as a token of the model, its spans in the given source
/// text.
pub(crate) fn lower_tree(tt: &proc_macro2::TokenTree, source: u32) -> (r: Token)
    ensures
        r@ == placed_token(tree_view(*tt), source),
    decreases tree_view(*tt),
{
    let span = lower_span(tt, source);
    match split_tree(tt) {
        RawTree::Group(g) => {
            let delimiter = group_delimiter(g);
            let inner = group_stream(g);
            let stream = lower(inner, source);
            let group = MyGroup { delimiter, stream, span };
            proof {
                lemma_group_token_view(group);
            }
            Token::Group(group)
        },
        RawTree::Ident(i) => {
            let printed = ident_text(i);
            Token::Ident(lower_ident(printed.as_str(), span, Ghost(ident_view(*i))))
        },
        RawTree::Punct(p) => Token::Punct(
            MyPunctData { ch: punct_char(p), spacing: punct_spacing(p), span },
        ),
        RawTree::Literal(l) => Token::Literal(MyLiteral { text: literal_text(l), span }),
    }
}

/// A lexed stream as a stream of the model, its spans in the given source
/// text.
pub(crate) fn lower(ts: proc_macro2::TokenStream, source: u32) -> (r: MyTokenStream)
    ensures
        r@ == placed(stream_view(ts), source),
    decreases stream_view(ts),
{
    let trees = stream_trees(ts);
    let n = trees.len();
    let mut out = MyTokenStream::new();
    let mut i: usize = 0;
    while i < n
        invariant
            n == trees@.len(),
            n == stream_view(ts).len(),
            i <= n,
            forall|k: int| 0 <= k < n ==> tree_view(#[trigger] trees@[k]) == stream_view(ts)[k],
            out@ == placed(stream_view(ts), source).take(i as int),
        decreases n - i,
    {
        let token = lower_tree(&trees[i], source);
        out.push(token);
        assert(out@ =~= placed(stream_view(ts), source).take(i + 1));
        i = i + 1;
    }
    assert(placed(stream_view(ts), source).take(n as int) =~= placed(stream_view(ts), source));
    out
}

/// What lexing gives when its tokens are placed in a source text.
pub open spec fn placed_in(tokens: Option<Seq<TokenView>>, source: u32) -> Option<Seq<TokenView>> {
    match tokens {
        Some(s) => Some(placed(s, source)),
        None => None,
    }
}

/// Parses source code into a stream whose spans lie in source text `source`;
/// `None` where the code does not lex.
pub fn parse_string(code: &str, source: u32) -> (r: Option<MyTokenStream>)
    ensures
        match r {
            Some(stream) => Some(stream@) == placed_in(parsed(code@), source),
            None => parsed(code@) is None,
        },
{
    match parse_str(code) {
        Some(ts) => Some(lower(ts, source)),
        None => None,
    }
}

/// Lexes a text into a stream whose spans lie in source text `source`; `None`
/// where the text does not lex.
pub fn lex(text: &str, source: u32) -> (r: Option<MyTokenStream>)
    ensures
        match r {
            Some(stream) => Some(stream@) == placed_in(lexed(text@), source),
            None => lexed(text@) is None,
        },
{
    match lex_str(text) {
        Some(ts) => Some(lower(ts, source)),
        None => None,
    }
}

/// `proc_macro2::Literal::string`: the string literal of a string.
#[verifier::external_body]
fn make_string_literal(s: &str) -> (r: proc_macro2::Literal)
    ensures
        literal_view(r).text == string_literal_text(s@),
{
    proc_macro2::Literal::string(s)
}

/// `proc_macro2::Literal::character`: the character literal of a character.
#[verifier::external_body]
fn make_character_literal(c: char) -> (r: proc_macro2::Literal)
    ensures
        literal_view(r).text == character_literal_text(c),
{
    proc_macro2::Literal::character(c)
}

/// `proc_macro2::Literal::byte_string`: the byte string literal of bytes.
#[verifier::external_body]
fn make_byte_string_literal(bytes: &[u8]) -> (r: proc_macro2::Literal)
    ensures
        literal_view(r).text == byte_string_literal_text(bytes@),
{
    proc_macro2::Literal::byte_string(bytes)
}

/// The text of the string literal of a string.
pub fn string_literal(s: &str) -> (r: String)
    ensures
        r@ == string_literal_text(s@),
{
    literal_text(&make_string_literal(s))
}

/// The text of the character literal of a character.
pub fn character_literal(c: char) -> (r: String)
    ensures
        r@ == character_literal_text(c),
{
    literal_text(&make_character_literal(c))
}

/// The text of the byte string literal of bytes.
pub fn byte_string_literal(bytes: &[u8]) -> (r: String)
    ensures
        r@ == byte_string_literal_text(bytes@),
{
    literal_text(&make_byte_string_literal(bytes))
}

} // verus!
