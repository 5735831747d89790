//! The token model: what a stream of code looks like to the host, and how it
//! is written out as text.
//!
//! The text is written here, by `rendered`, and not by `proc_macro2`: the
//! rules are those by which `proc_macro2` prints a stream and a group, and
//! the tests hold the two against each other.

use crate::interner::{mix, spec_mix, Internable};
use crate::text::{chars_of, push_char};
use vstd::prelude::*;
use vstd::string::*;

verus! {

/// The source number of the call site, which has no text.
pub const CALL_SITE_SOURCE: u32 = 0;

/// The source number of the code that a capability is called on.
pub const CODE_SOURCE: u32 = 1;

/// The source number of the arguments of an attribute.
pub const ATTRIBUTES_SOURCE: u32 = 2;

/// The source number of the first text that a session lexes itself.
pub const FIRST_SESSION_SOURCE: u32 = 3;

/// How a group of tokens is bracketed.
#[derive(Clone, Copy, Debug, PartialEq, Eq, Structural)]
pub enum Delimiter {
    Parenthesis,
    Brace,
    Bracket,
    /// An invisible delimiter: the group prints as its content alone.
    Invisible,
}

/// Whether a punctuation character is directly followed by another one that
/// could join it into a longer operator.
#[derive(Clone, Copy, Debug, PartialEq, Eq, Structural)]
pub enum Spacing {
    Alone,
    Joint,
}

/// A position in a source text: the line counts from 1, the column from 0.
#[derive(Clone, Copy, Debug, PartialEq, Eq, Structural)]
pub struct LineColumn {
    pub line: usize,
    pub column: usize,
}

/// The region of one source text that a token came from.
///
/// `source` tells source texts apart: 0 is the call site, which has no text,
/// 1 and 2 are the code and the attribute arguments that a capability is
/// called on, and every text that a session lexes gets a number of its own.
#[derive(Clone, Copy, Debug, PartialEq, Eq, Structural)]
pub struct MySpanData {
    pub source: u32,
    pub start: LineColumn,
    pub end: LineColumn,
}

/// An identifier: its text without the `r#` prefix, whether it is raw, and
/// where it stood.
#[derive(Debug, PartialEq, Eq)]
pub struct MyIdentData {
    pub text: String,
    pub raw: bool,
    pub span: MySpanData,
}

/// A single punctuation character.
#[derive(Clone, Copy, Debug, PartialEq, Eq, Structural)]
pub struct MyPunctData {
    pub ch: char,
    pub spacing: Spacing,
    pub span: MySpanData,
}

/// A literal, kept as the text that stands for it in source code.
#[derive(Debug, PartialEq, Eq)]
pub struct MyLiteral {
    pub text: String,
    pub span: MySpanData,
}

/// A delimited stream.
#[derive(Debug, PartialEq, Eq)]
pub struct MyGroup {
    pub delimiter: Delimiter,
    pub stream: MyTokenStream,
    pub span: MySpanData,
}

/// One node of a stream.
#[derive(Debug, PartialEq, Eq)]
pub enum Token {
    Group(MyGroup),
    Ident(MyIdentData),
    Punct(MyPunctData),
    Literal(MyLiteral),
}

/// An ordered sequence of tokens; groups nest to any depth.
#[derive(Debug, PartialEq, Eq)]
pub struct MyTokenStream {
    pub trees: Vec<Token>,
}

/// The mathematical value of an identifier.
pub struct IdentView {
    pub text: Seq<char>,
    pub raw: bool,
    pub span: MySpanData,
}

/// The mathematical value of a literal.
pub struct LiteralView {
    pub text: Seq<char>,
    pub span: MySpanData,
}

/// The mathematical value of a group.
pub struct GroupView {
    pub delimiter: Delimiter,
    pub stream: Seq<TokenView>,
    pub span: MySpanData,
}

/// The mathematical value of a token: a finite tree.
pub enum TokenView {
    Group(GroupView),
    Ident(IdentView),
    Punct(MyPunctData),
    Literal(LiteralView),
}

/// Does position `a` come no later than position `b`?
pub open spec fn precedes(a: LineColumn, b: LineColumn) -> bool {
    a.line < b.line || (a.line == b.line && a.column <= b.column)
}

/// The smallest span that encloses both, where both lie in one source text;
/// spans of different source texts cannot be joined.
pub open spec fn joined(a: MySpanData, b: MySpanData) -> Option<MySpanData> {
    if a.source != b.source {
        None
    } else {
        Some(
            MySpanData {
                source: a.source,
                start: if precedes(a.start, b.start) {
                    a.start
                } else {
                    b.start
                },
                end: if precedes(a.end, b.end) {
                    b.end
                } else {
                    a.end
                },
            },
        )
    }
}

impl LineColumn {
    /// Does this position come no later than `other`?
    pub fn precedes(&self, other: &LineColumn) -> (r: bool)
        ensures
            r == precedes(*self, *other),
    {
        self.line < other.line || (self.line == other.line && self.column <= other.column)
    }
}

impl MySpanData {
    /// The smallest span that encloses this one and `other`; `None` where
    /// the two lie in different source texts.
    pub fn join(&self, other: &MySpanData) -> (r: Option<MySpanData>)
        ensures
            r == joined(*self, *other),
    {
        if self.source != other.source {
            None
        } else {
            Some(
                MySpanData {
                    source: self.source,
                    start: if self.start.precedes(&other.start) {
                        self.start
                    } else {
                        other.start
                    },
                    end: if self.end.precedes(&other.end) {
                        other.end
                    } else {
                        self.end
                    },
                },
            )
        }
    }

    /// The span of the call site: no source text, every position zero.
    pub open spec fn spec_call_site() -> MySpanData {
        MySpanData {
            source: 0,
            start: LineColumn { line: 0, column: 0 },
            end: LineColumn { line: 0, column: 0 },
        }
    }

    #[verifier::when_used_as_spec(spec_call_site)]
    pub fn call_site() -> (r: MySpanData)
        ensures
            r == Self::spec_call_site(),
    {
        MySpanData {
            source: 0,
            start: LineColumn { line: 0, column: 0 },
            end: LineColumn { line: 0, column: 0 },
        }
    }
}

impl View for MySpanData {
    type V = MySpanData;

    open spec fn view(&self) -> MySpanData {
        *self
    }
}

impl View for MyPunctData {
    type V = MyPunctData;

    open spec fn view(&self) -> MyPunctData {
        *self
    }
}

impl View for MyIdentData {
    type V = IdentView;

    open spec fn view(&self) -> IdentView {
        IdentView { text: self.text@, raw: self.raw, span: self.span }
    }
}

impl View for MyLiteral {
    type V = LiteralView;

    open spec fn view(&self) -> LiteralView {
        LiteralView { text: self.text@, span: self.span }
    }
}

/// The value of a token, by recursion over the tree.
pub open spec fn token_view(t: Token) -> TokenView
    decreases t,
{
    match t {
        Token::Group(g) => TokenView::Group(
            GroupView {
                delimiter: g.delimiter,
                stream: Seq::new(
                    g.stream.trees@.len(),
                    |i: int|
                        if 0 <= i < g.stream.trees@.len() {
                            token_view(g.stream.trees@[i])
                        } else {
                            arbitrary()
                        },
                ),
                span: g.span,
            },
        ),
        Token::Ident(i) => TokenView::Ident(i@),
        Token::Punct(p) => TokenView::Punct(p),
        Token::Literal(l) => TokenView::Literal(l@),
    }
}

impl View for Token {
    type V = TokenView;

    open spec fn view(&self) -> TokenView {
        token_view(*self)
    }
}

impl View for MyTokenStream {
    type V = Seq<TokenView>;

    open spec fn view(&self) -> Seq<TokenView> {
        Seq::new(self.trees@.len(), |i: int| token_view(self.trees@[i]))
    }
}

impl View for MyGroup {
    type V = GroupView;

    open spec fn view(&self) -> GroupView {
        GroupView { delimiter: self.delimiter, stream: self.stream@, span: self.span }
    }
}

/// The value of a group token is the value of its group.
pub proof fn lemma_group_token_view(g: MyGroup)
    ensures
        Token::Group(g)@ == TokenView::Group(g@),
{
    assert(token_view(Token::Group(g))->Group_0.stream =~= g.stream@);
}

/// The span of a token.
pub open spec fn span_of(t: TokenView) -> MySpanData {
    match t {
        TokenView::Group(g) => g.span,
        TokenView::Ident(i) => i.span,
        TokenView::Punct(p) => p.span,
        TokenView::Literal(l) => l.span,
    }
}

/// The span with its source text replaced.
pub open spec fn placed_span(s: MySpanData, source: u32) -> MySpanData {
    MySpanData { source, start: s.start, end: s.end }
}

/// The token with the source text of every span in it replaced.
pub open spec fn placed_token(t: TokenView, source: u32) -> TokenView
    decreases t,
{
    match t {
        TokenView::Group(g) => TokenView::Group(
            GroupView {
                delimiter: g.delimiter,
                stream: placed(g.stream, source),
                span: placed_span(g.span, source),
            },
        ),
        TokenView::Ident(i) => TokenView::Ident(
            IdentView { text: i.text, raw: i.raw, span: placed_span(i.span, source) },
        ),
        TokenView::Punct(p) => TokenView::Punct(
            MyPunctData { ch: p.ch, spacing: p.spacing, span: placed_span(p.span, source) },
        ),
        TokenView::Literal(l) => TokenView::Literal(
            LiteralView { text: l.text, span: placed_span(l.span, source) },
        ),
    }
}

/// The stream with the source text of every span in it replaced: the tokens
/// are the same in number, order and content.
pub open spec fn placed(s: Seq<TokenView>, source: u32) -> Seq<TokenView>
    decreases s,
{
    Seq::new(
        s.len(),
        |i: int|
            if 0 <= i < s.len() {
                placed_token(s[i], source)
            } else {
                arbitrary()
            },
    )
}

/// What opens a group in text.
pub open spec fn open_text(d: Delimiter) -> Seq<char> {
    match d {
        Delimiter::Parenthesis => seq!['('],
        Delimiter::Brace => seq!['{', ' '],
        Delimiter::Bracket => seq!['['],
        Delimiter::Invisible => Seq::empty(),
    }
}

/// What closes a group in text.
pub open spec fn close_text(d: Delimiter) -> Seq<char> {
    match d {
        Delimiter::Parenthesis => seq![')'],
        Delimiter::Brace => seq!['}'],
        Delimiter::Bracket => seq![']'],
        Delimiter::Invisible => Seq::empty(),
    }
}

/// What stands between token `i` of a stream and the one before it: a single
/// space, unless the token is the first or follows a joint punctuation
/// character.
pub open spec fn gap(s: Seq<TokenView>, i: int) -> Seq<char> {
    if i <= 0 || (s[i - 1] matches TokenView::Punct(p) && p.spacing == Spacing::Joint) {
        Seq::empty()
    } else {
        seq![' ']
    }
}

/// The text of one token. A brace group keeps a space inside each brace, the
/// other groups hug their content; a raw identifier carries `r#`.
pub open spec fn rendered_token(t: TokenView) -> Seq<char>
    decreases t,
{
    match t {
        TokenView::Group(g) => open_text(g.delimiter) + rendered(g.stream) + (if g.delimiter
            == Delimiter::Brace && g.stream.len() > 0 {
            seq![' ']
        } else {
            Seq::empty()
        }) + close_text(g.delimiter),
        TokenView::Ident(i) => (if i.raw {
            seq!['r', '#']
        } else {
            Seq::empty()
        }) + i.text,
        TokenView::Punct(p) => seq![p.ch],
        TokenView::Literal(l) => l.text,
    }
}

/// The text of a stream: its tokens in order, each after its gap.
pub open spec fn rendered(s: Seq<TokenView>) -> Seq<char>
    decreases s,
{
    if s.len() == 0 {
        Seq::empty()
    } else {
        rendered(s.drop_last()) + gap(s, s.len() - 1) + rendered_token(s.last())
    }
}

/// The text of a token does not depend on where the token stood.
pub proof fn lemma_placed_token_text(t: TokenView, source: u32)
    ensures
        rendered_token(placed_token(t, source)) == rendered_token(t),
    decreases t,
{
    match t {
        TokenView::Group(g) => {
            lemma_placed_text(g.stream, source);
        },
        _ => {},
    }
}

/// The text of a stream does not depend on where its tokens stood.
pub proof fn lemma_placed_text(s: Seq<TokenView>, source: u32)
    ensures
        rendered(placed(s, source)) == rendered(s),
    decreases s,
{
    if s.len() > 0 {
        let p = placed(s, source);
        let last = s.len() - 1;
        assert(p.drop_last() =~= placed(s.drop_last(), source));
        assert(p.last() == placed_token(s.last(), source));
        assert(gap(p, last) == gap(s, last)) by {
            if last > 0 {
                assert(p[last - 1] == placed_token(s[last - 1], source));
            }
        }
        lemma_placed_text(s.drop_last(), source);
        lemma_placed_token_text(s.last(), source);
    }
}

/// Rendering the first `i + 1` tokens adds the gap and the text of token `i`
/// to the rendering of the first `i`.
pub proof fn lemma_rendered_step(s: Seq<TokenView>, i: int)
    requires
        0 <= i < s.len(),
    ensures
        rendered(s.take(i + 1)) == rendered(s.take(i)) + gap(s, i) + rendered_token(s[i]),
{
    let t = s.take(i + 1);
    assert(t.drop_last() =~= s.take(i));
    assert(t.last() == s[i]);
    assert(gap(t, i) == gap(s, i)) by {
        if i > 0 {
            assert(t[i - 1] == s[i - 1]);
        }
    }
}

/// The hash of a span: its source and its four positions, mixed in turn.
pub open spec fn span_hash(s: MySpanData) -> u64 {
    spec_mix(
        spec_mix(
            spec_mix(
                spec_mix(spec_mix(0, s.source as u64), s.start.line as u64),
                s.start.column as u64,
            ),
            s.end.line as u64,
        ),
        s.end.column as u64,
    )
}

/// The hash of a text: its characters, mixed in turn.
pub open spec fn text_hash(t: Seq<char>) -> u64
    decreases t.len(),
{
    if t.len() == 0 {
        0
    } else {
        spec_mix(text_hash(t.drop_last()), t.last() as u64)
    }
}

impl MySpanData {
    /// The hash of the span.
    pub fn hash_value(&self) -> (r: u64)
        ensures
            r == span_hash(*self),
    {
        let h = mix(0, self.source as u64);
        let h = mix(h, self.start.line as u64);
        let h = mix(h, self.start.column as u64);
        let h = mix(h, self.end.line as u64);
        mix(h, self.end.column as u64)
    }
}

/// The hash of a text.
pub fn hash_text(text: &str) -> (r: u64)
    ensures
        r == text_hash(text@),
{
    let chars = chars_of(text);
    let n = chars.len();
    let mut h: u64 = 0;
    let mut i: usize = 0;
    assert(chars@.take(0) =~= Seq::<char>::empty());
    while i < n
        invariant
            n == chars@.len(),
            i <= n,
            h == text_hash(chars@.take(i as int)),
        decreases n - i,
    {
        assert(chars@.take(i + 1).drop_last() =~= chars@.take(i as int));
        assert(chars@.take(i + 1).last() == chars@[i as int]);
        h = mix(h, chars[i] as u64);
        i = i + 1;
    }
    assert(chars@.take(n as int) =~= chars@);
    h
}

impl Internable for MySpanData {
    open spec fn spec_hash(v: MySpanData) -> u64 {
        span_hash(v)
    }

    fn same(&self, other: &MySpanData) -> (r: bool) {
        *self == *other
    }

    fn duplicate(&self) -> (r: MySpanData) {
        *self
    }

    fn hash(&self) -> (r: u64) {
        self.hash_value()
    }
}

impl Internable for MyPunctData {
    /// The span and the character; the spacing is left out.
    open spec fn spec_hash(v: MyPunctData) -> u64 {
        spec_mix(span_hash(v.span), v.ch as u64)
    }

    fn same(&self, other: &MyPunctData) -> (r: bool) {
        *self == *other
    }

    fn duplicate(&self) -> (r: MyPunctData) {
        *self
    }

    fn hash(&self) -> (r: u64) {
        mix(self.span.hash_value(), self.ch as u64)
    }
}

impl Internable for MyIdentData {
    /// The text alone.
    open spec fn spec_hash(v: IdentView) -> u64 {
        text_hash(v.text)
    }

    fn hash(&self) -> (r: u64) {
        hash_text(self.text.as_str())
    }

    /// Structural equality: the same text, rawness and span.
    fn same(&self, other: &MyIdentData) -> (r: bool) {
        self.text == other.text && self.raw == other.raw && self.span == other.span
    }

    fn duplicate(&self) -> (r: MyIdentData) {
        self.clone()
    }
}

impl MyLiteral {
    /// A copy with the same value.
    pub fn duplicate(&self) -> (r: MyLiteral)
        ensures
            r@ == self@,
    {
        MyLiteral { text: self.text.clone(), span: self.span }
    }
}

impl Token {
    /// A deep copy with the same value.
    pub fn duplicate(&self) -> (r: Token)
        ensures
            r@ == self@,
        decreases self,
    {
        match self {
            Token::Group(g) => {
                let copy = MyGroup {
                    delimiter: g.delimiter,
                    stream: g.stream.duplicate(),
                    span: g.span,
                };
                proof {
                    lemma_group_token_view(*g);
                    lemma_group_token_view(copy);
                }
                Token::Group(copy)
            },
            Token::Ident(i) => Token::Ident(Internable::duplicate(i)),
            Token::Punct(p) => Token::Punct(*p),
            Token::Literal(l) => Token::Literal(l.duplicate()),
        }
    }
}

impl MyGroup {
    /// A deep copy with the same value.
    pub fn duplicate(&self) -> (r: MyGroup)
        ensures
            r@ == self@,
    {
        MyGroup { delimiter: self.delimiter, stream: self.stream.duplicate(), span: self.span }
    }
}

impl MyTokenStream {
    /// The empty stream.
    pub fn new() -> (r: MyTokenStream)
        ensures
            r@ == Seq::<TokenView>::empty(),
    {
        MyTokenStream { trees: Vec::new() }
    }

    /// Does the stream hold no token?
    pub fn is_empty(&self) -> (r: bool)
        ensures
            r == (self@.len() == 0),
    {
        self.trees.len() == 0
    }

    /// Appends one token.
    pub fn push(&mut self, token: Token)
        ensures
            final(self)@ == old(self)@.push(token@),
    {
        self.trees.push(token);
        assert(self@ =~= old(self)@.push(token@));
    }

    /// A deep copy with the same value.
    pub fn duplicate(&self) -> (r: MyTokenStream)
        ensures
            r@ == self@,
        decreases self,
    {
        let mut out = MyTokenStream { trees: Vec::new() };
        let n = self.trees.len();
        let mut i: usize = 0;
        while i < n
            invariant
                n == self.trees@.len(),
                i <= n,
                out@ == self@.take(i as int),
            decreases n - i,
        {
            let copy = self.trees[i].duplicate();
            out.push(copy);
            assert(self@.take(i + 1) == self@.take(i as int).push(self@[i as int]));
            i = i + 1;
        }
        assert(self@.take(n as int) == self@);
        out
    }

    /// The stream as text.
    pub fn to_string(&self) -> (r: String)
        ensures
            r@ == rendered(self@),
    {
        let mut out = String::new();
        self.render_into(&mut out);
        out
    }

    /// Appends the gap before token `i` to `out`.
    fn push_gap(&self, i: usize, out: &mut String)
        requires
            i < self@.len(),
        ensures
            final(out)@ == old(out)@ + gap(self@, i as int),
    {
        if i > 0 {
            let joint = match &self.trees[i - 1] {
                Token::Punct(p) => p.spacing == Spacing::Joint,
                _ => false,
            };
            if !joint {
                push_char(out, ' ');
            }
        }
        assert(out@ =~= old(out)@ + gap(self@, i as int));
    }

    /// Appends the text of the stream to `out`.
    pub(crate) fn render_into(&self, out: &mut String)
        ensures
            final(out)@ == old(out)@ + rendered(self@),
        decreases self,
    {
        let n = self.trees.len();
        let mut i: usize = 0;
        assert(rendered(self@.take(0)) =~= Seq::<char>::empty());
        assert(out@ =~= old(out)@ + rendered(self@.take(0)));
        while i < n
            invariant
                n == self.trees@.len(),
                i <= n,
                out@ == old(out)@ + rendered(self@.take(i as int)),
            decreases n - i,
        {
            let ghost before = out@;
            self.push_gap(i, out);
            self.trees[i].render_into(out);
            proof {
                lemma_rendered_step(self@, i as int);
                assert(out@ =~= old(out)@ + rendered(self@.take(i + 1)));
            }
            i = i + 1;
        }
        assert(self@.take(n as int) == self@);
    }
}

impl Clone for MyIdentData {
    /// A copy with the same value.
    fn clone(&self) -> (r: MyIdentData)
        ensures
            r@ == self@,
    {
        MyIdentData { text: self.text.clone(), raw: self.raw, span: self.span }
    }
}

impl Clone for MyLiteral {
    /// A copy with the same value.
    fn clone(&self) -> (r: MyLiteral)
        ensures
            r@ == self@,
    {
        self.duplicate()
    }
}

impl Clone for MyTokenStream {
    /// A deep copy with the same value.
    fn clone(&self) -> (r: MyTokenStream)
        ensures
            r@ == self@,
    {
        self.duplicate()
    }
}

impl Clone for MyGroup {
    /// A deep copy with the same value.
    fn clone(&self) -> (r: MyGroup)
        ensures
            r@ == self@,
    {
        self.duplicate()
    }
}

impl Clone for Token {
    /// A deep copy with the same value.
    fn clone(&self) -> (r: Token)
        ensures
            r@ == self@,
    {
        self.duplicate()
    }
}

/// Appends what opens a group to `out`.
fn push_open(d: Delimiter, out: &mut String)
    ensures
        final(out)@ == old(out)@ + open_text(d),
{
    match d {
        Delimiter::Parenthesis => {
            push_char(out, '(');
        },
        Delimiter::Brace => {
            push_char(out, '{');
            push_char(out, ' ');
        },
        Delimiter::Bracket => {
            push_char(out, '[');
        },
        Delimiter::Invisible => {},
    }
    assert(out@ =~= old(out)@ + open_text(d));
}

/// Appends what closes a group to `out`, after the space that a brace group
/// with content keeps inside its closing brace.
fn push_close(d: Delimiter, nonempty: bool, out: &mut String)
    ensures
        final(out)@ == old(out)@ + (if d == Delimiter::Brace && nonempty {
            seq![' ']
        } else {
            Seq::empty()
        }) + close_text(d),
{
    match d {
        Delimiter::Parenthesis => {
            push_char(out, ')');
        },
        Delimiter::Brace => {
            if nonempty {
                push_char(out, ' ');
            }
            push_char(out, '}');
        },
        Delimiter::Bracket => {
            push_char(out, ']');
        },
        Delimiter::Invisible => {},
    }
    assert(out@ =~= old(out)@ + (if d == Delimiter::Brace && nonempty {
        seq![' ']
    } else {
        Seq::empty()
    }) + close_text(d));
}

impl Token {
    /// Appends the text of the token to `out`.
    pub(crate) fn render_into(&self, out: &mut String)
        ensures
            final(out)@ == old(out)@ + rendered_token(self@),
        decreases self,
    {
        match self {
            Token::Group(g) => {
                proof {
                    lemma_group_token_view(*g);
                }
                push_open(g.delimiter, out);
                g.stream.render_into(out);
                push_close(g.delimiter, g.stream.trees.len() > 0, out);
                assert(out@ =~= old(out)@ + rendered_token(self@));
            },
            Token::Ident(id) => {
                if id.raw {
                    push_char(out, 'r');
                    push_char(out, '#');
                }
                out.append(id.text.as_str());
                assert(out@ =~= old(out)@ + rendered_token(self@));
            },
            Token::Punct(p) => {
                push_char(out, p.ch);
                assert(out@ =~= old(out)@ + rendered_token(self@));
            },
            Token::Literal(l) => {
                out.append(l.text.as_str());
            },
        }
    }
}

} // verus!
