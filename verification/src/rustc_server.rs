//! The bridge server: the one mutable object that a capability calls back
//! into while it runs.
//!
//! Token streams, groups and literals cross the boundary by value. Spans,
//! identifiers and punctuation cross it as handles: small integers that only
//! stand for something in the session that gave them out.

use crate::interner::{
    after_intern, handle_of, lemma_handle_of_contained, Internable, Interner, INTERNER_CAPACITY,
};
use crate::lexer::{
    byte_string_literal, byte_string_literal_text, character_literal, character_literal_text, lex,
    lexed, string_literal, string_literal_text,
};
use crate::text::{decimal, decimal_text, same_text};
use crate::tokens::{
    joined, lemma_group_token_view, placed, placed_token, rendered, Delimiter, GroupView,
    IdentView, LineColumn, LiteralView, MyGroup, MyIdentData, MyLiteral, MyPunctData, MySpanData,
    MyTokenStream, Spacing, Token, TokenView, FIRST_SESSION_SOURCE,
};
use vstd::prelude::*;
use vstd::string::*;

verus! {

/// The handle of a punctuation character.
#[derive(Hash, Eq, PartialEq, Copy, Clone, Debug, Structural)]
pub struct MyPunct {
    pub session: u32,
    pub index: u32,
}

/// The handle of an identifier.
#[derive(Hash, Eq, PartialEq, Copy, Clone, Debug, Structural)]
pub struct MyIdent {
    pub session: u32,
    pub index: u32,
}

/// The handle of a span.
#[derive(Hash, Eq, PartialEq, Copy, Clone, Debug, Structural)]
pub struct MySpan {
    pub session: u32,
    pub index: u32,
}

/// The interner of spans.
pub type MySpanInterner = Interner<MySpanData>;

/// The interner of identifiers.
pub type MyIdentInterner = Interner<MyIdentData>;

/// The interner of punctuation characters.
pub type MyPunctInterner = Interner<MyPunctData>;

/// The operations of the protocol that this server does not carry out.
#[derive(Clone, Copy, Debug, PartialEq, Eq, Structural)]
pub enum Operation {
    LiteralDebug,
    LiteralInteger,
    LiteralTypedInteger,
    LiteralFloat,
    LiteralF32,
    LiteralF64,
    DiagnosticNew,
    DiagnosticSub,
    SpanDebug,
    MultiSpanNew,
    MultiSpanPush,
}

/// Why the server did not carry out an operation.
#[derive(Clone, Copy, Debug, PartialEq, Eq, Structural)]
pub enum ServerError {
    /// A handle that this session never gave out.
    ForeignHandle,
    /// An operation that the server does not carry out.
    Unsupported(Operation),
    /// A text that does not lex.
    MalformedSource,
    /// A text that is no identifier.
    InvalidIdent,
    /// A raw identifier made from a word that cannot be raw.
    ReservedRawIdent,
    /// A character that is no punctuation.
    UnsupportedPunct,
    /// An interner holds as many values as handles can tell apart.
    TableFull,
    /// The session has numbered as many source texts as it can.
    SourcesExhausted,
}

/// A node as it crosses the boundary: groups and literals by value,
/// identifiers and punctuation by handle.
#[derive(Debug, PartialEq, Eq)]
pub enum MyTokenTree {
    Group(MyGroup),
    Ident(MyIdent),
    Punct(MyPunct),
    Literal(MyLiteral),
}

/// The mathematical value of a `MyTokenTree`.
pub enum TreeView {
    Group(GroupView),
    Ident(MyIdent),
    Punct(MyPunct),
    Literal(LiteralView),
}

impl View for MyTokenTree {
    type V = TreeView;

    open spec fn view(&self) -> TreeView {
        match self {
            MyTokenTree::Group(g) => TreeView::Group(g@),
            MyTokenTree::Ident(i) => TreeView::Ident(*i),
            MyTokenTree::Punct(p) => TreeView::Punct(*p),
            MyTokenTree::Literal(l) => TreeView::Literal(l@),
        }
    }
}

/// The source text that a span lies in.
#[derive(Clone, Copy, Debug, PartialEq, Eq, Structural)]
pub struct SourceFile {
    pub source: u32,
}

/// How grave a diagnostic is.
#[derive(Clone, Copy, Debug, PartialEq, Eq, Structural)]
pub enum Level {
    Error,
    Warning,
    Note,
    Help,
}

/// A set of spans that a diagnostic points at.
#[derive(Debug)]
pub struct MultiSpan {
    pub spans: Vec<MySpan>,
}

/// A message for the user of the capability.
#[derive(Debug)]
pub struct Diagnostic {
    pub level: Level,
    pub message: String,
    pub spans: MultiSpan,
}

/// The word for a level.
pub open spec fn level_text(level: Level) -> Seq<char> {
    match level {
        Level::Error => "error"@,
        Level::Warning => "warning"@,
        Level::Note => "note"@,
        Level::Help => "help"@,
    }
}

/// The line that shows a diagnostic: the level, a colon, and the message.
pub open spec fn diagnostic_text(level: Level, message: Seq<char>) -> Seq<char> {
    level_text(level) + ": "@ + message
}

/// The characters that are punctuation.
pub open spec fn is_punct_char(ch: char) -> bool {
    ch == '!' || ch == '#' || ch == '$' || ch == '%' || ch == '&' || ch == '\'' || ch == '*'
        || ch == '+' || ch == ',' || ch == '-' || ch == '.' || ch == '/' || ch == ':' || ch == ';'
        || ch == '<' || ch == '=' || ch == '>' || ch == '?' || ch == '@' || ch == '^' || ch == '|'
        || ch == '~'
}

/// The words that cannot be raw identifiers.
pub open spec fn is_reserved_raw(text: Seq<char>) -> bool {
    text == "_"@ || text == "super"@ || text == "self"@ || text == "Self"@ || text == "crate"@
}

/// Is the text an identifier: does it lex as one identifier that is not raw
/// and has exactly this text?
pub open spec fn lexes_as_ident(text: Seq<char>) -> bool {
    match lexed(text) {
        Some(tokens) => tokens.len() == 1 && match tokens[0] {
            TokenView::Ident(i) => i.text == text && !i.raw,
            _ => false,
        },
        None => false,
    }
}

/// The name of a source text: the call site has none to speak of, and a
/// lexed text is known by its number.
pub open spec fn source_path(source: u32) -> Seq<char> {
    if source == 0 {
        "<unspecified>"@
    } else {
        "<parsed string "@ + decimal(source as nat) + ">"@
    }
}

/// Collects streams into one.
#[derive(Debug)]
pub struct TokenStreamBuilder {
    acc: MyTokenStream,
}

impl View for TokenStreamBuilder {
    type V = Seq<TokenView>;

    closed spec fn view(&self) -> Seq<TokenView> {
        self.acc@
    }
}

impl TokenStreamBuilder {
    /// A builder that has collected nothing.
    pub fn new() -> (r: TokenStreamBuilder)
        ensures
            r@ == Seq::<TokenView>::empty(),
    {
        TokenStreamBuilder { acc: MyTokenStream::new() }
    }

    /// Appends the tokens of `stream`, in their order, to what was collected.
    pub fn push(&mut self, stream: MyTokenStream)
        ensures
            final(self)@ == old(self)@ + stream@,
    {
        let mut trees = stream.trees;
        self.acc.trees.append(&mut trees);
        assert(self.acc@ =~= old(self).acc@ + stream@);
    }

    /// The one stream of everything collected.
    pub fn build(self) -> (r: MyTokenStream)
        ensures
            r@ == self@,
    {
        self.acc
    }
}

/// Walks a stream once, front to back.
#[derive(Debug)]
pub struct TokenStreamIter {
    /// What is still to come, the next token last.
    rest: Vec<Token>,
}

impl View for TokenStreamIter {
    type V = Seq<TokenView>;

    /// The tokens still to come, the next one first.
    closed spec fn view(&self) -> Seq<TokenView> {
        Seq::new(self.rest@.len(), |i: int| self.rest@[self.rest@.len() - 1 - i]@)
    }
}

impl TokenStreamIter {
    /// An iterator over the tokens of `stream`.
    pub fn new(stream: MyTokenStream) -> (r: TokenStreamIter)
        ensures
            r@ == stream@,
    {
        let mut trees = stream.trees;
        let ghost all = trees@;
        let mut rest: Vec<Token> = Vec::new();
        while trees.len() > 0
            invariant
                trees@.len() + rest@.len() == all.len(),
                forall|i: int| 0 <= i < trees@.len() ==> trees@[i] == all[i],
                forall|i: int| 0 <= i < rest@.len() ==> rest@[i] == all[all.len() - 1 - i],
            decreases trees@.len(),
        {
            let t = trees.pop().unwrap();
            rest.push(t);
        }
        let r = TokenStreamIter { rest };
        assert(r@ =~= stream@);
        r
    }

    /// How many tokens are still to come.
    pub fn remaining(&self) -> (r: usize)
        ensures
            r == self@.len(),
    {
        self.rest.len()
    }
}

impl Clone for TokenStreamIter {
    /// An iterator with the same tokens still to come.
    fn clone(&self) -> (r: TokenStreamIter)
        ensures
            r@ == self@,
    {
        let n = self.rest.len();
        let mut rest: Vec<Token> = Vec::new();
        let mut i: usize = 0;
        while i < n
            invariant
                n == self.rest@.len(),
                i <= n,
                rest@.len() == i,
                forall|k: int| 0 <= k < i ==> (#[trigger] rest@[k])@ == self.rest@[k]@,
            decreases n - i,
        {
            rest.push(self.rest[i].duplicate());
            i = i + 1;
        }
        let r = TokenStreamIter { rest };
        assert(r@ =~= self@);
        r
    }
}

/// What a session knows: its tag, the number of the next source text, and
/// the three tables of interned values, each indexed by handle.
pub struct ServerState {
    pub session: u32,
    pub next_source: u32,
    pub spans: Seq<MySpanData>,
    pub idents: Seq<IdentView>,
    pub puncts: Seq<MyPunctData>,
}

impl ServerState {
    /// The tables hold no more values than handles can tell apart.
    pub open spec fn valid(self) -> bool {
        &&& self.spans.len() <= INTERNER_CAPACITY
        &&& self.idents.len() <= INTERNER_CAPACITY
        &&& self.puncts.len() <= INTERNER_CAPACITY
    }

    /// Did this session give out the span handle?
    pub open spec fn knows_span(self, h: MySpan) -> bool {
        h.session == self.session && h.index < self.spans.len()
    }

    /// Did this session give out the identifier handle?
    pub open spec fn knows_ident(self, h: MyIdent) -> bool {
        h.session == self.session && h.index < self.idents.len()
    }

    /// Did this session give out the punctuation handle?
    pub open spec fn knows_punct(self, h: MyPunct) -> bool {
        h.session == self.session && h.index < self.puncts.len()
    }

    /// Is there a handle for the span: an old one, or room for a new one?
    pub open spec fn span_room(self, data: MySpanData) -> bool {
        self.spans.contains(data) || self.spans.len() < INTERNER_CAPACITY
    }

    /// Is there a handle for the identifier?
    pub open spec fn ident_room(self, data: IdentView) -> bool {
        self.idents.contains(data) || self.idents.len() < INTERNER_CAPACITY
    }

    /// Is there a handle for the punctuation character?
    pub open spec fn punct_room(self, data: MyPunctData) -> bool {
        self.puncts.contains(data) || self.puncts.len() < INTERNER_CAPACITY
    }

    /// The handle that interning the span gives.
    pub open spec fn span_handle(self, data: MySpanData) -> MySpan {
        MySpan { session: self.session, index: handle_of(self.spans, data) as u32 }
    }

    /// The handle that interning the identifier gives.
    pub open spec fn ident_handle(self, data: IdentView) -> MyIdent {
        MyIdent { session: self.session, index: handle_of(self.idents, data) as u32 }
    }

    /// The handle that interning the punctuation character gives.
    pub open spec fn punct_handle(self, data: MyPunctData) -> MyPunct {
        MyPunct { session: self.session, index: handle_of(self.puncts, data) as u32 }
    }

    /// The session after interning the span.
    pub open spec fn with_span(self, data: MySpanData) -> ServerState {
        ServerState { spans: after_intern(self.spans, data), ..self }
    }

    /// The session after interning the identifier.
    pub open spec fn with_ident(self, data: IdentView) -> ServerState {
        ServerState { idents: after_intern(self.idents, data), ..self }
    }

    /// The session after interning the punctuation character.
    pub open spec fn with_punct(self, data: MyPunctData) -> ServerState {
        ServerState { puncts: after_intern(self.puncts, data), ..self }
    }
}

/// What interning a span does: the handle comes back and the session has
/// grown by at most that span, or the span table is full and nothing changed.
pub open spec fn interned_span(
    before: ServerState,
    after: ServerState,
    data: MySpanData,
    r: Result<MySpan, ServerError>,
) -> bool {
    if before.span_room(data) {
        r == Ok::<MySpan, ServerError>(before.span_handle(data)) && after == before.with_span(data)
    } else {
        r == Err::<MySpan, ServerError>(ServerError::TableFull) && after == before
    }
}

/// What interning an identifier does.
pub open spec fn interned_ident(
    before: ServerState,
    after: ServerState,
    data: IdentView,
    r: Result<MyIdent, ServerError>,
) -> bool {
    if before.ident_room(data) {
        r == Ok::<MyIdent, ServerError>(before.ident_handle(data)) && after == before.with_ident(
            data,
        )
    } else {
        r == Err::<MyIdent, ServerError>(ServerError::TableFull) && after == before
    }
}

/// What interning a punctuation character does.
pub open spec fn interned_punct(
    before: ServerState,
    after: ServerState,
    data: MyPunctData,
    r: Result<MyPunct, ServerError>,
) -> bool {
    if before.punct_room(data) {
        r == Ok::<MyPunct, ServerError>(before.punct_handle(data)) && after == before.with_punct(
            data,
        )
    } else {
        r == Err::<MyPunct, ServerError>(ServerError::TableFull) && after == before
    }
}

/// The token that a tree stands for in a session: handles are looked up, and
/// one that the session never gave out stands for nothing.
pub open spec fn tree_token(state: ServerState, tree: TreeView) -> Option<TokenView> {
    match tree {
        TreeView::Group(g) => Some(TokenView::Group(g)),
        TreeView::Ident(h) => if state.knows_ident(h) {
            Some(TokenView::Ident(state.idents[h.index as int]))
        } else {
            None
        },
        TreeView::Punct(h) => if state.knows_punct(h) {
            Some(TokenView::Punct(state.puncts[h.index as int]))
        } else {
            None
        },
        TreeView::Literal(l) => Some(TokenView::Literal(l)),
    }
}

/// What handing out a token does: the tree that crosses the boundary and the
/// session afterwards, or the reason why the token stays where it is.
/// Identifiers and punctuation are interned; groups and literals go as they
/// are.
pub open spec fn handed_out(state: ServerState, token: TokenView) -> Result<
    (TreeView, ServerState),
    ServerError,
> {
    match token {
        TokenView::Group(g) => Ok((TreeView::Group(g), state)),
        TokenView::Ident(i) => if state.ident_room(i) {
            Ok((TreeView::Ident(state.ident_handle(i)), state.with_ident(i)))
        } else {
            Err(ServerError::TableFull)
        },
        TokenView::Punct(p) => if state.punct_room(p) {
            Ok((TreeView::Punct(state.punct_handle(p)), state.with_punct(p)))
        } else {
            Err(ServerError::TableFull)
        },
        TokenView::Literal(l) => Ok((TreeView::Literal(l), state)),
    }
}

/// A handle that interning gave out resolves, in the session as it is
/// afterwards, to the value that was interned.
pub proof fn lemma_issued_handles_resolve(
    before: ServerState,
    span: MySpanData,
    ident: IdentView,
    punct: MyPunctData,
)
    requires
        before.valid(),
    ensures
        before.span_room(span) ==> before.with_span(span).knows_span(before.span_handle(span))
            && before.with_span(span).spans[before.span_handle(span).index as int] == span,
        before.ident_room(ident) ==> before.with_ident(ident).knows_ident(
            before.ident_handle(ident),
        ) && before.with_ident(ident).idents[before.ident_handle(ident).index as int] == ident,
        before.punct_room(punct) ==> before.with_punct(punct).knows_punct(
            before.punct_handle(punct),
        ) && before.with_punct(punct).puncts[before.punct_handle(punct).index as int] == punct,
{
    if before.spans.contains(span) {
        lemma_handle_of_contained(before.spans, span);
    }
    if before.idents.contains(ident) {
        lemma_handle_of_contained(before.idents, ident);
    }
    if before.puncts.contains(punct) {
        lemma_handle_of_contained(before.puncts, punct);
    }
}

/// No handle is ever taken back: what a session knew before a value was
/// interned it knows afterwards, and it stands for the same value.
pub proof fn lemma_handles_stay_known(
    before: ServerState,
    span: MySpanData,
    ident: IdentView,
    punct: MyPunctData,
    s: MySpan,
    i: MyIdent,
    p: MyPunct,
)
    ensures
        before.knows_span(s) ==> before.with_span(span).knows_span(s) && before.with_span(
            span,
        ).spans[s.index as int] == before.spans[s.index as int],
        before.knows_ident(i) ==> before.with_ident(ident).knows_ident(i) && before.with_ident(
            ident,
        ).idents[i.index as int] == before.idents[i.index as int],
        before.knows_punct(p) ==> before.with_punct(punct).knows_punct(p) && before.with_punct(
            punct,
        ).puncts[p.index as int] == before.puncts[p.index as int],
        before.knows_span(s) ==> before.with_ident(ident).knows_span(s) && before.with_punct(
            punct,
        ).knows_span(s),
        before.knows_ident(i) ==> before.with_span(span).knows_ident(i) && before.with_punct(
            punct,
        ).knows_ident(i),
        before.knows_punct(p) ==> before.with_span(span).knows_punct(p) && before.with_ident(
            ident,
        ).knows_punct(p),
{
}

/// A handle of another session is known to no session but its own.
pub proof fn lemma_foreign_handles_are_unknown(state: ServerState, s: MySpan, i: MyIdent, p: MyPunct)
    ensures
        s.session != state.session ==> !state.knows_span(s),
        i.session != state.session ==> !state.knows_ident(i),
        p.session != state.session ==> !state.knows_punct(p),
{
}

/// The server of one session.
pub struct Rustc {
    session: u32,
    next_source: u32,
    span_interner: MySpanInterner,
    ident_interner: MyIdentInterner,
    punct_interner: MyPunctInterner,
}

impl View for Rustc {
    type V = ServerState;

    closed spec fn view(&self) -> ServerState {
        ServerState {
            session: self.session,
            next_source: self.next_source,
            spans: self.span_interner@,
            idents: self.ident_interner@,
            puncts: self.punct_interner@,
        }
    }
}

impl Rustc {
    /// The server is well formed: so are its three interners.
    pub closed spec fn wf(&self) -> bool {
        &&& self.span_interner.wf()
        &&& self.ident_interner.wf()
        &&& self.punct_interner.wf()
    }

    /// The tables of a well-formed server hold no more values than handles
    /// can tell apart.
    pub proof fn lemma_valid(&self)
        requires
            self.wf(),
        ensures
            self@.valid(),
    {
        self.span_interner.lemma_bounded();
        self.ident_interner.lemma_bounded();
        self.punct_interner.lemma_bounded();
    }

    /// The state of a session that has just begun.
    pub open spec fn fresh(session: u32) -> ServerState {
        ServerState {
            session,
            next_source: FIRST_SESSION_SOURCE,
            spans: Seq::empty(),
            idents: Seq::empty(),
            puncts: Seq::empty(),
        }
    }

    /// A server for the session with the given tag. It has given out no
    /// handle yet, and the first text it lexes gets the first source number
    /// that is free for sessions.
    pub fn new(session: u32) -> (r: Rustc)
        ensures
            r.wf(),
            r@ == Self::fresh(session),
    {
        Rustc {
            session,
            next_source: FIRST_SESSION_SOURCE,
            span_interner: Interner::new(),
            ident_interner: Interner::new(),
            punct_interner: Interner::new(),
        }
    }

    /// The handle of a span, interning it where it is new.
    fn intern_span(&mut self, data: MySpanData) -> (r: Result<MySpan, ServerError>)
        requires
            old(self).wf(),
        ensures
            final(self).wf(),
            interned_span(old(self)@, final(self)@, data, r),
    {
        match self.span_interner.intern(&data) {
            Some(index) => Ok(MySpan { session: self.session, index }),
            None => Err(ServerError::TableFull),
        }
    }

    /// The span behind a handle of this session.
    fn resolve_span(&self, h: MySpan) -> (r: Result<MySpanData, ServerError>)
        requires
            self.wf(),
        ensures
            match r {
                Ok(data) => self@.knows_span(h) && data == self@.spans[h.index as int],
                Err(e) => !self@.knows_span(h) && e == ServerError::ForeignHandle,
            },
    {
        if h.session != self.session {
            return Err(ServerError::ForeignHandle);
        }
        match self.span_interner.get(h.index) {
            Some(data) => Ok(*data),
            None => Err(ServerError::ForeignHandle),
        }
    }

    /// The handle of an identifier, interning it where it is new.
    fn intern_ident(&mut self, data: &MyIdentData) -> (r: Result<MyIdent, ServerError>)
        requires
            old(self).wf(),
        ensures
            final(self).wf(),
            interned_ident(old(self)@, final(self)@, data@, r),
    {
        match self.ident_interner.intern(data) {
            Some(index) => Ok(MyIdent { session: self.session, index }),
            None => Err(ServerError::TableFull),
        }
    }

    /// The handle of a punctuation character, interning it where it is new.
    fn intern_punct(&mut self, data: MyPunctData) -> (r: Result<MyPunct, ServerError>)
        requires
            old(self).wf(),
        ensures
            final(self).wf(),
            interned_punct(old(self)@, final(self)@, data, r),
    {
        match self.punct_interner.intern(&data) {
            Some(index) => Ok(MyPunct { session: self.session, index }),
            None => Err(ServerError::TableFull),
        }
    }

    /// The identifier behind a handle of this session.
    fn resolve_ident(&self, h: MyIdent) -> (r: Result<&MyIdentData, ServerError>)
        requires
            self.wf(),
        ensures
            match r {
                Ok(data) => self@.knows_ident(h) && data@ == self@.idents[h.index as int],
                Err(e) => !self@.knows_ident(h) && e == ServerError::ForeignHandle,
            },
    {
        if h.session != self.session {
            return Err(ServerError::ForeignHandle);
        }
        match self.ident_interner.get(h.index) {
            Some(data) => Ok(data),
            None => Err(ServerError::ForeignHandle),
        }
    }

    /// The punctuation character behind a handle of this session.
    fn resolve_punct(&self, h: MyPunct) -> (r: Result<MyPunctData, ServerError>)
        requires
            self.wf(),
        ensures
            match r {
                Ok(data) => self@.knows_punct(h) && data == self@.puncts[h.index as int],
                Err(e) => !self@.knows_punct(h) && e == ServerError::ForeignHandle,
            },
    {
        if h.session != self.session {
            return Err(ServerError::ForeignHandle);
        }
        match self.punct_interner.get(h.index) {
            Some(data) => Ok(*data),
            None => Err(ServerError::ForeignHandle),
        }
    }

    /// The empty stream.
    pub fn token_stream_new(&mut self) -> (r: MyTokenStream)
        ensures
            *final(self) == *old(self),
            r@ == Seq::<TokenView>::empty(),
    {
        MyTokenStream::new()
    }

    /// Does the stream hold no token?
    pub fn token_stream_is_empty(&mut self, stream: &MyTokenStream) -> (r: bool)
        ensures
            *final(self) == *old(self),
            r == (stream@.len() == 0),
    {
        stream.is_empty()
    }

    /// Lexes a text. The text becomes the next source text of the session:
    /// the spans of its tokens carry that number, and the number is then
    /// used up. A text that does not lex, or one that comes when the numbers
    /// have run out, changes nothing.
    pub fn token_stream_from_str(&mut self, src: &str) -> (r: Result<MyTokenStream, ServerError>)
        requires
            old(self).wf(),
        ensures
            final(self).wf(),
            match lexed(src@) {
                None => r == Err::<MyTokenStream, ServerError>(ServerError::MalformedSource)
                    && final(self)@ == old(self)@,
                Some(tokens) => if old(self)@.next_source == u32::MAX {
                    r == Err::<MyTokenStream, ServerError>(ServerError::SourcesExhausted)
                        && final(self)@ == old(self)@
                } else {
                    &&& r is Ok
                    &&& r->Ok_0@ == placed(tokens, old(self)@.next_source)
                    &&& final(self)@ == ServerState {
                        next_source: (old(self)@.next_source + 1) as u32,
                        ..old(self)@
                    }
                },
            },
    {
        match lex(src, self.next_source) {
            None => Err(ServerError::MalformedSource),
            Some(stream) => {
                if self.next_source == u32::MAX {
                    Err(ServerError::SourcesExhausted)
                } else {
                    self.next_source = self.next_source + 1;
                    Ok(stream)
                }
            },
        }
    }

    /// The stream as text.
    pub fn token_stream_to_string(&mut self, stream: &MyTokenStream) -> (r: String)
        ensures
            *final(self) == *old(self),
            r@ == rendered(stream@),
    {
        stream.to_string()
    }

    /// The stream of the one token that a tree stands for. A tree with a
    /// handle that this session never gave out is refused.
    pub fn token_stream_from_token_tree(&mut self, tree: MyTokenTree) -> (r: Result<
        MyTokenStream,
        ServerError,
    >)
        requires
            old(self).wf(),
        ensures
            *final(self) == *old(self),
            match tree_token(old(self)@, tree@) {
                Some(token) => r is Ok && r->Ok_0@ == seq![token],
                None => r == Err::<MyTokenStream, ServerError>(ServerError::ForeignHandle),
            },
    {
        let token = match tree {
            MyTokenTree::Group(group) => {
                proof {
                    lemma_group_token_view(group);
                }
                Token::Group(group)
            },
            MyTokenTree::Ident(h) => {
                match self.resolve_ident(h) {
                    Ok(data) => Token::Ident(data.duplicate()),
                    Err(e) => {
                        return Err(e);
                    },
                }
            },
            MyTokenTree::Literal(literal) => Token::Literal(literal),
            MyTokenTree::Punct(h) => {
                match self.resolve_punct(h) {
                    Ok(data) => Token::Punct(data),
                    Err(e) => {
                        return Err(e);
                    },
                }
            },
        };
        let mut stream = MyTokenStream::new();
        stream.push(token);
        assert(stream@ =~= seq![token@]);
        Ok(stream)
    }

    /// An iterator over the tokens of the stream.
    pub fn token_stream_into_iter(&mut self, stream: MyTokenStream) -> (r: TokenStreamIter)
        ensures
            *final(self) == *old(self),
            r@ == stream@,
    {
        TokenStreamIter::new(stream)
    }

    /// A builder that has collected nothing.
    pub fn token_stream_builder_new(&mut self) -> (r: TokenStreamBuilder)
        ensures
            *final(self) == *old(self),
            r@ == Seq::<TokenView>::empty(),
    {
        TokenStreamBuilder::new()
    }

    /// Appends the tokens of `stream` to what the builder collected.
    pub fn token_stream_builder_push(
        &mut self,
        builder: &mut TokenStreamBuilder,
        stream: MyTokenStream,
    )
        ensures
            *final(self) == *old(self),
            final(builder)@ == old(builder)@ + stream@,
    {
        builder.push(stream)
    }

    /// The one stream of everything the builder collected.
    pub fn token_stream_builder_build(&mut self, builder: TokenStreamBuilder) -> (r: MyTokenStream)
        ensures
            *final(self) == *old(self),
            r@ == builder@,
    {
        builder.build()
    }

    /// Hands out the next token of the iterator, if there is one. An
    /// identifier or a punctuation character is interned and goes out as its
    /// handle; a group or a literal goes out as it is. Where the interner is
    /// full the token stays in the iterator.
    pub fn token_stream_iter_next(&mut self, iter: &mut TokenStreamIter) -> (r: Result<
        Option<MyTokenTree>,
        ServerError,
    >)
        requires
            old(self).wf(),
        ensures
            final(self).wf(),
            old(iter)@.len() == 0 ==> r is Ok && r->Ok_0 is None && final(iter)@ == old(iter)@
                && final(self)@ == old(self)@,
            old(iter)@.len() > 0 ==> match handed_out(old(self)@, old(iter)@[0]) {
                Ok((tree, state)) => {
                    &&& r is Ok
                    &&& r->Ok_0 is Some
                    &&& r->Ok_0->Some_0@ == tree
                    &&& final(self)@ == state
                    &&& final(iter)@ == old(iter)@.drop_first()
                },
                Err(e) => r == Err::<Option<MyTokenTree>, ServerError>(e) && final(iter)@ == old(iter)@ && final(self)@ == old(self)@,
            },
    {
        let n = iter.rest.len();
        if n == 0 {
            return Ok(None);
        }
        assert(old(iter)@[0] == iter.rest@[n - 1]@);
        let token = iter.rest.pop().unwrap();
        assert(iter@ =~= old(iter)@.drop_first());
        match token {
            Token::Group(group) => {
                proof {
                    lemma_group_token_view(group);
                }
                Ok(Some(MyTokenTree::Group(group)))
            },
            Token::Ident(data) => {
                match self.intern_ident(&data) {
                    Ok(h) => Ok(Some(MyTokenTree::Ident(h))),
                    Err(e) => {
                        iter.rest.push(Token::Ident(data));
                        assert(iter@ =~= old(iter)@);
                        Err(e)
                    },
                }
            },
            Token::Punct(data) => {
                match self.intern_punct(data) {
                    Ok(h) => Ok(Some(MyTokenTree::Punct(h))),
                    Err(e) => {
                        iter.rest.push(Token::Punct(data));
                        assert(iter@ =~= old(iter)@);
                        Err(e)
                    },
                }
            },
            Token::Literal(literal) => Ok(Some(MyTokenTree::Literal(literal))),
        }
    }

    /// A group of the stream between the given delimiters, with the span of
    /// the call site.
    pub fn group_new(&mut self, delimiter: Delimiter, stream: MyTokenStream) -> (r: MyGroup)
        ensures
            *final(self) == *old(self),
            r@ == (GroupView { delimiter, stream: stream@, span: MySpanData::call_site() }),
    {
        MyGroup { delimiter, stream, span: MySpanData::call_site() }
    }

    /// The delimiter of the group.
    pub fn group_delimiter(&mut self, group: &MyGroup) -> (r: Delimiter)
        ensures
            *final(self) == *old(self),
            r == group@.delimiter,
    {
        group.delimiter
    }

    /// The stream between the delimiters of the group.
    pub fn group_stream(&mut self, group: &MyGroup) -> (r: MyTokenStream)
        ensures
            *final(self) == *old(self),
            r@ == group@.stream,
    {
        group.stream.duplicate()
    }

    /// The handle of the span of the group.
    pub fn group_span(&mut self, group: &MyGroup) -> (r: Result<MySpan, ServerError>)
        requires
            old(self).wf(),
        ensures
            final(self).wf(),
            interned_span(old(self)@, final(self)@, group@.span, r),
    {
        self.intern_span(group.span)
    }

    /// Gives the group the span behind the handle. A handle that this
    /// session never gave out is refused, and the group stays as it is.
    pub fn group_set_span(&mut self, group: &mut MyGroup, span: MySpan) -> (r: Result<
        (),
        ServerError,
    >)
        requires
            old(self).wf(),
        ensures
            *final(self) == *old(self),
            if old(self)@.knows_span(span) {
                r is Ok && final(group)@ == (GroupView {
                    span: old(self)@.spans[span.index as int],
                    ..old(group)@
                })
            } else {
                r == Err::<(), ServerError>(ServerError::ForeignHandle) && final(group)@ == old(group)@
            },
    {
        match self.resolve_span(span) {
            Ok(data) => {
                group.span = data;
                Ok(())
            },
            Err(e) => Err(e),
        }
    }

    /// The handle of the span of the opening delimiter: the model keeps one
    /// span for the whole group, and this is it.
    pub fn group_span_open(&mut self, group: &MyGroup) -> (r: Result<MySpan, ServerError>)
        requires
            old(self).wf(),
        ensures
            final(self).wf(),
            interned_span(old(self)@, final(self)@, group@.span, r),
    {
        self.intern_span(group.span)
    }

    /// The handle of the span of the closing delimiter: the model keeps one
    /// span for the whole group, and this is it.
    pub fn group_span_close(&mut self, group: &MyGroup) -> (r: Result<MySpan, ServerError>)
        requires
            old(self).wf(),
        ensures
            final(self).wf(),
            interned_span(old(self)@, final(self)@, group@.span, r),
    {
        self.intern_span(group.span)
    }

    /// The handle of a punctuation character with the span of the call site.
    /// A character that is no punctuation is refused.
    pub fn punct_new(&mut self, ch: char, spacing: Spacing) -> (r: Result<MyPunct, ServerError>)
        requires
            old(self).wf(),
        ensures
            final(self).wf(),
            if is_punct_char(ch) {
                interned_punct(
                    old(self)@,
                    final(self)@,
                    MyPunctData { ch, spacing, span: MySpanData::call_site() },
                    r,
                )
            } else {
                r == Err::<MyPunct, ServerError>(ServerError::UnsupportedPunct) && final(self)@
                    == old(self)@
            },
    {
        let known = ch == '!' || ch == '#' || ch == '$' || ch == '%' || ch == '&' || ch == '\''
            || ch == '*' || ch == '+' || ch == ',' || ch == '-' || ch == '.' || ch == '/' || ch
            == ':' || ch == ';' || ch == '<' || ch == '=' || ch == '>' || ch == '?' || ch == '@'
            || ch == '^' || ch == '|' || ch == '~';
        if known {
            self.intern_punct(MyPunctData { ch, spacing, span: MySpanData::call_site() })
        } else {
            Err(ServerError::UnsupportedPunct)
        }
    }

    /// The character behind a punctuation handle.
    pub fn punct_as_char(&mut self, punct: MyPunct) -> (r: Result<char, ServerError>)
        requires
            old(self).wf(),
        ensures
            *final(self) == *old(self),
            if old(self)@.knows_punct(punct) {
                r == Ok::<char, ServerError>(old(self)@.puncts[punct.index as int].ch)
            } else {
                r == Err::<char, ServerError>(ServerError::ForeignHandle)
            },
    {
        match self.resolve_punct(punct) {
            Ok(data) => Ok(data.ch),
            Err(e) => Err(e),
        }
    }

    /// The spacing behind a punctuation handle.
    pub fn punct_spacing(&mut self, punct: MyPunct) -> (r: Result<Spacing, ServerError>)
        requires
            old(self).wf(),
        ensures
            *final(self) == *old(self),
            if old(self)@.knows_punct(punct) {
                r == Ok::<Spacing, ServerError>(old(self)@.puncts[punct.index as int].spacing)
            } else {
                r == Err::<Spacing, ServerError>(ServerError::ForeignHandle)
            },
    {
        match self.resolve_punct(punct) {
            Ok(data) => Ok(data.spacing),
            Err(e) => Err(e),
        }
    }

    /// The handle of the span of a punctuation character.
    pub fn punct_span(&mut self, punct: MyPunct) -> (r: Result<MySpan, ServerError>)
        requires
            old(self).wf(),
        ensures
            final(self).wf(),
            if old(self)@.knows_punct(punct) {
                interned_span(
                    old(self)@,
                    final(self)@,
                    old(self)@.puncts[punct.index as int].span,
                    r,
                )
            } else {
                r == Err::<MySpan, ServerError>(ServerError::ForeignHandle) && final(self)@ == old(self)@
            },
    {
        match self.resolve_punct(punct) {
            Ok(data) => self.intern_span(data.span),
            Err(e) => Err(e),
        }
    }

    /// Overwrites the span of a punctuation character in place: the handle
    /// stays, and now stands for the same character with the new span.
    pub fn punct_with_span(&mut self, punct: MyPunct, span: MySpan) -> (r: Result<
        MyPunct,
        ServerError,
    >)
        requires
            old(self).wf(),
        ensures
            final(self).wf(),
            if old(self)@.knows_punct(punct) && old(self)@.knows_span(span) {
                &&& r == Ok::<MyPunct, ServerError>(punct)
                &&& final(self)@ == ServerState {
                    puncts: old(self)@.puncts.update(
                        punct.index as int,
                        MyPunctData {
                            span: old(self)@.spans[span.index as int],
                            ..old(self)@.puncts[punct.index as int]
                        },
                    ),
                    ..old(self)@
                }
            } else {
                r == Err::<MyPunct, ServerError>(ServerError::ForeignHandle) && final(self)@
                    == old(self)@
            },
    {
        let place = match self.resolve_span(span) {
            Ok(data) => data,
            Err(e) => {
                return Err(e);
            },
        };
        let data = match self.resolve_punct(punct) {
            Ok(data) => data,
            Err(e) => {
                return Err(e);
            },
        };
        let moved = MyPunctData { ch: data.ch, spacing: data.spacing, span: place };
        self.punct_interner.set(punct.index, moved);
        Ok(punct)
    }

    /// The handle of an identifier with the given text, rawness and span.
    /// Refused are a span handle that this session never gave out, a raw
    /// identifier made from a word that cannot be raw, and a text that is no
    /// identifier.
    pub fn ident_new(&mut self, string: &str, span: MySpan, is_raw: bool) -> (r: Result<
        MyIdent,
        ServerError,
    >)
        requires
            old(self).wf(),
        ensures
            final(self).wf(),
            if !old(self)@.knows_span(span) {
                r == Err::<MyIdent, ServerError>(ServerError::ForeignHandle) && final(self)@
                    == old(self)@
            } else if is_raw && is_reserved_raw(string@) {
                r == Err::<MyIdent, ServerError>(ServerError::ReservedRawIdent) && final(self)@
                    == old(self)@
            } else if !lexes_as_ident(string@) {
                r == Err::<MyIdent, ServerError>(ServerError::InvalidIdent) && final(self)@ == old(self)@
            } else {
                interned_ident(
                    old(self)@,
                    final(self)@,
                    IdentView {
                        text: string@,
                        raw: is_raw,
                        span: old(self)@.spans[span.index as int],
                    },
                    r,
                )
            },
    {
        let place = match self.resolve_span(span) {
            Ok(data) => data,
            Err(e) => {
                return Err(e);
            },
        };
        if is_raw && (same_text(string, "_") || same_text(string, "super") || same_text(
            string,
            "self",
        ) || same_text(string, "Self") || same_text(string, "crate")) {
            return Err(ServerError::ReservedRawIdent);
        }
        if !is_ident_text(string) {
            return Err(ServerError::InvalidIdent);
        }
        let data = MyIdentData { text: String::from_str(string), raw: is_raw, span: place };
        self.intern_ident(&data)
    }

    /// The handle of the span of an identifier.
    pub fn ident_span(&mut self, ident: MyIdent) -> (r: Result<MySpan, ServerError>)
        requires
            old(self).wf(),
        ensures
            final(self).wf(),
            if old(self)@.knows_ident(ident) {
                interned_span(
                    old(self)@,
                    final(self)@,
                    old(self)@.idents[ident.index as int].span,
                    r,
                )
            } else {
                r == Err::<MySpan, ServerError>(ServerError::ForeignHandle) && final(self)@ == old(self)@
            },
    {
        let place = match self.resolve_ident(ident) {
            Ok(data) => data.span,
            Err(e) => {
                return Err(e);
            },
        };
        self.intern_span(place)
    }

    /// Overwrites the span of an identifier in place: the handle stays, and
    /// now stands for the same identifier with the new span.
    pub fn ident_with_span(&mut self, ident: MyIdent, span: MySpan) -> (r: Result<
        MyIdent,
        ServerError,
    >)
        requires
            old(self).wf(),
        ensures
            final(self).wf(),
            if old(self)@.knows_ident(ident) && old(self)@.knows_span(span) {
                &&& r == Ok::<MyIdent, ServerError>(ident)
                &&& final(self)@ == ServerState {
                    idents: old(self)@.idents.update(
                        ident.index as int,
                        IdentView {
                            span: old(self)@.spans[span.index as int],
                            ..old(self)@.idents[ident.index as int]
                        },
                    ),
                    ..old(self)@
                }
            } else {
                r == Err::<MyIdent, ServerError>(ServerError::ForeignHandle) && final(self)@
                    == old(self)@
            },
    {
        let place = match self.resolve_span(span) {
            Ok(data) => data,
            Err(e) => {
                return Err(e);
            },
        };
        let moved = match self.resolve_ident(ident) {
            Ok(data) => MyIdentData { text: data.text.clone(), raw: data.raw, span: place },
            Err(e) => {
                return Err(e);
            },
        };
        self.ident_interner.set(ident.index, moved);
        Ok(ident)
    }

    /// Refused: the server does not print literals for debugging.
    pub fn literal_debug(&mut self, literal: &MyLiteral) -> (r: Result<String, ServerError>)
        ensures
            *final(self) == *old(self),
            r == Err::<String, ServerError>(ServerError::Unsupported(Operation::LiteralDebug)),
    {
        Err(ServerError::Unsupported(Operation::LiteralDebug))
    }

    /// Refused: the server makes no integer literals.
    pub fn literal_integer(&mut self, n: &str) -> (r: Result<MyLiteral, ServerError>)
        ensures
            *final(self) == *old(self),
            r is Err,
            r->Err_0 == ServerError::Unsupported(Operation::LiteralInteger),
    {
        Err(ServerError::Unsupported(Operation::LiteralInteger))
    }

    /// Refused: the server makes no integer literals.
    pub fn literal_typed_integer(&mut self, n: &str, kind: &str) -> (r: Result<
        MyLiteral,
        ServerError,
    >)
        ensures
            *final(self) == *old(self),
            r is Err,
            r->Err_0 == ServerError::Unsupported(Operation::LiteralTypedInteger),
    {
        Err(ServerError::Unsupported(Operation::LiteralTypedInteger))
    }

    /// Refused: the server makes no floating-point literals.
    pub fn literal_float(&mut self, n: &str) -> (r: Result<MyLiteral, ServerError>)
        ensures
            *final(self) == *old(self),
            r is Err,
            r->Err_0 == ServerError::Unsupported(Operation::LiteralFloat),
    {
        Err(ServerError::Unsupported(Operation::LiteralFloat))
    }

    /// Refused: the server makes no floating-point literals.
    pub fn literal_f32(&mut self, n: &str) -> (r: Result<MyLiteral, ServerError>)
        ensures
            *final(self) == *old(self),
            r is Err,
            r->Err_0 == ServerError::Unsupported(Operation::LiteralF32),
    {
        Err(ServerError::Unsupported(Operation::LiteralF32))
    }

    /// Refused: the server makes no floating-point literals.
    pub fn literal_f64(&mut self, n: &str) -> (r: Result<MyLiteral, ServerError>)
        ensures
            *final(self) == *old(self),
            r is Err,
            r->Err_0 == ServerError::Unsupported(Operation::LiteralF64),
    {
        Err(ServerError::Unsupported(Operation::LiteralF64))
    }

    /// A string literal with the span of the call site.
    pub fn literal_string(&mut self, string: &str) -> (r: MyLiteral)
        ensures
            *final(self) == *old(self),
            r@ == (LiteralView {
                text: string_literal_text(string@),
                span: MySpanData::call_site(),
            }),
    {
        MyLiteral { text: string_literal(string), span: MySpanData::call_site() }
    }

    /// A character literal with the span of the call site.
    pub fn literal_character(&mut self, ch: char) -> (r: MyLiteral)
        ensures
            *final(self) == *old(self),
            r@ == (LiteralView {
                text: character_literal_text(ch),
                span: MySpanData::call_site(),
            }),
    {
        MyLiteral { text: character_literal(ch), span: MySpanData::call_site() }
    }

    /// A byte string literal with the span of the call site.
    pub fn literal_byte_string(&mut self, bytes: &[u8]) -> (r: MyLiteral)
        ensures
            *final(self) == *old(self),
            r@ == (LiteralView {
                text: byte_string_literal_text(bytes@),
                span: MySpanData::call_site(),
            }),
    {
        MyLiteral { text: byte_string_literal(bytes), span: MySpanData::call_site() }
    }

    /// The handle of the span of a literal.
    pub fn literal_span(&mut self, literal: &MyLiteral) -> (r: Result<MySpan, ServerError>)
        requires
            old(self).wf(),
        ensures
            final(self).wf(),
            interned_span(old(self)@, final(self)@, literal@.span, r),
    {
        self.intern_span(literal.span)
    }

    /// Gives the literal the span behind the handle. A handle that this
    /// session never gave out is refused, and the literal stays as it is.
    pub fn literal_set_span(&mut self, literal: &mut MyLiteral, span: MySpan) -> (r: Result<
        (),
        ServerError,
    >)
        requires
            old(self).wf(),
        ensures
            *final(self) == *old(self),
            if old(self)@.knows_span(span) {
                r is Ok && final(literal)@ == (LiteralView {
                    span: old(self)@.spans[span.index as int],
                    ..old(literal)@
                })
            } else {
                r == Err::<(), ServerError>(ServerError::ForeignHandle) && final(literal)@ == old(literal)@
            },
    {
        match self.resolve_span(span) {
            Ok(data) => {
                literal.span = data;
                Ok(())
            },
            Err(e) => Err(e),
        }
    }

    /// Are the two the same source text?
    pub fn source_file_eq(&mut self, file1: &SourceFile, file2: &SourceFile) -> (r: bool)
        ensures
            *final(self) == *old(self),
            r == (file1.source == file2.source),
    {
        file1.source == file2.source
    }

    /// The name of a source text.
    pub fn source_file_path(&mut self, file: &SourceFile) -> (r: String)
        ensures
            *final(self) == *old(self),
            r@ == source_path(file.source),
    {
        if file.source == 0 {
            String::from_str("<unspecified>")
        } else {
            let mut out = String::from_str("<parsed string ");
            out.append(decimal_text(file.source).as_str());
            out.append(">");
            out
        }
    }

    /// No source text is a file on disk.
    pub fn source_file_is_real(&mut self, file: &SourceFile) -> (r: bool)
        ensures
            *final(self) == *old(self),
            !r,
    {
        false
    }

    /// Refused: the server builds no diagnostics.
    pub fn diagnostic_new(&mut self, level: Level, msg: &str, spans: MultiSpan) -> (r: Result<
        Diagnostic,
        ServerError,
    >)
        ensures
            *final(self) == *old(self),
            r is Err,
            r->Err_0 == ServerError::Unsupported(Operation::DiagnosticNew),
    {
        Err(ServerError::Unsupported(Operation::DiagnosticNew))
    }

    /// Refused: the server builds no diagnostics, and the one given stays as
    /// it is.
    pub fn diagnostic_sub(
        &mut self,
        diag: &mut Diagnostic,
        level: Level,
        msg: &str,
        spans: MultiSpan,
    ) -> (r: Result<(), ServerError>)
        ensures
            *final(self) == *old(self),
            *final(diag) == *old(diag),
            r == Err::<(), ServerError>(ServerError::Unsupported(Operation::DiagnosticSub)),
    {
        Err(ServerError::Unsupported(Operation::DiagnosticSub))
    }

    /// Emits a diagnostic: gives the line that the host is to show to its
    /// user, which is the level, a colon, and the message.
    pub fn diagnostic_emit(&mut self, diag: Diagnostic) -> (r: String)
        ensures
            *final(self) == *old(self),
            r@ == diagnostic_text(diag.level, diag.message@),
    {
        let mut out = match diag.level {
            Level::Error => String::from_str("error"),
            Level::Warning => String::from_str("warning"),
            Level::Note => String::from_str("note"),
            Level::Help => String::from_str("help"),
        };
        out.append(": ");
        out.append(diag.message.as_str());
        out
    }

    /// Refused: the server builds no span sets.
    pub fn multi_span_new(&mut self) -> (r: Result<MultiSpan, ServerError>)
        ensures
            *final(self) == *old(self),
            r is Err,
            r->Err_0 == ServerError::Unsupported(Operation::MultiSpanNew),
    {
        Err(ServerError::Unsupported(Operation::MultiSpanNew))
    }

    /// Refused: the server builds no span sets, and the one given stays as it
    /// is.
    pub fn multi_span_push(&mut self, other: &mut MultiSpan, span: MySpan) -> (r: Result<
        (),
        ServerError,
    >)
        ensures
            *final(self) == *old(self),
            *final(other) == *old(other),
            r == Err::<(), ServerError>(ServerError::Unsupported(Operation::MultiSpanPush)),
    {
        Err(ServerError::Unsupported(Operation::MultiSpanPush))
    }

    /// Refused: the server does not print spans for debugging.
    pub fn span_debug(&mut self, span: MySpan) -> (r: Result<String, ServerError>)
        ensures
            *final(self) == *old(self),
            r == Err::<String, ServerError>(ServerError::Unsupported(Operation::SpanDebug)),
    {
        Err(ServerError::Unsupported(Operation::SpanDebug))
    }

    /// The handle of the span of the definition site. The model keeps
    /// positions only, so it is the span of the call site.
    pub fn span_def_site(&mut self) -> (r: Result<MySpan, ServerError>)
        requires
            old(self).wf(),
        ensures
            final(self).wf(),
            interned_span(old(self)@, final(self)@, MySpanData::call_site(), r),
    {
        self.intern_span(MySpanData::call_site())
    }

    /// The handle of the span of the call site.
    pub fn span_call_site(&mut self) -> (r: Result<MySpan, ServerError>)
        requires
            old(self).wf(),
        ensures
            final(self).wf(),
            interned_span(old(self)@, final(self)@, MySpanData::call_site(), r),
    {
        self.intern_span(MySpanData::call_site())
    }

    /// The source text that a span lies in.
    pub fn span_source_file(&mut self, span: MySpan) -> (r: Result<SourceFile, ServerError>)
        requires
            old(self).wf(),
        ensures
            *final(self) == *old(self),
            if old(self)@.knows_span(span) {
                r == Ok::<SourceFile, ServerError>(
                    SourceFile { source: old(self)@.spans[span.index as int].source },
                )
            } else {
                r == Err::<SourceFile, ServerError>(ServerError::ForeignHandle)
            },
    {
        match self.resolve_span(span) {
            Ok(data) => Ok(SourceFile { source: data.source }),
            Err(e) => Err(e),
        }
    }

    /// The span that a span was expanded from: no span has one.
    pub fn span_parent(&mut self, span: MySpan) -> (r: Result<Option<MySpan>, ServerError>)
        requires
            old(self).wf(),
        ensures
            *final(self) == *old(self),
            if old(self)@.knows_span(span) {
                r == Ok::<Option<MySpan>, ServerError>(None)
            } else {
                r == Err::<Option<MySpan>, ServerError>(ServerError::ForeignHandle)
            },
    {
        match self.resolve_span(span) {
            Ok(_) => Ok(None),
            Err(e) => Err(e),
        }
    }

    /// The span in the code that was written: every span is its own.
    pub fn span_source(&mut self, span: MySpan) -> (r: Result<MySpan, ServerError>)
        requires
            old(self).wf(),
        ensures
            *final(self) == *old(self),
            if old(self)@.knows_span(span) {
                r == Ok::<MySpan, ServerError>(span)
            } else {
                r == Err::<MySpan, ServerError>(ServerError::ForeignHandle)
            },
    {
        match self.resolve_span(span) {
            Ok(_) => Ok(span),
            Err(e) => Err(e),
        }
    }

    /// Where a span begins.
    pub fn span_start(&mut self, span: MySpan) -> (r: Result<LineColumn, ServerError>)
        requires
            old(self).wf(),
        ensures
            *final(self) == *old(self),
            if old(self)@.knows_span(span) {
                r == Ok::<LineColumn, ServerError>(old(self)@.spans[span.index as int].start)
            } else {
                r == Err::<LineColumn, ServerError>(ServerError::ForeignHandle)
            },
    {
        match self.resolve_span(span) {
            Ok(data) => Ok(data.start),
            Err(e) => Err(e),
        }
    }

    /// Where a span ends.
    pub fn span_end(&mut self, span: MySpan) -> (r: Result<LineColumn, ServerError>)
        requires
            old(self).wf(),
        ensures
            *final(self) == *old(self),
            if old(self)@.knows_span(span) {
                r == Ok::<LineColumn, ServerError>(old(self)@.spans[span.index as int].end)
            } else {
                r == Err::<LineColumn, ServerError>(ServerError::ForeignHandle)
            },
    {
        match self.resolve_span(span) {
            Ok(data) => Ok(data.end),
            Err(e) => Err(e),
        }
    }

    /// The handle of the smallest span that encloses both; `None` where the
    /// two lie in different source texts.
    pub fn span_join(&mut self, first: MySpan, second: MySpan) -> (r: Result<
        Option<MySpan>,
        ServerError,
    >)
        requires
            old(self).wf(),
        ensures
            final(self).wf(),
            if !(old(self)@.knows_span(first) && old(self)@.knows_span(second)) {
                r == Err::<Option<MySpan>, ServerError>(ServerError::ForeignHandle) && final(self)@ == old(self)@
            } else {
                match joined(
                    old(self)@.spans[first.index as int],
                    old(self)@.spans[second.index as int],
                ) {
                    None => r == Ok::<Option<MySpan>, ServerError>(None) && final(self)@ == old(self)@,
                    Some(data) => if old(self)@.span_room(data) {
                        r == Ok::<Option<MySpan>, ServerError>(
                            Some(old(self)@.span_handle(data)),
                        ) && final(self)@ == old(self)@.with_span(data)
                    } else {
                        r == Err::<Option<MySpan>, ServerError>(ServerError::TableFull) && final(self)@ == old(self)@
                    },
                }
            },
    {
        let a = match self.resolve_span(first) {
            Ok(data) => data,
            Err(e) => {
                return Err(e);
            },
        };
        let b = match self.resolve_span(second) {
            Ok(data) => data,
            Err(e) => {
                return Err(e);
            },
        };
        match a.join(&b) {
            None => Ok(None),
            Some(data) => match self.intern_span(data) {
                Ok(h) => Ok(Some(h)),
                Err(e) => Err(e),
            },
        }
    }

    /// The span with the positions of `span`, resolved as if it stood at
    /// `at`. The model keeps positions only, so it is `span` itself.
    pub fn span_resolved_at(&mut self, span: MySpan, at: MySpan) -> (r: Result<
        MySpan,
        ServerError,
    >)
        requires
            old(self).wf(),
        ensures
            *final(self) == *old(self),
            if old(self)@.knows_span(span) && old(self)@.knows_span(at) {
                r == Ok::<MySpan, ServerError>(span)
            } else {
                r == Err::<MySpan, ServerError>(ServerError::ForeignHandle)
            },
    {
        match self.resolve_span(span) {
            Ok(_) => match self.resolve_span(at) {
                Ok(_) => Ok(span),
                Err(e) => Err(e),
            },
            Err(e) => Err(e),
        }
    }
}

impl Default for Rustc {
    /// The server of session 0.
    fn default() -> (r: Rustc)
        ensures
            r.wf(),
            r@ == Rustc::fresh(0),
    {
        Rustc::new(0)
    }
}

/// Is the text an identifier?
fn is_ident_text(text: &str) -> (r: bool)
    ensures
        r == lexes_as_ident(text@),
{
    match lex(text, 0) {
        None => false,
        Some(stream) => {
            let ghost tokens = lexed(text@)->Some_0;
            assert(stream@ == placed(tokens, 0));
            assert(stream@.len() == tokens.len());
            if stream.trees.len() != 1 {
                return false;
            }
            assert(stream@[0] == stream.trees@[0]@);
            assert(stream@[0] == placed_token(tokens[0], 0));
            match &stream.trees[0] {
                Token::Ident(data) => !data.raw && same_text(data.text.as_str(), text),
                _ => false,
            }
        },
    }
}

} // verus!
