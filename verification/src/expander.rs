//! The expansion dispatcher: which capability answers to a name, what it is
//! called on, and what becomes of its answer.
//!
//! Calling into a plugin is the work of the caller, handed in as a function.

use crate::lexer::{parse_string, parsed};
use crate::loader::{
    opened, DescriptorView, LinkError, LoadError, MacroKind, PluginDescriptor, ProcMacroLibrary,
};
use crate::rustc_server::Rustc;
use crate::macro_expansion::{ExpansionResult, ExpansionResults, ExpansionTask, ResultView};
use crate::text::{debug_text, occurs_at, occurs_in, push_char, same_text, str_debug};
use crate::tokens::{
    lemma_placed_text, placed, rendered, MyTokenStream, TokenView, ATTRIBUTES_SOURCE, CODE_SOURCE,
};
use vstd::prelude::*;
use vstd::string::*;

verus! {

/// What a plugin left behind when it ended abnormally.
#[derive(Debug, PartialEq, Eq)]
pub enum PanicMessage {
    String(String),
    Unknown,
}

impl PanicMessage {
    /// The message as text, where there is one.
    pub open spec fn spec_as_str(&self) -> Option<Seq<char>> {
        match self {
            PanicMessage::String(s) => Some(s@),
            PanicMessage::Unknown => None,
        }
    }

    /// The message as text, where there is one.
    pub fn as_str(&self) -> (r: Option<&str>)
        ensures
            match r {
                Some(s) => self.spec_as_str() == Some(s@),
                None => self.spec_as_str() is None,
            },
    {
        match self {
            PanicMessage::String(s) => Some(s.as_str()),
            PanicMessage::Unknown => None,
        }
    }
}

/// Why an expansion gave no code.
#[derive(Debug, PartialEq, Eq)]
pub enum FailureReason {
    /// The code does not lex.
    MalformedSource,
    /// The arguments of the attribute do not lex.
    MalformedAttributes,
    /// No loaded plugin has a capability of the name.
    NothingToExpand,
    /// The plugin ended abnormally.
    Panicked(PanicMessage),
}

/// The mathematical value of a failure.
pub enum ReasonView {
    MalformedSource,
    MalformedAttributes,
    NothingToExpand,
    Panicked(Option<Seq<char>>),
}

impl View for FailureReason {
    type V = ReasonView;

    open spec fn view(&self) -> ReasonView {
        match self {
            FailureReason::MalformedSource => ReasonView::MalformedSource,
            FailureReason::MalformedAttributes => ReasonView::MalformedAttributes,
            FailureReason::NothingToExpand => ReasonView::NothingToExpand,
            FailureReason::Panicked(m) => ReasonView::Panicked(m.spec_as_str()),
        }
    }
}

/// One call into a plugin: the entry and what it is called on.
#[derive(Debug, PartialEq, Eq)]
pub enum Invocation {
    /// A derive is called on the item it stands on.
    CustomDerive { entry: u64, item: MyTokenStream },
    /// A function-like capability is called on its body.
    Bang { entry: u64, body: MyTokenStream },
    /// An attribute is called on its own arguments and on the item it stands
    /// on.
    Attr { entry: u64, arguments: MyTokenStream, item: MyTokenStream },
}

/// The mathematical value of an invocation.
pub enum InvocationView {
    CustomDerive { entry: u64, item: Seq<TokenView> },
    Bang { entry: u64, body: Seq<TokenView> },
    Attr { entry: u64, arguments: Seq<TokenView>, item: Seq<TokenView> },
}

impl View for Invocation {
    type V = InvocationView;

    open spec fn view(&self) -> InvocationView {
        match self {
            Invocation::CustomDerive { entry, item } => InvocationView::CustomDerive {
                entry: *entry,
                item: item@,
            },
            Invocation::Bang { entry, body } => InvocationView::Bang { entry: *entry, body: body@ },
            Invocation::Attr { entry, arguments, item } => InvocationView::Attr {
                entry: *entry,
                arguments: arguments@,
                item: item@,
            },
        }
    }
}

/// The first capability of a table, from position `from` on, that goes by
/// the name.
pub open spec fn first_in(table: Seq<DescriptorView>, name: Seq<char>, from: int) -> Option<int>
    decreases table.len() - from,
{
    if from < 0 || from >= table.len() {
        None
    } else if table[from].name == name {
        Some(from)
    } else {
        first_in(table, name, from + 1)
    }
}

/// The first capability that goes by the name, searching the plugins from
/// number `from` on in their order and each table in its order: the number
/// of the plugin and the position in its table.
pub open spec fn selected_from(libs: Seq<Seq<DescriptorView>>, name: Seq<char>, from: int) -> Option<
    (int, int),
>
    decreases libs.len() - from,
{
    if from < 0 || from >= libs.len() {
        None
    } else {
        match first_in(libs[from], name, 0) {
            Some(j) => Some((from, j)),
            None => selected_from(libs, name, from + 1),
        }
    }
}

/// The capability that answers to a name: the first that goes by it, in
/// plugin order and then in table order.
pub open spec fn selected(libs: Seq<Seq<DescriptorView>>, name: Seq<char>) -> Option<(int, int)> {
    selected_from(libs, name, 0)
}

/// A capability is first in its table, from `from` on, exactly where it goes
/// by the name and none between `from` and it does.
pub proof fn lemma_first_in(table: Seq<DescriptorView>, name: Seq<char>, from: int)
    requires
        0 <= from <= table.len(),
    ensures
        match first_in(table, name, from) {
            Some(j) => from <= j < table.len() && table[j].name == name && forall|k: int|
                from <= k < j ==> (#[trigger] table[k]).name != name,
            None => forall|k: int| from <= k < table.len() ==> (#[trigger] table[k]).name != name,
        },
    decreases table.len() - from,
{
    if from < table.len() && table[from].name != name {
        lemma_first_in(table, name, from + 1);
    }
}

/// The search order: the selected capability goes by the name, no
/// capability before it in its own table does, and no capability of an
/// earlier plugin does. Nothing is selected only where no capability of any
/// plugin goes by the name.
pub proof fn lemma_selected(libs: Seq<Seq<DescriptorView>>, name: Seq<char>, from: int)
    requires
        0 <= from <= libs.len(),
    ensures
        match selected_from(libs, name, from) {
            Some((i, j)) => {
                &&& from <= i < libs.len()
                &&& 0 <= j < libs[i].len()
                &&& libs[i][j].name == name
                &&& forall|k: int| 0 <= k < j ==> (#[trigger] libs[i][k]).name != name
                &&& forall|h: int, k: int|
                    from <= h < i && 0 <= k < libs[h].len() ==> (#[trigger] libs[h][k]).name
                        != name
            },
            None => forall|h: int, k: int|
                from <= h < libs.len() && 0 <= k < libs[h].len() ==> (#[trigger] libs[h][k]).name
                    != name,
        },
    decreases libs.len() - from,
{
    if from < libs.len() {
        lemma_first_in(libs[from], name, 0);
        if first_in(libs[from], name, 0) is None {
            lemma_selected(libs, name, from + 1);
        }
    }
}

/// The view of an optional text.
pub open spec fn text_of(t: Option<&String>) -> Option<Seq<char>> {
    match t {
        Some(s) => Some(s@),
        None => None,
    }
}

/// What is decided before a plugin is called: the call to make, or the
/// reason why none is made. The code is lexed first; then the capability is
/// selected; a derive or a function-like capability gets the code, an
/// attribute gets its arguments, lexed from the attribute text where there
/// is one and empty where there is none, and the code.
pub open spec fn planned(
    libs: Seq<Seq<DescriptorView>>,
    code: Seq<char>,
    name: Seq<char>,
    attributes: Option<Seq<char>>,
) -> Result<InvocationView, ReasonView> {
    match parsed(code) {
        None => Err(ReasonView::MalformedSource),
        Some(tokens) => match selected(libs, name) {
            None => Err(ReasonView::NothingToExpand),
            Some((i, j)) => {
                let entry = libs[i][j].entry;
                let input = placed(tokens, CODE_SOURCE);
                match libs[i][j].kind {
                    MacroKind::CustomDerive => Ok(InvocationView::CustomDerive { entry, item: input }),
                    MacroKind::Bang => Ok(InvocationView::Bang { entry, body: input }),
                    MacroKind::Attr => match attributes {
                        None => Ok(
                            InvocationView::Attr { entry, arguments: Seq::empty(), item: input },
                        ),
                        Some(text) => match parsed(text) {
                            None => Err(ReasonView::MalformedAttributes),
                            Some(arguments) => Ok(
                                InvocationView::Attr {
                                    entry,
                                    arguments: placed(arguments, ATTRIBUTES_SOURCE),
                                    item: input,
                                },
                            ),
                        },
                    },
                }
            },
        },
    }
}

/// What becomes of the answer of a plugin: the text of the stream it
/// returned, or the message it left behind.
pub open spec fn finished(outcome: Result<MyTokenStream, PanicMessage>) -> Result<
    Seq<char>,
    ReasonView,
> {
    match outcome {
        Ok(stream) => Ok(rendered(stream@)),
        Err(message) => Err(ReasonView::Panicked(message.spec_as_str())),
    }
}

/// The view of the result of an expansion.
pub open spec fn expansion_view(r: Result<String, FailureReason>) -> Result<Seq<char>, ReasonView> {
    match r {
        Ok(text) => Ok(text@),
        Err(e) => Err(e@),
    }
}

/// What an expansion comes to, given the function that calls into plugins.
/// Where no call is planned the reason comes back and no plugin runs. Else
/// the plugin is called once, with a new server of the session and with
/// exactly the planned invocation, and its answer is finished.
pub open spec fn expanded<F: Fn(Rustc, Invocation) -> Result<MyTokenStream, PanicMessage>>(
    libs: Seq<Seq<DescriptorView>>,
    code: Seq<char>,
    name: Seq<char>,
    attributes: Option<Seq<char>>,
    session: u32,
    invoke: F,
    r: Result<Seq<char>, ReasonView>,
) -> bool {
    match planned(libs, code, name, attributes) {
        Err(e) => r == Err::<Seq<char>, ReasonView>(e),
        Ok(plan) => exists|
            server: Rustc,
            invocation: Invocation,
            outcome: Result<MyTokenStream, PanicMessage>,
        |
            server.wf() && server@ == Rustc::fresh(session) && invocation@ == plan
                && #[trigger] call_ensures(invoke, (server, invocation), outcome) && r == finished(
                outcome,
            ),
    }
}

/// The plugin can be opened.
pub open spec fn opens<R: Fn(&String) -> Option<Vec<u8>>, L: Fn(&String, &String) -> Result<
    Vec<PluginDescriptor>,
    LinkError,
>>(path: String, read: R, load: L) -> bool {
    exists|library: ProcMacroLibrary| #[trigger]
        opened(path, read, load, Ok::<ProcMacroLibrary, LoadError>(library))
}

/// Loading stopped at plugin `i`: the plugins before it opened, and it gave
/// the error, which names it.
pub open spec fn failed_at<R: Fn(&String) -> Option<Vec<u8>>, L: Fn(&String, &String) -> Result<
    Vec<PluginDescriptor>,
    LinkError,
>>(paths: Seq<String>, read: R, load: L, e: LoadError, i: int) -> bool {
    &&& 0 <= i < paths.len()
    &&& opened(paths[i], read, load, Err::<ProcMacroLibrary, LoadError>(e))
    &&& e@.path == paths[i]@
    &&& forall|k: int| 0 <= k < i ==> #[trigger] opens(paths[k], read, load)
}

/// What loading the plugins of a task comes to, given the two functions
/// that do the outside work: every plugin opened, in the listed order, or
/// the error of the first that could not be opened.
pub open spec fn loaded<R: Fn(&String) -> Option<Vec<u8>>, L: Fn(&String, &String) -> Result<
    Vec<PluginDescriptor>,
    LinkError,
>>(paths: Seq<String>, read: R, load: L, r: Result<Expander, LoadError>) -> bool {
    match r {
        Ok(expander) => expander.libs@.len() == paths.len() && forall|i: int|
            0 <= i < paths.len() ==> opened(
                paths[i],
                read,
                load,
                Ok::<ProcMacroLibrary, LoadError>(#[trigger] expander.libs@[i]),
            ),
        Err(e) => exists|i: int| #[trigger] failed_at(paths, read, load, e, i),
    }
}

/// The plugins of a task, loaded and in order.
#[derive(Debug, PartialEq, Eq)]
pub struct Expander {
    pub libs: Vec<ProcMacroLibrary>,
}

impl View for Expander {
    type V = Seq<Seq<DescriptorView>>;

    /// The capability tables, in the order of the plugins.
    open spec fn view(&self) -> Seq<Seq<DescriptorView>> {
        Seq::new(self.libs@.len(), |i: int| self.libs@[i]@)
    }
}

impl Expander {
    /// Opens the plugins in the listed order. The first that cannot be
    /// opened ends the loading with its error.
    pub fn new<R: Fn(&String) -> Option<Vec<u8>>, L: Fn(&String, &String) -> Result<
        Vec<PluginDescriptor>,
        LinkError,
    >>(libs_paths: &Vec<String>, read: &R, load: &L) -> (r: Result<Expander, LoadError>)
        requires
            forall|path: &String| call_requires(read, (path,)),
            forall|path: &String, symbol: &String| call_requires(load, (path, symbol)),
        ensures
            loaded(libs_paths@, *read, *load, r),
    {
        let mut libs: Vec<ProcMacroLibrary> = Vec::new();
        let n = libs_paths.len();
        let mut i: usize = 0;
        while i < n
            invariant
                n == libs_paths@.len(),
                i <= n,
                libs@.len() == i,
                forall|path: &String| call_requires(read, (path,)),
                forall|path: &String, symbol: &String| call_requires(load, (path, symbol)),
                forall|k: int|
                    0 <= k < i ==> opened(
                        libs_paths@[k],
                        *read,
                        *load,
                        Ok::<ProcMacroLibrary, LoadError>(#[trigger] libs@[k]),
                    ),
            decreases n - i,
        {
            match ProcMacroLibrary::open(&libs_paths[i], read, load) {
                Ok(library) => {
                    libs.push(library);
                },
                Err(e) => {
                    proof {
                        let paths = libs_paths@;
                        assert(opened(
                            paths[i as int],
                            *read,
                            *load,
                            Err::<ProcMacroLibrary, LoadError>(e),
                        ));
                        assert(e@.path == paths[i as int]@);
                        assert forall|k: int| 0 <= k < i implies #[trigger] opens(
                            paths[k],
                            *read,
                            *load,
                        ) by {
                            assert(opened(
                                paths[k],
                                *read,
                                *load,
                                Ok::<ProcMacroLibrary, LoadError>(libs@[k]),
                            ));
                        }
                        assert(failed_at(paths, *read, *load, e, i as int));
                    }
                    return Err(e);
                },
            }
            i = i + 1;
        }
        Ok(Expander { libs })
    }

    /// The capability that answers to a name: the number of its plugin and
    /// its position in the table of that plugin.
    pub fn select(&self, macro_to_expand: &str) -> (r: Option<(usize, usize)>)
        ensures
            match r {
                Some((i, j)) => selected(self@, macro_to_expand@) == Some((i as int, j as int))
                    && i < self.libs@.len() && j < self.libs@[i as int].exported_macros@.len(),
                None => selected(self@, macro_to_expand@) is None,
            },
    {
        let n = self.libs.len();
        let mut i: usize = 0;
        while i < n
            invariant
                n == self.libs@.len(),
                i <= n,
                selected(self@, macro_to_expand@) == selected_from(
                    self@,
                    macro_to_expand@,
                    i as int,
                ),
            decreases n - i,
        {
            let table = &self.libs[i].exported_macros;
            let m = table.len();
            let mut j: usize = 0;
            assert(self@[i as int] == self.libs@[i as int]@);
            while j < m
                invariant
                    m == table@.len(),
                    j <= m,
                    i < n,
                    n == self.libs@.len(),
                    table == &self.libs@[i as int].exported_macros,
                    self@[i as int] == self.libs@[i as int]@,
                    selected(self@, macro_to_expand@) == selected_from(
                        self@,
                        macro_to_expand@,
                        i as int,
                    ),
                    first_in(self@[i as int], macro_to_expand@, 0) == first_in(
                        self@[i as int],
                        macro_to_expand@,
                        j as int,
                    ),
                decreases m - j,
            {
                assert(self@[i as int][j as int] == table@[j as int]@);
                if same_text(table[j].name().as_str(), macro_to_expand) {
                    return Some((i, j));
                }
                j = j + 1;
            }
            i = i + 1;
        }
        None
    }

    /// Decides what to call: lexes the code, selects the capability, and
    /// puts together what it is called on.
    pub fn plan(&self, code: &str, macro_to_expand: &str, attributes: Option<&String>) -> (r:
        Result<Invocation, FailureReason>)
        ensures
            match r {
                Ok(invocation) => planned(self@, code@, macro_to_expand@, text_of(attributes))
                    == Ok::<InvocationView, ReasonView>(invocation@),
                Err(e) => planned(self@, code@, macro_to_expand@, text_of(attributes)) == Err::<
                    InvocationView,
                    ReasonView,
                >(e@),
            },
    {
        let input = match parse_string(code, CODE_SOURCE) {
            Some(stream) => stream,
            None => {
                return Err(FailureReason::MalformedSource);
            },
        };
        let (i, j) = match self.select(macro_to_expand) {
            Some(found) => found,
            None => {
                return Err(FailureReason::NothingToExpand);
            },
        };
        let descriptor = &self.libs[i].exported_macros[j];
        assert(self@[i as int][j as int] == descriptor@);
        let entry = descriptor.entry();
        match descriptor.kind() {
            MacroKind::CustomDerive => Ok(Invocation::CustomDerive { entry, item: input }),
            MacroKind::Bang => Ok(Invocation::Bang { entry, body: input }),
            MacroKind::Attr => {
                let arguments = match attributes {
                    None => MyTokenStream::new(),
                    Some(text) => match parse_string(text.as_str(), ATTRIBUTES_SOURCE) {
                        Some(stream) => stream,
                        None => {
                            return Err(FailureReason::MalformedAttributes);
                        },
                    },
                };
                Ok(Invocation::Attr { entry, arguments, item: input })
            },
        }
    }

    /// Expands one name on a piece of code: plans the call, has the plugin
    /// called with a new server of the session, and finishes its answer.
    pub fn expand<F: Fn(Rustc, Invocation) -> Result<MyTokenStream, PanicMessage>>(
        &self,
        code: &str,
        macro_to_expand: &str,
        attributes: Option<&String>,
        session: u32,
        invoke: &F,
    ) -> (r: Result<String, FailureReason>)
        requires
            forall|server: Rustc, invocation: Invocation|
                server.wf() ==> call_requires(invoke, (server, invocation)),
        ensures
            expanded(
                self@,
                code@,
                macro_to_expand@,
                text_of(attributes),
                session,
                *invoke,
                expansion_view(r),
            ),
    {
        match self.plan(code, macro_to_expand, attributes) {
            Err(e) => Err(e),
            Ok(invocation) => {
                let server = Rustc::new(session);
                let outcome = invoke(server, invocation);
                let r = finish_expand(outcome);
                assert(server.wf() && server@ == Rustc::fresh(session) && call_ensures(
                    *invoke,
                    (server, invocation),
                    outcome,
                ) && expansion_view(r) == finished(outcome));
                r
            },
        }
    }
}

/// Finishes the answer of a plugin: a stream becomes its text, a message
/// becomes the failure.
pub fn finish_expand(outcome: Result<MyTokenStream, PanicMessage>) -> (r: Result<
    String,
    FailureReason,
>)
    ensures
        expansion_view(r) == finished(outcome),
{
    match outcome {
        Ok(stream) => Ok(stream.to_string()),
        Err(message) => Err(FailureReason::Panicked(message)),
    }
}

/// How a message that may be missing is shown in a reason.
pub open spec fn shown(message: Option<Seq<char>>) -> Seq<char> {
    match message {
        Some(text) => "Some("@ + str_debug(text) + ")"@,
        None => "None"@,
    }
}

/// The reason that is given for a name whose expansion failed with a
/// message.
pub open spec fn failure_text(name: Seq<char>, message: Option<Seq<char>>) -> Seq<char> {
    "Cannot perform expansion for "@ + name + ": error "@ + shown(message) + "!"@
}

/// What is said of a name that no capability goes by.
pub const NOTHING_TO_EXPAND: &'static str = "Nothing to expand";

/// What is said of an attribute whose arguments do not lex.
pub const MALFORMED_ATTRIBUTES: &'static str = "Malformed attributes";

/// The double quote.
pub const QUOTE: char = '\u{22}';

/// The reason that is given for a name with a message of the host's own:
/// the message stands in it between double quotes.
pub open spec fn host_failure_text(name: Seq<char>, message: Seq<char>) -> Seq<char> {
    "Cannot perform expansion for "@ + name + ": error Some("@ + seq![QUOTE] + message + seq![
        QUOTE,
    ] + ")!"@
}

/// The reason that is given for a name that no capability goes by.
pub open spec fn nothing_to_expand_text(name: Seq<char>) -> Seq<char> {
    host_failure_text(name, NOTHING_TO_EXPAND@)
}

/// The answer for a name, given what its expansion came to: the code on
/// success, else the reason, which names the name and shows the message.
/// Only code that does not lex has no answer: it ends the whole task.
pub open spec fn result_of(name: Seq<char>, outcome: Result<Seq<char>, ReasonView>) -> Option<
    ResultView,
> {
    match outcome {
        Ok(expansion) => Some(ResultView::Success { expansion }),
        Err(ReasonView::Panicked(message)) => Some(
            ResultView::Error { reason: failure_text(name, message) },
        ),
        Err(ReasonView::NothingToExpand) => Some(
            ResultView::Error { reason: nothing_to_expand_text(name) },
        ),
        Err(ReasonView::MalformedAttributes) => Some(
            ResultView::Error { reason: host_failure_text(name, MALFORMED_ATTRIBUTES@) },
        ),
        Err(ReasonView::MalformedSource) => None,
    }
}

/// Why a task has no answers.
#[derive(Debug, PartialEq, Eq)]
pub enum TaskFailure {
    /// A plugin could not be loaded.
    Load(LoadError),
    /// The code of the task does not lex.
    MalformedSource,
}

/// Turns what the expansion of a name came to into the answer for it.
pub fn expansion_result(macro_name: &str, outcome: Result<String, PanicMessage>) -> (r:
    ExpansionResult)
    ensures
        Some(r@) == result_of(
            macro_name@,
            match outcome {
                Ok(text) => Ok(text@),
                Err(message) => Err(ReasonView::Panicked(message.spec_as_str())),
            },
        ),
{
    match outcome {
        Ok(expansion) => ExpansionResult::Success { expansion },
        Err(message) => {
            let mut reason = String::from_str("Cannot perform expansion for ");
            reason.append(macro_name);
            reason.append(": error ");
            match message.as_str() {
                Some(text) => {
                    reason.append("Some(");
                    reason.append(debug_text(text).as_str());
                    reason.append(")");
                },
                None => {
                    reason.append("None");
                },
            }
            reason.append("!");
            assert(reason@ =~= failure_text(macro_name@, message.spec_as_str()));
            ExpansionResult::Error { reason }
        },
    }
}

/// The answer for a name with a message of the host's own.
fn host_failure(macro_name: &str, message: &str) -> (r: ExpansionResult)
    ensures
        r@ == (ResultView::Error { reason: host_failure_text(macro_name@, message@) }),
{
    let mut reason = String::from_str("Cannot perform expansion for ");
    reason.append(macro_name);
    reason.append(": error Some(");
    push_char(&mut reason, QUOTE);
    reason.append(message);
    push_char(&mut reason, QUOTE);
    reason.append(")!");
    assert(reason@ =~= host_failure_text(macro_name@, message@));
    ExpansionResult::Error { reason }
}

/// The answer for a name that no capability goes by.
pub fn nothing_to_expand(macro_name: &str) -> (r: ExpansionResult)
    ensures
        Some(r@) == result_of(
            macro_name@,
            Err::<Seq<char>, ReasonView>(ReasonView::NothingToExpand),
        ),
{
    host_failure(macro_name, NOTHING_TO_EXPAND)
}

/// The answer for a name whose capability is an attribute, where the
/// attribute text does not lex.
pub fn malformed_attributes(macro_name: &str) -> (r: ExpansionResult)
    ensures
        Some(r@) == result_of(
            macro_name@,
            Err::<Seq<char>, ReasonView>(ReasonView::MalformedAttributes),
        ),
{
    host_failure(macro_name, MALFORMED_ATTRIBUTES)
}

/// The number of the session that comes `i` sessions after the session
/// `first`. The numbers go round: after the last number comes 0 again, so
/// that two sessions share a number only where 4,294,967,296 sessions or
/// more lie between them.
pub open spec fn session_after(first: u32, i: int) -> u32 {
    ((first + i) % 0x1_0000_0000) as u32
}

/// Name number `i` of the task comes to `outcome`, in the session that
/// comes `i` sessions after the first session of the task.
pub open spec fn name_expanded<F: Fn(Rustc, Invocation) -> Result<MyTokenStream, PanicMessage>>(
    libs: Seq<Seq<DescriptorView>>,
    task: ExpansionTask,
    first: u32,
    invoke: F,
    i: int,
    outcome: Result<Seq<char>, ReasonView>,
) -> bool {
    expanded(
        libs,
        task.macro_body@,
        task.macro_names@[i]@,
        match task.attributes {
            Some(text) => Some(text@),
            None => None,
        },
        session_after(first, i),
        invoke,
        outcome,
    )
}

/// `result` is the answer for name number `i` of the task.
pub open spec fn answered<F: Fn(Rustc, Invocation) -> Result<MyTokenStream, PanicMessage>>(
    libs: Seq<Seq<DescriptorView>>,
    task: ExpansionTask,
    first: u32,
    invoke: F,
    i: int,
    result: ResultView,
) -> bool {
    exists|outcome: Result<Seq<char>, ReasonView>| #[trigger]
        name_expanded(libs, task, first, invoke, i, outcome) && result_of(
            task.macro_names@[i]@,
            outcome,
        ) == Some(result)
}

/// What expanding the names of a task comes to, given the loaded plugins,
/// the first free session number and the function that calls into plugins.
/// A task with a name and with code that does not lex fails as a whole.
/// Every other task has one answer for each name, in the order of the
/// names, each from a session of its own, and with the answers comes the
/// next free session number.
pub open spec fn task_expanded<F: Fn(Rustc, Invocation) -> Result<MyTokenStream, PanicMessage>>(
    libs: Seq<Seq<DescriptorView>>,
    task: ExpansionTask,
    first: u32,
    invoke: F,
    r: Result<(ExpansionResults, u32), TaskFailure>,
) -> bool {
    if task.macro_names@.len() > 0 && parsed(task.macro_body@) is None {
        r == Err::<(ExpansionResults, u32), TaskFailure>(TaskFailure::MalformedSource)
    } else {
        &&& r is Ok
        &&& r->Ok_0.1 == session_after(first, task.macro_names@.len() as int)
        &&& r->Ok_0.0@.len() == task.macro_names@.len()
        &&& forall|i: int|
            0 <= i < task.macro_names@.len() ==> answered(
                libs,
                task,
                first,
                invoke,
                i,
                #[trigger] r->Ok_0.0@[i],
            )
    }
}

impl Expander {
    /// Expands every name of the task, in order, each in a session of its
    /// own, numbered from `session` on.
    pub fn expand_all<F: Fn(Rustc, Invocation) -> Result<MyTokenStream, PanicMessage>>(
        &self,
        task: &ExpansionTask,
        session: u32,
        invoke: &F,
    ) -> (r: Result<(ExpansionResults, u32), TaskFailure>)
        requires
            forall|server: Rustc, invocation: Invocation|
                server.wf() ==> call_requires(invoke, (server, invocation)),
        ensures
            task_expanded(self@, *task, session, *invoke, r),
    {
        let mut results: Vec<ExpansionResult> = Vec::new();
        let n = task.macro_names.len();
        let mut i: usize = 0;
        let mut next: u32 = session;
        while i < n
            invariant
                n == task.macro_names@.len(),
                i <= n,
                next == session_after(session, i as int),
                results@.len() == i,
                i > 0 ==> parsed(task.macro_body@) is Some,
                forall|server: Rustc, invocation: Invocation|
                    server.wf() ==> call_requires(invoke, (server, invocation)),
                forall|k: int|
                    0 <= k < i ==> answered(
                        self@,
                        *task,
                        session,
                        *invoke,
                        k,
                        (#[trigger] results@[k])@,
                    ),
            decreases n - i,
        {
            let name = &task.macro_names[i];
            let expansion = self.expand(
                task.macro_body.as_str(),
                name.as_str(),
                task.attributes.as_ref(),
                next,
                invoke,
            );
            assert(name_expanded(
                self@,
                *task,
                session,
                *invoke,
                i as int,
                expansion_view(expansion),
            ));
            let result = match expansion {
                Ok(text) => expansion_result(name.as_str(), Ok(text)),
                Err(FailureReason::Panicked(message)) => expansion_result(
                    name.as_str(),
                    Err(message),
                ),
                Err(FailureReason::NothingToExpand) => nothing_to_expand(name.as_str()),
                Err(FailureReason::MalformedAttributes) => malformed_attributes(name.as_str()),
                Err(FailureReason::MalformedSource) => {
                    return Err(TaskFailure::MalformedSource);
                },
            };
            assert(answered(self@, *task, session, *invoke, i as int, result@));
            results.push(result);
            i = i + 1;
            next = if next == u32::MAX {
                0
            } else {
                next + 1
            };
        }
        let answers = ExpansionResults { results };
        assert forall|k: int| 0 <= k < task.macro_names@.len() implies answered(
            self@,
            *task,
            session,
            *invoke,
            k,
            #[trigger] answers@[k],
        ) by {
            assert(answers@[k] == results@[k]@);
        }
        Ok((answers, next))
    }
}

/// What a task comes to, given the first free session number and the three
/// functions that do the outside work. A plugin that cannot be loaded ends
/// the task before anything is expanded; else the names of the task are
/// expanded on the loaded plugins.
pub open spec fn task_done<R: Fn(&String) -> Option<Vec<u8>>, L: Fn(&String, &String) -> Result<
    Vec<PluginDescriptor>,
    LinkError,
>, F: Fn(Rustc, Invocation) -> Result<MyTokenStream, PanicMessage>>(
    task: ExpansionTask,
    first: u32,
    read: R,
    load: L,
    invoke: F,
    r: Result<(ExpansionResults, u32), TaskFailure>,
) -> bool {
    exists|loading: Result<Expander, LoadError>| #[trigger]
        loaded(task.libs@, read, load, loading) && match loading {
            Err(e) => r == Err::<(ExpansionResults, u32), TaskFailure>(TaskFailure::Load(e)),
            Ok(expander) => task_expanded(expander@, task, first, invoke, r),
        }
}

/// Carries out one task: loads its plugins, expands each of its names in
/// order, and turns what each came to into its answer. The sessions of the
/// task are numbered from `session` on; with the answers comes the number
/// from which the next task goes on.
pub fn expand_task<R: Fn(&String) -> Option<Vec<u8>>, L: Fn(&String, &String) -> Result<
    Vec<PluginDescriptor>,
    LinkError,
>, F: Fn(Rustc, Invocation) -> Result<MyTokenStream, PanicMessage>>(
    task: &ExpansionTask,
    session: u32,
    read: &R,
    load: &L,
    invoke: &F,
) -> (r: Result<(ExpansionResults, u32), TaskFailure>)
    requires
        forall|path: &String| call_requires(read, (path,)),
        forall|path: &String, symbol: &String| call_requires(load, (path, symbol)),
        forall|server: Rustc, invocation: Invocation|
            server.wf() ==> call_requires(invoke, (server, invocation)),
    ensures
        task_done(*task, session, *read, *load, *invoke, r),
{
    let loading = Expander::new(&task.libs, read, load);
    match loading {
        Err(e) => Err(TaskFailure::Load(e)),
        Ok(expander) => {
            let r = expander.expand_all(task, session, invoke);
            assert(loaded(task.libs@, *read, *load, Ok::<Expander, LoadError>(expander)));
            r
        },
    }
}

/// The reason that the host gives with a message of its own holds the
/// message and the name.
pub proof fn lemma_host_failure_text(name: Seq<char>, message: Seq<char>)
    ensures
        occurs_in(host_failure_text(name, message), message),
        occurs_in(host_failure_text(name, message), name),
{
    let lead = "Cannot perform expansion for "@;
    let head = lead + name + ": error Some("@ + seq![QUOTE];
    let text = host_failure_text(name, message);
    let at = head.len() as int;
    assert(text =~= head + message + (seq![QUOTE] + ")!"@));
    assert(text.subrange(at, at + message.len()) =~= message);
    assert(occurs_at(text, message, at));
    let from = lead.len() as int;
    assert(text =~= lead + name + (": error Some("@ + seq![QUOTE] + message + seq![QUOTE] + ")!"@));
    assert(text.subrange(from, from + name.len()) =~= name);
    assert(occurs_at(text, name, from));
}

/// A name that no capability of any loaded plugin goes by is answered, for
/// every code that lexes and whatever the plugins would do, with a reason
/// that says there is nothing to expand.
pub proof fn lemma_unknown_target<F: Fn(Rustc, Invocation) -> Result<MyTokenStream, PanicMessage>>(
    libs: Seq<Seq<DescriptorView>>,
    code: Seq<char>,
    name: Seq<char>,
    attributes: Option<Seq<char>>,
    session: u32,
    invoke: F,
    outcome: Result<Seq<char>, ReasonView>,
)
    requires
        parsed(code) is Some,
        forall|i: int, j: int|
            0 <= i < libs.len() && 0 <= j < libs[i].len() ==> (#[trigger] libs[i][j]).name != name,
        expanded(libs, code, name, attributes, session, invoke, outcome),
    ensures
        outcome == Err::<Seq<char>, ReasonView>(ReasonView::NothingToExpand),
        result_of(name, outcome) == Some(
            ResultView::Error { reason: nothing_to_expand_text(name) },
        ),
        occurs_in(nothing_to_expand_text(name), NOTHING_TO_EXPAND@),
        occurs_in(nothing_to_expand_text(name), name),
{
    lemma_selected(libs, name, 0);
    if selected(libs, name) is Some {
        let (i, j) = selected(libs, name)->Some_0;
        assert(libs[i][j].name != name);
    }
    lemma_host_failure_text(name, NOTHING_TO_EXPAND@);
}

/// In a task whose code lexes, a name that no capability of any loaded
/// plugin goes by has its answer, whatever the other names and the attribute
/// text of the task are and whatever the plugins do: the task has its
/// answers, and the answer for that name is the error that says there is
/// nothing to expand and names the name.
pub proof fn lemma_unknown_target_in_task<F: Fn(Rustc, Invocation) -> Result<
    MyTokenStream,
    PanicMessage,
>>(
    libs: Seq<Seq<DescriptorView>>,
    task: ExpansionTask,
    first: u32,
    invoke: F,
    r: Result<(ExpansionResults, u32), TaskFailure>,
    n: int,
)
    requires
        task_expanded(libs, task, first, invoke, r),
        parsed(task.macro_body@) is Some,
        0 <= n < task.macro_names@.len(),
        forall|i: int, j: int|
            0 <= i < libs.len() && 0 <= j < libs[i].len() ==> (#[trigger] libs[i][j]).name
                != task.macro_names@[n]@,
    ensures
        r is Ok,
        r->Ok_0.0@.len() == task.macro_names@.len(),
        r->Ok_0.0@[n] == (ResultView::Error {
            reason: nothing_to_expand_text(task.macro_names@[n]@),
        }),
        occurs_in(nothing_to_expand_text(task.macro_names@[n]@), NOTHING_TO_EXPAND@),
        occurs_in(nothing_to_expand_text(task.macro_names@[n]@), task.macro_names@[n]@),
{
    let name = task.macro_names@[n]@;
    assert(answered(libs, task, first, invoke, n, r->Ok_0.0@[n]));
    let outcome = choose|outcome: Result<Seq<char>, ReasonView>| #[trigger]
        name_expanded(libs, task, first, invoke, n, outcome) && result_of(name, outcome) == Some(
            r->Ok_0.0@[n],
        );
    lemma_unknown_target(
        libs,
        task.macro_body@,
        name,
        match task.attributes {
            Some(text) => Some(text@),
            None => None,
        },
        session_after(first, n),
        invoke,
        outcome,
    );
}

/// The answers of a task keep the order of its names. Where the code of
/// the task lexes the task has exactly one answer for each name, whatever
/// became of the names before it; the answer at a position is made from
/// what the expansion of the name at that position came to, and an
/// expansion that gave a text makes the success with that text.
pub proof fn lemma_answers_in_order<F: Fn(Rustc, Invocation) -> Result<MyTokenStream, PanicMessage>>(
    libs: Seq<Seq<DescriptorView>>,
    task: ExpansionTask,
    first: u32,
    invoke: F,
    r: Result<(ExpansionResults, u32), TaskFailure>,
    n: int,
)
    requires
        task_expanded(libs, task, first, invoke, r),
        parsed(task.macro_body@) is Some,
        0 <= n < task.macro_names@.len(),
    ensures
        r is Ok,
        r->Ok_0.0@.len() == task.macro_names@.len(),
        answered(libs, task, first, invoke, n, r->Ok_0.0@[n]),
        forall|text: Seq<char>| #[trigger]
            result_of(task.macro_names@[n]@, Ok::<Seq<char>, ReasonView>(text)) == Some(
                ResultView::Success { expansion: text },
            ),
{
}

/// The input of an invocation: the code that the capability is called on.
pub open spec fn input_of(invocation: InvocationView) -> Seq<TokenView> {
    match invocation {
        InvocationView::CustomDerive { item, .. } => item,
        InvocationView::Bang { body, .. } => body,
        InvocationView::Attr { item, .. } => item,
    }
}

/// A capability that hands its input back unchanged gives, for every code
/// that lexes, the text of the tokens of that code.
pub proof fn lemma_identity_capability<F: Fn(Rustc, Invocation) -> Result<
    MyTokenStream,
    PanicMessage,
>>(
    libs: Seq<Seq<DescriptorView>>,
    code: Seq<char>,
    name: Seq<char>,
    attributes: Option<Seq<char>>,
    session: u32,
    invoke: F,
    outcome: Result<Seq<char>, ReasonView>,
)
    requires
        planned(libs, code, name, attributes) is Ok,
        forall|server: Rustc, invocation: Invocation, answer: Result<MyTokenStream, PanicMessage>|
            #[trigger] call_ensures(invoke, (server, invocation), answer) ==> answer is Ok
                && answer->Ok_0@ == input_of(invocation@),
        expanded(libs, code, name, attributes, session, invoke, outcome),
    ensures
        parsed(code) is Some,
        outcome == Ok::<Seq<char>, ReasonView>(rendered(parsed(code)->Some_0)),
{
    lemma_placed_text(parsed(code)->Some_0, CODE_SOURCE);
}

/// A capability that always hands back the same tokens gives the text of
/// those tokens, whatever code it is called on.
pub proof fn lemma_constant_capability<F: Fn(Rustc, Invocation) -> Result<
    MyTokenStream,
    PanicMessage,
>>(
    libs: Seq<Seq<DescriptorView>>,
    code: Seq<char>,
    name: Seq<char>,
    attributes: Option<Seq<char>>,
    session: u32,
    invoke: F,
    fragment: Seq<TokenView>,
    outcome: Result<Seq<char>, ReasonView>,
)
    requires
        planned(libs, code, name, attributes) is Ok,
        forall|server: Rustc, invocation: Invocation, answer: Result<MyTokenStream, PanicMessage>|
            #[trigger] call_ensures(invoke, (server, invocation), answer) ==> answer is Ok
                && answer->Ok_0@ == fragment,
        expanded(libs, code, name, attributes, session, invoke, outcome),
    ensures
        outcome == Ok::<Seq<char>, ReasonView>(rendered(fragment)),
{
}

} // verus!
