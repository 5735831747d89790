//! What is asked of the host, and what it answers.

use vstd::prelude::*;

verus! {

/// One request: expand the named capabilities on a piece of code.
#[derive(Debug, PartialEq, Eq)]
pub struct ExpansionTask {
    /// Argument of macro call.
    ///
    /// In custom derive that would be a struct or enum; in attribute-like macro - underlying
    /// item; in function-like macro - the macro body.
    pub macro_body: String,
    /// Names of macros to expand.
    ///
    /// In custom derive those are names of derived traits (`Serialize`, `Getters`, etc.). In
    /// attribute-like and function-like macros - single name of macro itself (`show_streams`).
    pub macro_names: Vec<String>,
    /// Possible attributes for the attribute-like macros.
    pub attributes: Option<String>,
    /// The plugins to load, in the order in which they are searched.
    pub libs: Vec<String>,
}

/// The answer for one name of a task.
#[derive(Debug, PartialEq, Eq)]
pub enum ExpansionResult {
    Success { expansion: String },
    Error { reason: String },
}

/// The mathematical value of an answer.
pub enum ResultView {
    Success { expansion: Seq<char> },
    Error { reason: Seq<char> },
}

impl View for ExpansionResult {
    type V = ResultView;

    open spec fn view(&self) -> ResultView {
        match self {
            ExpansionResult::Success { expansion } => ResultView::Success { expansion: expansion@ },
            ExpansionResult::Error { reason } => ResultView::Error { reason: reason@ },
        }
    }
}

/// The answers for one task: one for each name, in the order of the names.
#[derive(Debug, PartialEq, Eq)]
pub struct ExpansionResults {
    pub results: Vec<ExpansionResult>,
}

impl View for ExpansionResults {
    type V = Seq<ResultView>;

    open spec fn view(&self) -> Seq<ResultView> {
        Seq::new(self.results@.len(), |i: int| self.results@[i]@)
    }
}

} // verus!
