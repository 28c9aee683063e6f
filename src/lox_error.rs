use vstd::prelude::*;

verus! {

/// A diagnostic: the line it concerns and a message.
#[derive(Debug, Clone, PartialEq)]
pub struct LoxError {
    pub line: usize,
    pub message: String,
}

impl View for LoxError {
    type V = (nat, Seq<char>);

    open spec fn view(&self) -> (nat, Seq<char>) {
        (self.line as nat, self.message@)
    }
}

/// The views of a sequence of diagnostics, element by element.
pub open spec fn errors_view(es: Seq<LoxError>) -> Seq<(nat, Seq<char>)> {
    es.map_values(|e: LoxError| e@)
}

impl LoxError {
    /// A diagnostic with the given line and message.
    pub fn error(line: usize, message: String) -> (r: LoxError)
        ensures
            r.line == line,
            r.message == message,
    {
        LoxError { line, message }
    }
}

} // verus!
