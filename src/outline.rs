use vstd::prelude::*;

verus! {

/// One symbol that an outline provider found in a source file.
pub struct Symbol {
    pub kind: String,
    pub ident: String,
}

/// What the outline of one file came to.
pub enum OutlineResult {
    /// The symbols that the first provider supporting the file found, in order.
    Symbols(Vec<Symbol>),
    /// That provider could not parse the file; the message says why.
    Failed(String),
    /// No provider supports the file.
    Unsupported,
}

/// A language-specific outline extractor.
pub trait OutlineProvider {
    /// Whether this provider handles the file at `path`.
    fn supports(&self, path: &str) -> bool;

    /// The public symbols of the source text `src`, in order, or a message
    /// saying why it could not be parsed.
    fn extract(&self, path: &str, src: &str) -> Result<Vec<Symbol>, String>;
}

} // verus!
