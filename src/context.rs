use vstd::prelude::*;

verus! {

/// Diagnostic state of one lexing or parsing pass: where the pass stands and
/// how the source is named in messages.
pub struct Context {
    pub code_source: String,
    pub line: u64,
    pub position: u64,
}

impl Context {
    pub fn new() -> (r: Context)
        ensures
            r.code_source@.len() == 0,
            r.line == 0,
            r.position == 0,
    {
        Context { code_source: String::new(), line: 0, position: 0 }
    }

    pub fn set_code_source(&mut self, code_source: String)
        ensures
            final(self).code_source == code_source,
            final(self).line == old(self).line,
            final(self).position == old(self).position,
    {
        self.code_source = code_source;
    }
}

} // verus!
