use vstd::prelude::*;

verus! {

/// What the execution engine reports back for one invocation: the text it
/// produced and whether the run succeeded. On success the text is the
/// engine's machine-readable output; on failure it is free-form diagnostic
/// text. The engine itself is an outside collaborator that the caller runs;
/// the pipeline takes its result as a plain value and trusts nothing about
/// the text beyond what the `success` flag says.
pub struct EngineResult {
    pub output: String,
    pub success: bool,
}

} // verus!
