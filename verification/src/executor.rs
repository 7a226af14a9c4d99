//! What a captured command hands to the rest of the pipeline.

use vstd::prelude::*;

verus! {

/// The command line that was run (empty when the output came from standard
/// input) and the raw bytes it wrote to its terminal.
pub struct CommandResult {
    pub command: String,
    pub raw_output: Vec<u8>,
}

} // verus!
