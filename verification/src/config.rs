//! The formatting configuration: a flat value read by the renderer and
//! passed unchanged through the whole recursion.

use vstd::prelude::*;

verus! {

/// Layout preferences for one format call.
#[derive(Clone, Copy, PartialEq, Eq, Structural)]
pub struct OptionData {
    /// Preferred maximum line width; a command text argument whose rendered
    /// body is longer than this is forced into the multi-line form.
    pub row_length: usize,
    /// Number of spaces per indentation level.
    pub indent_space: usize,
    /// Whether a space is put between a command name and its text argument.
    pub command_args_space: bool,
}

impl Default for OptionData {
    /// The stock configuration: 80 columns, 4 spaces per level, spaced
    /// command arguments.
    fn default() -> (r: OptionData)
        ensures
            r.row_length == 80,
            r.indent_space == 4,
            r.command_args_space == true,
    {
        OptionData { row_length: 80, indent_space: 4, command_args_space: true }
    }
}

} // verus!
