//! What a run of the command-line program does with its arguments.

use vstd::prelude::*;

verus! {

/// The renderings that a run prints: the blocks first, then the braille.
#[derive(Clone, Copy, Debug, PartialEq, Eq, Structural)]
pub struct Selection {
    pub blocks: bool,
    pub braille: bool,
}

/// What a run does.
#[derive(Clone, Copy, Debug, PartialEq, Eq, Structural)]
pub enum Action {
    /// Print the usage text and end without an error.
    Usage,
    /// Render the image that the first free argument names.
    Render(Selection),
}

/// The renderings asked for by the flags for blocks (`rect`) and braille:
/// blocks only where their flag is set, braille always but where blocks
/// alone are asked for.
pub open spec fn selected(rect: bool, braille: bool) -> Selection {
    Selection { blocks: rect, braille: !rect || braille }
}

/// The renderings that the flags ask for. Something is always printed.
pub fn select_outputs(rect: bool, braille: bool) -> (selection: Selection)
    ensures
        selection == selected(rect, braille),
        selection.blocks || selection.braille,
{
    Selection { blocks: rect, braille: !rect || braille }
}

/// What a run does: with the help flag, or without a free argument to name
/// the image, it prints the usage text; else it renders what the flags
/// select.
pub fn plan_run(help: bool, has_input: bool, rect: bool, braille: bool) -> (action: Action)
    ensures
        help || !has_input ==> action == Action::Usage,
        !help && has_input ==> action == Action::Render(selected(rect, braille)),
{
    if help || !has_input {
        Action::Usage
    } else {
        Action::Render(select_outputs(rect, braille))
    }
}

} // verus!
