//! Launch decisions of the viewer.
use vstd::prelude::*;

use crate::text::str_eq;

verus! {

/// A viewer tool that the viewer can hand a file to.
#[derive(Debug, Clone)]
pub struct ToolSpec {
    /// The executable's name, as looked up on `PATH`.
    pub binary: String,
}

/// `i` is the first tool in `tools` whose binary is `name`.
pub open spec fn is_first_tool(tools: Seq<ToolSpec>, name: Seq<char>, i: int) -> bool {
    &&& 0 <= i < tools.len()
    &&& tools[i].binary@ == name
    &&& forall|j: int| 0 <= j < i ==> (#[trigger] tools[j]).binary@ != name
}

/// Toggle mode for LaTeX or Typst files (rendered source view): for now a
/// source view, with `bat` when `bat_available` says it is on `PATH`, else
/// with the last of the text tools. Returns the position in `text_tools` of
/// the tool to launch full-screen.
pub fn launch_toggle(bat_available: bool, text_tools: &[ToolSpec]) -> (tool: usize)
    requires
        text_tools@.len() > 0,
        bat_available ==> exists|i: int|
            0 <= i < text_tools@.len() && (#[trigger] text_tools@[i]).binary@ == "bat"@,
    ensures
        bat_available ==> is_first_tool(text_tools@, "bat"@, tool as int),
        !bat_available ==> tool == text_tools@.len() - 1,
{
    if bat_available {
        let mut i: usize = 0;
        while i < text_tools.len()
            invariant
                bat_available,
                i <= text_tools@.len(),
                forall|j: int| 0 <= j < i ==> (#[trigger] text_tools@[j]).binary@ != "bat"@,
            decreases text_tools@.len() - i,
        {
            if str_eq(text_tools[i].binary.as_str(), "bat") {
                return i;
            }
            i = i + 1;
        }
    }
    text_tools.len() - 1
}

} // verus!
