//! Project instructions: `LUMINUS.md`, `AGENTS.md` and
//! `.luminus/instructions.md` under the project root, read by the caller and
//! collected here.

use vstd::prelude::*;

use crate::text::{join, join_strs, push_str, strs_view};

verus! {

/// The instruction files looked for, relative to the project root, in order.
pub fn instruction_files() -> (r: Vec<&'static str>)
    ensures
        r@.len() == 3,
        r@[0]@ == "LUMINUS.md"@,
        r@[1]@ == "AGENTS.md"@,
        r@[2]@ == ".luminus/instructions.md"@,
{
    let mut r: Vec<&'static str> = Vec::new();
    r.push("LUMINUS.md");
    r.push("AGENTS.md");
    r.push(".luminus/instructions.md");
    r
}

/// The instructions found in a project and where they came from.
#[derive(Debug, Clone)]
pub struct ProjectContext {
    pub instructions: Vec<String>,
    pub loaded_paths: Vec<String>,
}

impl Default for ProjectContext {
    fn default() -> (c: Self)
        ensures
            c.instructions@.len() == 0,
            c.loaded_paths@.len() == 0,
    {
        ProjectContext { instructions: Vec::new(), loaded_paths: Vec::new() }
    }
}

impl ProjectContext {
    /// Records an instruction file that was read: its content under a
    /// `# <relative path>` heading.
    pub fn add_file(&mut self, relative: &str, path: String, content: &str)
        ensures
            strs_view(final(self).instructions@) == strs_view(old(self).instructions@).push(
                "# "@ + relative@ + "\n"@ + content@,
            ),
            final(self).loaded_paths@ == old(self).loaded_paths@.push(path),
    {
        let mut text = "# ".to_owned();
        push_str(&mut text, relative);
        push_str(&mut text, "\n");
        push_str(&mut text, content);
        let ghost before = self.instructions@;
        self.instructions.push(text);
        assert(strs_view(self.instructions@) =~= strs_view(before).push(
            "# "@ + relative@ + "\n"@ + content@,
        ));
        self.loaded_paths.push(path);
    }

    /// The instructions, separated by `---` rules.
    pub fn formatted_instructions(&self) -> (r: String)
        ensures
            r@ == join(strs_view(self.instructions@), "\n\n---\n\n"@),
    {
        join_strs(&self.instructions, "\n\n---\n\n")
    }
}

} // verus!
