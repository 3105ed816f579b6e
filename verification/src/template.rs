//! Templates as the configuration file writes them, and the templates that
//! the configuration builds from them: a template together with the base
//! directory it is resolved against and the variables it is filled with.
use vstd::prelude::*;
use crate::text::pairs_view;

verus! {

/// A template as written in the configuration file, such as `cpp/{kebab}.cpp`.
pub struct TemplateBuilder {
    pub text: String,
}

impl TemplateBuilder {
    /// A copy of the template.
    pub fn copy(&self) -> (r: TemplateBuilder)
        ensures
            r == *self,
    {
        TemplateBuilder { text: self.text.clone() }
    }
}


/// Appends a copy of the variables `extra` to `v`.
pub fn append_pairs(v: &mut Vec<(String, String)>, extra: &Vec<(String, String)>)
    ensures
        pairs_view(final(v)@) == pairs_view(old(v)@) + pairs_view(extra@),
{
    let ghost v0 = pairs_view(v@);
    let ghost n0 = v@.len();
    let mut i: usize = 0;
    while i < extra.len()
        invariant
            i <= extra.len(),
            v0.len() == n0,
            v@.len() == n0 + i,
            pairs_view(v@) == v0 + pairs_view(extra@).take(i as int),
        decreases extra.len() - i,
    {
        let k = extra[i].0.clone();
        let x = extra[i].1.clone();
        let ghost r0 = v@;
        v.push((k, x));
        i = i + 1;
        assert forall|j: int| 0 <= j < v@.len() implies #[trigger] pairs_view(v@)[j] == (v0 + pairs_view(extra@).take(i as int))[j] by {
            if j < v@.len() - 1 {
                assert(v@[j] == r0[j]);
                assert(pairs_view(r0)[j] == (v0 + pairs_view(extra@).take(i - 1))[j]);
            }
        }
        assert(pairs_view(v@) =~= v0 + pairs_view(extra@).take(i as int));
    }
    assert(pairs_view(extra@).take(extra.len() as int) =~= pairs_view(extra@));
}

/// A template of a file path, with the base directory it is resolved
/// against and the variables it is filled with.
pub struct Template<'a> {
    pub builder: &'a TemplateBuilder,
    pub base_dir: String,
    pub strings: Vec<(String, String)>,
}

/// A command as written in the configuration file: a list of arguments,
/// or a script for one of the shells of the configuration.
pub enum CommandBuilder {
    Args(Vec<TemplateBuilder>),
    Shell { shell: String, script: TemplateBuilder },
}

/// A shell that scripts run with: its name and the arguments that run a script.
pub struct ShellEntry {
    pub name: String,
    pub args: Vec<TemplateBuilder>,
}

/// What a transpilation command is built with.
pub struct TranspilationRequirements<'a> {
    pub base_dir: String,
    pub shell: &'a Vec<ShellEntry>,
    pub working_dir: &'a TemplateBuilder,
    pub src: &'a TemplateBuilder,
    pub transpiled: &'a TemplateBuilder,
}

/// What a compilation command is built with.
pub struct CompilationRequirements<'a> {
    pub base_dir: String,
    pub shell: &'a Vec<ShellEntry>,
    pub working_dir: &'a TemplateBuilder,
    pub src: &'a TemplateBuilder,
    pub transpiled: Option<&'a TemplateBuilder>,
    pub bin: &'a TemplateBuilder,
}

/// What a command that runs a solution or a tester is built with.
pub struct JudgingRequirements<'a> {
    pub base_dir: String,
    pub shell: &'a Vec<ShellEntry>,
    pub working_dir: &'a TemplateBuilder,
    pub src: &'a TemplateBuilder,
    pub bin: Option<&'a TemplateBuilder>,
    pub transpiled: Option<&'a TemplateBuilder>,
    pub crlf_to_lf: bool,
}

/// A template of a command, with what it is built with and the variables it
/// is filled with.
pub struct CommandTemplate<'a, R> {
    pub command: &'a CommandBuilder,
    pub requirements: R,
    pub strings: Vec<(String, String)>,
}

} // verus!
