use vstd::prelude::*;

verus! {

/// One external command: the program to run and its arguments, in order.
/// Equality is structural.
#[derive(Debug, Clone, PartialEq, Eq)]
pub struct Command {
    /// Name of the program to execute (e.g. `curl`).
    pub name: String,
    /// Arguments passed to the program.
    pub args: Vec<String>,
}

/// A command as plain values.
pub struct CommandModel {
    pub name: Seq<char>,
    pub args: Seq<Seq<char>>,
}

/// The text of each string, in order.
pub open spec fn texts(v: Seq<String>) -> Seq<Seq<char>> {
    v.map_values(|s: String| s@)
}

impl View for Command {
    type V = CommandModel;

    open spec fn view(&self) -> CommandModel {
        CommandModel { name: self.name@, args: texts(self.args@) }
    }
}

} // verus!
