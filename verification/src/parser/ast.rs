//! The resolved command tree, which is what expansion produces and what the
//! binary form stores.

use vstd::prelude::*;

verus! {

/// The mathematical value of a resolved command: its text and its children,
/// in order.
pub struct Tree {
    pub text: Seq<char>,
    pub children: Seq<Tree>,
}

/// A resolved command. Its text holds no placeholder any more; its children
/// are the commands that the call it stands for expanded to.
#[derive(Debug)]
pub struct Command {
    pub text: String,
    pub children: Vec<Command>,
}

/// The resolved program: the top-level commands in source order.
#[derive(Debug)]
pub struct Program {
    pub commands: Vec<Command>,
}

/// The values of a sequence of commands, element by element.
pub open spec fn forest(commands: Seq<Command>) -> Seq<Tree>
    decreases commands,
{
    Seq::new(commands.len(), |i: int| if 0 <= i < commands.len() { commands[i].view() } else { arbitrary() })
}

impl View for Command {
    type V = Tree;

    open spec fn view(&self) -> Tree
        decreases self,
    {
        Tree { text: self.text@, children: forest(self.children@) }
    }
}

impl View for Program {
    type V = Seq<Tree>;

    open spec fn view(&self) -> Seq<Tree> {
        forest(self.commands@)
    }
}

} // verus!
