//! The compiled program as its users see it: a forest of nodes that can be
//! rendered as text, listed path by path, and converted to and from the
//! stored form.

use crate::parser::ast::{Command as AstCommand, Program as AstProgram, Tree, forest};
use crate::parser::codec::{
    DecodeFault, decode_program, encode_program, fault_error, parsed_program, program_bytes,
};
use crate::parser::errors::ParseError;
use crate::parser::text::texts;
use vstd::prelude::*;

verus! {

/// A command of the compiled program, with the commands nested in it.
#[derive(Debug)]
pub struct Node {
    pub text: String,
    pub children: Vec<Node>,
}

/// A compiled program: its top-level commands in order.
#[derive(Debug)]
pub struct KlangProgram {
    pub program: Vec<Node>,
}

/// The values of a sequence of nodes, element by element.
pub open spec fn nodes_view(nodes: Seq<Node>) -> Seq<Tree>
    decreases nodes,
{
    Seq::new(
        nodes.len(),
        |i: int|
            if 0 <= i < nodes.len() {
                nodes[i].view()
            } else {
                arbitrary()
            },
    )
}

impl View for Node {
    type V = Tree;

    open spec fn view(&self) -> Tree
        decreases self,
    {
        Tree { text: self.text@, children: nodes_view(self.children@) }
    }
}

impl View for KlangProgram {
    type V = Seq<Tree>;

    open spec fn view(&self) -> Seq<Tree> {
        nodes_view(self.program@)
    }
}

/// A run of spaces.
pub open spec fn spaces(n: nat) -> Seq<char> {
    Seq::new(n, |i: int| ' ')
}

/// A command as text, indented by `indent` columns. A leaf is its text on a
/// line of its own. A command with children is its text followed by an
/// opening brace, then its children, each indented two columns further,
/// then a closing brace on a line of its own.
pub open spec fn rendered(tree: Tree, indent: nat) -> Seq<char>
    decreases tree,
{
    if tree.children.len() == 0 {
        spaces(indent) + tree.text + "\n"@
    } else {
        spaces(indent) + tree.text + " {\n"@ + rendered_all(tree.children, indent + 2) + spaces(
            indent,
        ) + "}\n"@
    }
}

/// Commands as text, one after the other, all indented by `indent` columns.
pub open spec fn rendered_all(trees: Seq<Tree>, indent: nat) -> Seq<char>
    decreases trees,
{
    if trees.len() == 0 {
        Seq::empty()
    } else {
        rendered_all(trees.drop_last(), indent) + rendered(trees.last(), indent)
    }
}

/// The paths of a command: for each leaf under it, the texts from the leaf
/// up to the command itself. A leaf has one path, which holds its own text.
pub open spec fn paths(tree: Tree) -> Seq<Seq<Seq<char>>>
    decreases tree,
{
    if tree.children.len() == 0 {
        seq![seq![tree.text]]
    } else {
        paths_of_all(tree.children).map_values(|path: Seq<Seq<char>>| path.push(tree.text))
    }
}

/// The paths of commands, one command after the other.
pub open spec fn paths_of_all(trees: Seq<Tree>) -> Seq<Seq<Seq<char>>>
    decreases trees,
{
    if trees.len() == 0 {
        Seq::empty()
    } else {
        paths_of_all(trees.drop_last()) + paths(trees.last())
    }
}

/// The views of a list of paths.
pub open spec fn paths_view(list: Seq<Vec<String>>) -> Seq<Seq<Seq<char>>> {
    list.map_values(|path: Vec<String>| texts(path@))
}

/// Converts nodes to stored commands.
fn nodes_to_ast(nodes: &Vec<Node>) -> (commands: Vec<AstCommand>)
    ensures
        forest(commands@) == nodes_view(nodes@),
    decreases nodes,
{
    let mut commands: Vec<AstCommand> = Vec::new();
    let mut i: usize = 0;
    while i < nodes.len()
        invariant
            i <= nodes.len(),
            commands.len() == i,
            forall|k: int| 0 <= k < i ==> (#[trigger] commands[k])@ == nodes[k]@,
        decreases nodes.len() - i,
    {
        commands.push(nodes[i].to_ast());
        i += 1;
    }
    commands
}

/// Converts stored commands to nodes.
fn nodes_from_ast(commands: &Vec<AstCommand>) -> (nodes: Vec<Node>)
    ensures
        nodes_view(nodes@) == forest(commands@),
    decreases commands,
{
    let mut nodes: Vec<Node> = Vec::new();
    let mut i: usize = 0;
    while i < commands.len()
        invariant
            i <= commands.len(),
            nodes.len() == i,
            forall|k: int| 0 <= k < i ==> (#[trigger] nodes[k])@ == commands[k]@,
        decreases commands.len() - i,
    {
        nodes.push(Node::from_ast(&commands[i]));
        i += 1;
    }
    nodes
}

/// Appends the text of a node to `out`. `prefix` holds the spaces of the
/// node's indentation.
fn render_into(node: &Node, prefix: &String, out: &mut String)
    requires
        prefix@ == spaces(prefix@.len()),
    ensures
        final(out)@ == old(out)@ + rendered(node@, prefix@.len()),
    decreases node,
{
    out.append(prefix.as_str());
    out.append(node.text.as_str());
    if node.children.len() == 0 {
        out.append("\n");
    } else {
        out.append(" {\n");
        let mut deeper = prefix.clone();
        deeper.append("  ");
        proof {
            reveal_strlit("  ");
            assert(deeper@ =~= spaces(prefix@.len() + 2));
        }
        render_all_into(&node.children, &deeper, out);
        out.append(prefix.as_str());
        out.append("}\n");
    }
}

/// Appends the text of nodes to `out`, one node after the other.
fn render_all_into(nodes: &Vec<Node>, prefix: &String, out: &mut String)
    requires
        prefix@ == spaces(prefix@.len()),
    ensures
        final(out)@ == old(out)@ + rendered_all(nodes_view(nodes@), prefix@.len()),
    decreases nodes,
{
    let ghost all = nodes_view(nodes@);
    let mut i: usize = 0;
    while i < nodes.len()
        invariant
            i <= nodes.len(),
            all == nodes_view(nodes@),
            prefix@ == spaces(prefix@.len()),
            out@ == old(out)@ + rendered_all(all.take(i as int), prefix@.len()),
        decreases nodes.len() - i,
    {
        proof {
            assert(all.take(i + 1).drop_last() =~= all.take(i as int));
        }
        render_into(&nodes[i], prefix, out);
        i += 1;
    }
    assert(all.take(nodes.len() as int) =~= all);
}

/// Appends the paths of nodes to `list`, one node after the other.
fn list_all_into(nodes: &Vec<Node>, list: &mut Vec<Vec<String>>)
    ensures
        paths_view(final(list)@) == paths_view(old(list)@) + paths_of_all(nodes_view(nodes@)),
    decreases nodes,
{
    let ghost all = nodes_view(nodes@);
    let mut i: usize = 0;
    while i < nodes.len()
        invariant
            i <= nodes.len(),
            all == nodes_view(nodes@),
            paths_view(list@) == paths_view(old(list)@) + paths_of_all(all.take(i as int)),
        decreases nodes.len() - i,
    {
        proof {
            assert(all.take(i + 1).drop_last() =~= all.take(i as int));
        }
        let mut more = nodes[i].to_list();
        let ghost front = paths_view(list@);
        let ghost back = paths_view(more@);
        list.append(&mut more);
        assert(paths_view(list@) =~= front + back);
        i += 1;
    }
    assert(all.take(nodes.len() as int) =~= all);
}

impl Node {
    /// The stored form of this node.
    pub fn to_ast(&self) -> (command: AstCommand)
        ensures
            command@ == self@,
        decreases self,
    {
        AstCommand { text: self.text.clone(), children: nodes_to_ast(&self.children) }
    }

    /// The node that a stored command stands for.
    pub fn from_ast(ast: &AstCommand) -> (node: Node)
        ensures
            node@ == ast@,
        decreases ast,
    {
        Node { text: ast.text.clone(), children: nodes_from_ast(&ast.children) }
    }

    /// This node as text, indented by `indent` columns.
    pub fn to_string(&self, indent: usize) -> (text: String)
        ensures
            text@ == rendered(self@, indent as nat),
    {
        let mut prefix = String::new();
        let mut i: usize = 0;
        proof {
            reveal_strlit(" ");
        }
        while i < indent
            invariant
                i <= indent,
                prefix@ == spaces(i as nat),
                " "@.len() == 1,
                " "@[0] == ' ',
            decreases indent - i,
        {
            prefix.append(" ");
            i += 1;
        }
        let mut text = String::new();
        render_into(self, &prefix, &mut text);
        text
    }

    /// The paths of this node: for each leaf under it, the texts from the
    /// leaf up to this node.
    pub fn to_list(&self) -> (list: Vec<Vec<String>>)
        ensures
            paths_view(list@) == paths(self@),
        decreases self,
    {
        if self.children.len() == 0 {
            let mut path: Vec<String> = Vec::new();
            path.push(self.text.clone());
            let mut list: Vec<Vec<String>> = Vec::new();
            list.push(path);
            assert(texts(path@) =~= seq![self.text@]);
            list
        } else {
            let mut list: Vec<Vec<String>> = Vec::new();
            list_all_into(&self.children, &mut list);
            let ghost below = paths_of_all(nodes_view(self.children@));
            let mut i: usize = 0;
            while i < list.len()
                invariant
                    i <= list.len(),
                    list.len() == below.len(),
                    forall|k: int| 0 <= k < i ==> texts((#[trigger] list[k])@) == below[k].push(self.text@),
                    forall|k: int| i <= k < list.len() ==> texts((#[trigger] list[k])@) == below[k],
                decreases list.len() - i,
            {
                let mut path: Vec<String> = Vec::new();
                std::mem::swap(&mut path, &mut list[i]);
                path.push(self.text.clone());
                list[i] = path;
                i += 1;
            }
            list
        }
    }
}

impl KlangProgram {
    /// The stored form of this program.
    pub fn to_ast(&self) -> (ast: AstProgram)
        ensures
            ast@ == self@,
    {
        AstProgram { commands: nodes_to_ast(&self.program) }
    }

    /// The program that a stored program stands for.
    pub fn from_ast(ast: &AstProgram) -> (program: KlangProgram)
        ensures
            program@ == ast@,
    {
        KlangProgram { program: nodes_from_ast(&ast.commands) }
    }

    /// This program as bytes. Reading the bytes gives the program back.
    pub fn encode(&self) -> (bytes: Vec<u8>)
        ensures
            bytes@ == program_bytes(self@),
            parsed_program(bytes@) == Ok::<Seq<Tree>, DecodeFault>(self@),
    {
        encode_program(&self.to_ast())
    }

    /// Reads a program from its bytes. It succeeds exactly where the bytes
    /// hold a program; truncated or damaged bytes give an error.
    pub fn decode(bytes: &[u8]) -> (result: Result<KlangProgram, ParseError>)
        ensures
            match parsed_program(bytes@) {
                Ok(trees) => result is Ok && result->Ok_0@ == trees,
                Err(fault) => result is Err && result->Err_0@ == fault_error(fault),
            },
    {
        match decode_program(bytes) {
            Ok(ast) => Ok(KlangProgram::from_ast(&ast)),
            Err(error) => Err(error),
        }
    }

    /// This program as text: its commands one after the other, none of
    /// them indented.
    pub fn to_text(&self) -> (text: String)
        ensures
            text@ == rendered_all(self@, 0),
    {
        let prefix = String::new();
        let mut text = String::new();
        assert(prefix@ =~= spaces(0));
        render_all_into(&self.program, &prefix, &mut text);
        text
    }

    /// The paths of this program: those of its commands, one command after
    /// the other.
    pub fn to_list(&self) -> (list: Vec<Vec<String>>)
        ensures
            paths_view(list@) == paths_of_all(self@),
    {
        let mut list: Vec<Vec<String>> = Vec::new();
        list_all_into(&self.program, &mut list);
        list
    }
}

} // verus!
