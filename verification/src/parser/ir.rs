//! The intermediate representation: the lines of a program as they were
//! written, before any call is resolved.

use vstd::prelude::*;

verus! {

/// The mathematical value of one part of a template.
pub enum PartView {
    Literal(Seq<char>),
    Placeholder(Seq<char>),
}

/// The mathematical value of a function definition.
pub struct FunctionDefView {
    pub name: Seq<PartView>,
    pub body: Seq<LineView>,
}

/// The mathematical value of a line.
pub enum LineView {
    FunctionDef(FunctionDefView),
    FunctionCall(Seq<PartView>),
    Command(Seq<PartView>),
}

/// One part of a template: literal text, or a named slot in brackets.
#[derive(Debug)]
pub enum Part {
    Literal(String),
    Placeholder(String),
}

/// An ordered sequence of literal and placeholder parts. It serves as the
/// name of a function, as the target of a call and as the text of a command.
#[derive(Debug)]
pub struct TextTemplate {
    pub parts: Vec<Part>,
}

/// A function definition. The placeholders of its name are its parameters,
/// in the order in which they appear.
#[derive(Debug)]
pub struct FunctionDef {
    pub name: TextTemplate,
    pub body: Vec<Line>,
}

/// A call site. Its parts are literal text or refer to a placeholder of the
/// enclosing definition.
#[derive(Debug)]
pub struct FunctionCall {
    pub target: TextTemplate,
}

/// A leaf command.
#[derive(Debug)]
pub struct Command {
    pub text: TextTemplate,
}

/// One line of a program.
#[derive(Debug)]
pub enum Line {
    FunctionDef(FunctionDef),
    FunctionCall(FunctionCall),
    Command(Command),
}

/// A program: its top-level lines in source order.
#[derive(Debug)]
pub struct Program {
    pub lines: Vec<Line>,
}

impl View for Part {
    type V = PartView;

    open spec fn view(&self) -> PartView {
        match self {
            Part::Literal(text) => PartView::Literal(text@),
            Part::Placeholder(name) => PartView::Placeholder(name@),
        }
    }
}

impl View for TextTemplate {
    type V = Seq<PartView>;

    open spec fn view(&self) -> Seq<PartView> {
        self.parts@.map_values(|part: Part| part@)
    }
}

impl View for FunctionCall {
    type V = Seq<PartView>;

    open spec fn view(&self) -> Seq<PartView> {
        self.target@
    }
}

impl View for Command {
    type V = Seq<PartView>;

    open spec fn view(&self) -> Seq<PartView> {
        self.text@
    }
}

/// The values of a sequence of lines, element by element.
pub open spec fn lines_view(lines: Seq<Line>) -> Seq<LineView>
    decreases lines,
{
    Seq::new(
        lines.len(),
        |i: int|
            if 0 <= i < lines.len() {
                lines[i].view()
            } else {
                arbitrary()
            },
    )
}

impl View for FunctionDef {
    type V = FunctionDefView;

    open spec fn view(&self) -> FunctionDefView
        decreases self,
    {
        FunctionDefView { name: self.name@, body: lines_view(self.body@) }
    }
}

impl View for Line {
    type V = LineView;

    open spec fn view(&self) -> LineView
        decreases self,
    {
        match self {
            Line::FunctionDef(def) => LineView::FunctionDef(def.view()),
            Line::FunctionCall(call) => LineView::FunctionCall(call@),
            Line::Command(command) => LineView::Command(command@),
        }
    }
}

impl View for Program {
    type V = Seq<LineView>;

    open spec fn view(&self) -> Seq<LineView> {
        lines_view(self.lines@)
    }
}

impl Clone for Part {
    fn clone(&self) -> (copy: Part)
        ensures
            copy@ == self@,
    {
        match self {
            Part::Literal(text) => Part::Literal(text.clone()),
            Part::Placeholder(name) => Part::Placeholder(name.clone()),
        }
    }
}

impl Clone for TextTemplate {
    fn clone(&self) -> (copy: TextTemplate)
        ensures
            copy@ == self@,
    {
        let mut parts: Vec<Part> = Vec::new();
        let mut i: usize = 0;
        while i < self.parts.len()
            invariant
                i <= self.parts.len(),
                parts.len() == i,
                forall|k: int| 0 <= k < i ==> (#[trigger] parts[k])@ == self.parts[k]@,
            decreases self.parts.len() - i,
        {
            parts.push(self.parts[i].clone());
            i += 1;
        }
        let copy = TextTemplate { parts };
        assert(copy@ =~= self@);
        copy
    }
}

impl Clone for FunctionCall {
    fn clone(&self) -> (copy: FunctionCall)
        ensures
            copy@ == self@,
    {
        FunctionCall { target: self.target.clone() }
    }
}

impl Clone for Command {
    fn clone(&self) -> (copy: Command)
        ensures
            copy@ == self@,
    {
        Command { text: self.text.clone() }
    }
}

/// Copies a sequence of lines, with everything nested in them.
pub fn clone_lines(lines: &Vec<Line>) -> (copy: Vec<Line>)
    ensures
        lines_view(copy@) == lines_view(lines@),
    decreases lines,
{
    let mut copy: Vec<Line> = Vec::new();
    let mut i: usize = 0;
    while i < lines.len()
        invariant
            i <= lines.len(),
            copy.len() == i,
            forall|k: int| 0 <= k < i ==> (#[trigger] copy[k])@ == lines[k]@,
        decreases lines.len() - i,
    {
        copy.push(lines[i].clone());
        i += 1;
    }
    assert(lines_view(copy@) =~= lines_view(lines@));
    copy
}

impl Clone for FunctionDef {
    fn clone(&self) -> (copy: FunctionDef)
        ensures
            copy@ == self@,
        decreases self,
    {
        FunctionDef { name: self.name.clone(), body: clone_lines(&self.body) }
    }
}

impl Clone for Line {
    fn clone(&self) -> (copy: Line)
        ensures
            copy@ == self@,
        decreases self,
    {
        match self {
            Line::FunctionDef(def) => Line::FunctionDef(def.clone()),
            Line::FunctionCall(call) => Line::FunctionCall(call.clone()),
            Line::Command(command) => Line::Command(command.clone()),
        }
    }
}

impl Clone for Program {
    fn clone(&self) -> (copy: Program)
        ensures
            copy@ == self@,
    {
        Program { lines: clone_lines(&self.lines) }
    }
}

} // verus!
