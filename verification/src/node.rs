use vstd::prelude::*;

verus! {

use vstd::string::StringExecFns;
use crate::lexer::{ItemType, is_space_char, is_digit_char};
use crate::strutil::unescape_range;
use crate::strutil::str_chars;

/// A tree identifier, assigned when a named tree's parse starts.
pub type TreeId = usize;

/// A character offset into the template source.
pub type Pos = usize;

/// The tag set of the node variants the parser produces.
#[derive(Clone, Copy, Debug, PartialEq, Eq, Structural)]
pub enum NodeType {
    Text,
    Action,
    Bool,
    Chain,
    Command,
    Dot,
    Else,
    End,
    Field,
    Identifier,
    If,
    List,
    Nil,
    Number,
    Pipe,
    Range,
    String,
    Template,
    Variable,
    With,
}

/// An ordered list of nodes: the body of a tree or of a control construct.
pub struct ListNode {
    pub tree_id: TreeId,
    pub pos: Pos,
    pub nodes: Vec<Nodes>,
}

/// A run of literal text outside any action.
pub struct TextNode {
    pub tree_id: TreeId,
    pub pos: Pos,
    pub text: String,
}

/// A plain action: a pipeline between delimiters.
pub struct ActionNode {
    pub tree_id: TreeId,
    pub pos: Pos,
    pub pipe: PipeNode,
}

/// A pipeline: declared variables and pipe-separated commands.
pub struct PipeNode {
    pub tree_id: TreeId,
    pub pos: Pos,
    pub decl: Vec<VariableNode>,
    pub cmds: Vec<CommandNode>,
}

/// One command: an operand list standing for a call and its arguments.
pub struct CommandNode {
    pub tree_id: TreeId,
    pub pos: Pos,
    pub args: Vec<Nodes>,
}

/// An if construct with its condition, body and optional else body.
pub struct IfNode {
    pub tree_id: TreeId,
    pub pos: Pos,
    pub pipe: PipeNode,
    pub list: ListNode,
    pub else_list: Option<ListNode>,
}

/// A range construct with its pipeline, body and optional else body.
pub struct RangeNode {
    pub tree_id: TreeId,
    pub pos: Pos,
    pub pipe: PipeNode,
    pub list: ListNode,
    pub else_list: Option<ListNode>,
}

/// A with construct with its pipeline, body and optional else body.
pub struct WithNode {
    pub tree_id: TreeId,
    pub pos: Pos,
    pub pipe: PipeNode,
    pub list: ListNode,
    pub else_list: Option<ListNode>,
}

/// The `{{end}}` marker closing a body.
pub struct EndNode {
    pub tree_id: TreeId,
    pub pos: Pos,
}

/// The `{{else}}` marker between a body and its else body.
pub struct ElseNode {
    pub pos: Pos,
    pub line: usize,
}

/// Either a literal template name or a pipeline producing one.
pub enum PipeOrString {
    Pipe(PipeNode),
    String(String),
}

/// A template invocation: a name (or name pipeline) and an optional
/// argument pipeline.
pub struct TemplateNode {
    pub tree_id: TreeId,
    pub pos: Pos,
    pub name: PipeOrString,
    pub pipe: Option<PipeNode>,
}

/// A base operand extended by field accesses.
pub struct ChainNode {
    pub tree_id: TreeId,
    pub pos: Pos,
    pub node: Box<Nodes>,
    pub field: Vec<String>,
}

/// A dotted field path such as `.a.b`, stored with its leading dot.
pub struct FieldNode {
    pub tree_id: TreeId,
    pub pos: Pos,
    pub ident: String,
}

/// A variable reference such as `$x` or a dotted `$x.y`.
pub struct VariableNode {
    pub tree_id: TreeId,
    pub pos: Pos,
    pub ident: String,
}

/// A reference to a configured function by name.
pub struct IdentifierNode {
    pub tree_id: TreeId,
    pub pos: Pos,
    pub ident: String,
}

/// The bare `.` operand.
pub struct DotNode {
    pub tree_id: TreeId,
    pub pos: Pos,
}

/// The `nil` operand.
pub struct NilNode {
    pub tree_id: TreeId,
    pub pos: Pos,
}

/// A boolean literal.
pub struct BoolNode {
    pub tree_id: TreeId,
    pub pos: Pos,
    pub value: bool,
}

/// A numeric or character-constant literal, kept with its source text and
/// the integer readings that fit it.
pub struct NumberNode {
    pub tree_id: TreeId,
    pub pos: Pos,
    pub text: String,
    pub is_int: bool,
    pub int64: i64,
    pub is_uint: bool,
    pub uint64: u64,
}

/// A string literal, kept in quoted form beside its decoded text.
pub struct StringNode {
    pub tree_id: TreeId,
    pub pos: Pos,
    pub quoted: String,
    pub text: String,
}

/// The closed set of node variants.
pub enum Nodes {
    List(ListNode),
    Text(TextNode),
    Action(ActionNode),
    If(IfNode),
    Range(RangeNode),
    With(WithNode),
    Template(TemplateNode),
    End(EndNode),
    Else(ElseNode),
    Pipe(PipeNode),
    Chain(ChainNode),
    Field(FieldNode),
    Variable(VariableNode),
    Identifier(IdentifierNode),
    Dot(DotNode),
    Nil(NilNode),
    Bool(BoolNode),
    Number(NumberNode),
    String(StringNode),
}

impl Nodes {
    /// The tag of this node.
    pub fn typ(&self) -> (t: NodeType)
        ensures
            t == self.spec_typ(),
    {
        match self {
            Nodes::List(_) => NodeType::List,
            Nodes::Text(_) => NodeType::Text,
            Nodes::Action(_) => NodeType::Action,
            Nodes::If(_) => NodeType::If,
            Nodes::Range(_) => NodeType::Range,
            Nodes::With(_) => NodeType::With,
            Nodes::Template(_) => NodeType::Template,
            Nodes::End(_) => NodeType::End,
            Nodes::Else(_) => NodeType::Else,
            Nodes::Pipe(_) => NodeType::Pipe,
            Nodes::Chain(_) => NodeType::Chain,
            Nodes::Field(_) => NodeType::Field,
            Nodes::Variable(_) => NodeType::Variable,
            Nodes::Identifier(_) => NodeType::Identifier,
            Nodes::Dot(_) => NodeType::Dot,
            Nodes::Nil(_) => NodeType::Nil,
            Nodes::Bool(_) => NodeType::Bool,
            Nodes::Number(_) => NodeType::Number,
            Nodes::String(_) => NodeType::String,
        }
    }

    /// The tag of this node, at the specification level.
    pub open spec fn spec_typ(&self) -> NodeType {
        match self {
            Nodes::List(_) => NodeType::List,
            Nodes::Text(_) => NodeType::Text,
            Nodes::Action(_) => NodeType::Action,
            Nodes::If(_) => NodeType::If,
            Nodes::Range(_) => NodeType::Range,
            Nodes::With(_) => NodeType::With,
            Nodes::Template(_) => NodeType::Template,
            Nodes::End(_) => NodeType::End,
            Nodes::Else(_) => NodeType::Else,
            Nodes::Pipe(_) => NodeType::Pipe,
            Nodes::Chain(_) => NodeType::Chain,
            Nodes::Field(_) => NodeType::Field,
            Nodes::Variable(_) => NodeType::Variable,
            Nodes::Identifier(_) => NodeType::Identifier,
            Nodes::Dot(_) => NodeType::Dot,
            Nodes::Nil(_) => NodeType::Nil,
            Nodes::Bool(_) => NodeType::Bool,
            Nodes::Number(_) => NodeType::Number,
            Nodes::String(_) => NodeType::String,
        }
    }

    /// The source position the node carries.
    pub fn pos(&self) -> (p: Pos)
        ensures
            p == self.spec_pos(),
    {
        match self {
            Nodes::List(n) => n.pos,
            Nodes::Text(n) => n.pos,
            Nodes::Action(n) => n.pos,
            Nodes::If(n) => n.pos,
            Nodes::Range(n) => n.pos,
            Nodes::With(n) => n.pos,
            Nodes::Template(n) => n.pos,
            Nodes::End(n) => n.pos,
            Nodes::Else(n) => n.pos,
            Nodes::Pipe(n) => n.pos,
            Nodes::Chain(n) => n.pos,
            Nodes::Field(n) => n.pos,
            Nodes::Variable(n) => n.pos,
            Nodes::Identifier(n) => n.pos,
            Nodes::Dot(n) => n.pos,
            Nodes::Nil(n) => n.pos,
            Nodes::Bool(n) => n.pos,
            Nodes::Number(n) => n.pos,
            Nodes::String(n) => n.pos,
        }
    }

    /// The node's position, at the specification level.
    pub open spec fn spec_pos(&self) -> Pos {
        match self {
            Nodes::List(n) => n.pos,
            Nodes::Text(n) => n.pos,
            Nodes::Action(n) => n.pos,
            Nodes::If(n) => n.pos,
            Nodes::Range(n) => n.pos,
            Nodes::With(n) => n.pos,
            Nodes::Template(n) => n.pos,
            Nodes::End(n) => n.pos,
            Nodes::Else(n) => n.pos,
            Nodes::Pipe(n) => n.pos,
            Nodes::Chain(n) => n.pos,
            Nodes::Field(n) => n.pos,
            Nodes::Variable(n) => n.pos,
            Nodes::Identifier(n) => n.pos,
            Nodes::Dot(n) => n.pos,
            Nodes::Nil(n) => n.pos,
            Nodes::Bool(n) => n.pos,
            Nodes::Number(n) => n.pos,
            Nodes::String(n) => n.pos,
        }
    }
}

impl ListNode {
    /// A fresh, empty list for the given tree.
    pub fn new(tree_id: TreeId, pos: Pos) -> (r: ListNode)
        ensures
            r.tree_id == tree_id,
            r.pos == pos,
            r.nodes@ == Seq::<Nodes>::empty(),
    {
        ListNode { tree_id, pos, nodes: Vec::new() }
    }

    /// Appends one node at the end of the list.
    pub fn append(&mut self, node: Nodes)
        ensures
            final(self).tree_id == old(self).tree_id,
            final(self).pos == old(self).pos,
            final(self).nodes@ == old(self).nodes@.push(node),
    {
        self.nodes.push(node);
    }
}

impl TextNode {
    /// A text node holding one run of literal text.
    pub fn new(tree_id: TreeId, pos: Pos, text: String) -> (r: TextNode)
        ensures
            r.tree_id == tree_id,
            r.pos == pos,
            r.text == text,
    {
        TextNode { tree_id, pos, text }
    }
}

impl PipeNode {
    /// A pipeline with its declared variables and no commands yet.
    pub fn new(tree_id: TreeId, pos: Pos, decl: Vec<VariableNode>) -> (r: PipeNode)
        ensures
            r.tree_id == tree_id,
            r.pos == pos,
            r.decl == decl,
            r.cmds@ == Seq::<CommandNode>::empty(),
    {
        PipeNode { tree_id, pos, decl, cmds: Vec::new() }
    }

    /// Appends one command at the end of the pipeline.
    pub fn append(&mut self, cmd: CommandNode)
        ensures
            final(self).tree_id == old(self).tree_id,
            final(self).pos == old(self).pos,
            final(self).decl == old(self).decl,
            final(self).cmds@ == old(self).cmds@.push(cmd),
    {
        self.cmds.push(cmd);
    }

    /// The pipeline's source position.
    pub fn pos(&self) -> (p: Pos)
        ensures
            p == self.pos,
    {
        self.pos
    }
}

impl CommandNode {
    /// A command with no operands yet.
    pub fn new(tree_id: TreeId, pos: Pos) -> (r: CommandNode)
        ensures
            r.tree_id == tree_id,
            r.pos == pos,
            r.args@ == Seq::<Nodes>::empty(),
    {
        CommandNode { tree_id, pos, args: Vec::new() }
    }

    /// Appends one operand at the end of the command.
    pub fn append(&mut self, arg: Nodes)
        ensures
            final(self).tree_id == old(self).tree_id,
            final(self).pos == old(self).pos,
            final(self).args@ == old(self).args@.push(arg),
    {
        self.args.push(arg);
    }
}

impl ActionNode {
    /// A plain action node holding one pipeline.
    pub fn new(tree_id: TreeId, pos: Pos, pipe: PipeNode) -> (r: ActionNode)
        ensures
            r == (ActionNode { tree_id, pos, pipe }),
    {
        ActionNode { tree_id, pos, pipe }
    }
}

impl IfNode {
    /// Wraps a parsed condition, body and optional else body.
    pub fn new_if(
        tree_id: TreeId,
        pos: Pos,
        pipe: PipeNode,
        list: ListNode,
        else_list: Option<ListNode>,
    ) -> (r: IfNode)
        ensures
            r == (IfNode { tree_id, pos, pipe, list, else_list }),
    {
        IfNode { tree_id, pos, pipe, list, else_list }
    }
}

impl RangeNode {
    /// Wraps a parsed range pipeline, body and optional else body.
    pub fn new_range(
        tree_id: TreeId,
        pos: Pos,
        pipe: PipeNode,
        list: ListNode,
        else_list: Option<ListNode>,
    ) -> (r: RangeNode)
        ensures
            r == (RangeNode { tree_id, pos, pipe, list, else_list }),
    {
        RangeNode { tree_id, pos, pipe, list, else_list }
    }
}

impl WithNode {
    /// Wraps a parsed with pipeline, body and optional else body.
    pub fn new_with(
        tree_id: TreeId,
        pos: Pos,
        pipe: PipeNode,
        list: ListNode,
        else_list: Option<ListNode>,
    ) -> (r: WithNode)
        ensures
            r == (WithNode { tree_id, pos, pipe, list, else_list }),
    {
        WithNode { tree_id, pos, pipe, list, else_list }
    }
}

impl EndNode {
    /// The marker node for `{{end}}`.
    pub fn new(tree_id: TreeId, pos: Pos) -> (r: EndNode)
        ensures
            r.tree_id == tree_id && r.pos == pos,
    {
        EndNode { tree_id, pos }
    }
}

impl ElseNode {
    /// The marker node for `{{else}}`.
    pub fn new(pos: Pos, line: usize) -> (r: ElseNode)
        ensures
            r.pos == pos && r.line == line,
    {
        ElseNode { pos, line }
    }
}

impl TemplateNode {
    /// A template invocation node.
    pub fn new(tree_id: TreeId, pos: Pos, name: PipeOrString, pipe: Option<PipeNode>) -> (r:
        TemplateNode)
        ensures
            r == (TemplateNode { tree_id, pos, name, pipe }),
    {
        TemplateNode { tree_id, pos, name, pipe }
    }
}

impl ChainNode {
    /// A chain rooted at the given base operand, with no accesses yet.
    pub fn new(tree_id: TreeId, pos: Pos, node: Nodes) -> (r: ChainNode)
        ensures
            r.tree_id == tree_id,
            r.pos == pos,
            *r.node == node,
            r.field@ == Seq::<String>::empty(),
    {
        ChainNode { tree_id, pos, node: Box::new(node), field: Vec::new() }
    }

    /// Records one `.name` access: the leading dot is dropped, the name kept.
    pub fn add(&mut self, field: &str)
        requires
            field@.len() >= 1,
        ensures
            final(self).tree_id == old(self).tree_id,
            final(self).pos == old(self).pos,
            final(self).node == old(self).node,
            final(self).field@.len() == old(self).field@.len() + 1,
            final(self).field@.drop_last() == old(self).field@,
            final(self).field@.last()@ == field@.skip(1),
    {
        let chars = str_chars(field);
        let seg = crate::strutil::string_range(&chars, 1, chars.len());
        proof {
            assert(chars@.subrange(1, chars@.len() as int) =~= field@.skip(1));
        }
        self.field.push(seg);
    }

    /// The chain's source position.
    pub fn pos(&self) -> (p: Pos)
        ensures
            p == self.pos,
    {
        self.pos
    }
}

impl FieldNode {
    /// A field node for a dotted path kept verbatim (`.a.b`).
    pub fn new(tree_id: TreeId, pos: Pos, ident: &str) -> (r: FieldNode)
        ensures
            r.tree_id == tree_id,
            r.pos == pos,
            r.ident@ == ident@,
    {
        FieldNode { tree_id, pos, ident: String::from_str(ident) }
    }
}

impl VariableNode {
    /// A variable node for a `$name` or dotted `$name.f` path.
    pub fn new(tree_id: TreeId, pos: Pos, ident: &str) -> (r: VariableNode)
        ensures
            r.tree_id == tree_id,
            r.pos == pos,
            r.ident@ == ident@,
    {
        VariableNode { tree_id, pos, ident: String::from_str(ident) }
    }
}

impl IdentifierNode {
    /// A function-name node; position and tree are filled in afterwards.
    pub fn new(ident: String) -> (r: IdentifierNode)
        ensures
            r.ident == ident,
            r.tree_id == 0,
            r.pos == 0,
    {
        IdentifierNode { tree_id: 0, pos: 0, ident }
    }

    /// Sets the source position.
    pub fn set_pos(&mut self, pos: Pos)
        ensures
            *final(self) == (IdentifierNode { pos, ..*old(self) }),
    {
        self.pos = pos;
    }

    /// Sets the owning tree.
    pub fn set_tree(&mut self, tree_id: TreeId)
        ensures
            *final(self) == (IdentifierNode { tree_id, ..*old(self) }),
    {
        self.tree_id = tree_id;
    }
}

impl DotNode {
    /// The `.` operand node.
    pub fn new(tree_id: TreeId, pos: Pos) -> (r: DotNode)
        ensures
            r.tree_id == tree_id && r.pos == pos,
    {
        DotNode { tree_id, pos }
    }
}

impl NilNode {
    /// The `nil` operand node.
    pub fn new(tree_id: TreeId, pos: Pos) -> (r: NilNode)
        ensures
            r.tree_id == tree_id && r.pos == pos,
    {
        NilNode { tree_id, pos }
    }
}

impl BoolNode {
    /// A boolean literal node.
    pub fn new(tree_id: TreeId, pos: Pos, value: bool) -> (r: BoolNode)
        ensures
            r.tree_id == tree_id && r.pos == pos && r.value == value,
    {
        BoolNode { tree_id, pos, value }
    }
}

impl StringNode {
    /// A string literal node: the quoted source text and its decoded text.
    pub fn new(tree_id: TreeId, pos: Pos, quoted: String, text: String) -> (r: StringNode)
        ensures
            r.tree_id == tree_id && r.pos == pos && r.quoted == quoted && r.text == text,
    {
        StringNode { tree_id, pos, quoted, text }
    }
}

// ---------------------------------------------------------------------
// Rendering a node structure back to template source text.
// ---------------------------------------------------------------------
/// The source text of a boolean literal.
pub open spec fn bool_chars(b: bool) -> Seq<char> {
    if b {
        "true"@
    } else {
        "false"@
    }
}

/// The rendered text of one node.
pub open spec fn render_node(n: Nodes) -> Seq<char>
    decreases n, 0int,
{
    match n {
        Nodes::List(l) => render_children(l.nodes@),
        Nodes::Text(t) => t.text@,
        Nodes::Action(a) => "{{"@ + render_pipe(a.pipe) + "}}"@,
        Nodes::If(f) => "{{if "@ + render_pipe(f.pipe) + "}}"@ + render_children(
            f.list.nodes@,
        ) + else_chars(f.else_list) + "{{end}}"@,
        Nodes::Range(f) => "{{range "@ + render_pipe(f.pipe) + "}}"@ + render_children(
            f.list.nodes@,
        ) + else_chars(f.else_list) + "{{end}}"@,
        Nodes::With(f) => "{{with "@ + render_pipe(f.pipe) + "}}"@ + render_children(
            f.list.nodes@,
        ) + else_chars(f.else_list) + "{{end}}"@,
        Nodes::Template(t) => "{{template "@ + name_chars(t.name) + template_arg_chars(
            t.pipe,
        ) + "}}"@,
        Nodes::End(_) => "{{end}}"@,
        Nodes::Else(_) => "{{else}}"@,
        Nodes::Pipe(p) => render_pipe(p),
        Nodes::Chain(c) => paren_chars(*c.node) + fields_chars(c.field@),
        Nodes::Field(f) => f.ident@,
        Nodes::Variable(v) => v.ident@,
        Nodes::Identifier(i) => i.ident@,
        Nodes::Dot(_) => "."@,
        Nodes::Nil(_) => "nil"@,
        Nodes::Bool(b) => bool_chars(b.value),
        Nodes::Number(m) => m.text@,
        Nodes::String(s) => s.quoted@,
    }
}

/// The concatenation of the rendered texts of a node sequence.
pub open spec fn render_children(s: Seq<Nodes>) -> Seq<char>
    decreases s, 0int,
{
    if s.len() == 0 {
        Seq::empty()
    } else {
        render_children(s.drop_last()) + render_node(s.last())
    }
}

/// The rendered else branch, empty when there is none.
pub open spec fn else_chars(e: Option<ListNode>) -> Seq<char>
    decreases e, 0int,
{
    match e {
        Option::None => Seq::empty(),
        Option::Some(l) => "{{else}}"@ + render_children(l.nodes@),
    }
}

/// The rendered text of a pipeline: declarations, then the commands
/// joined by pipes.
pub open spec fn render_pipe(p: PipeNode) -> Seq<char>
    decreases p, 0int,
{
    decl_prefix_chars(p.decl@) + cmds_chars(p.cmds@)
}

/// The declared variables joined by commas.
pub open spec fn decl_list_chars(s: Seq<VariableNode>) -> Seq<char>
    decreases s, 0int,
{
    if s.len() == 0 {
        Seq::empty()
    } else if s.len() == 1 {
        s[0].ident@
    } else {
        decl_list_chars(s.drop_last()) + ", "@ + s.last().ident@
    }
}

/// The declaration part of a pipeline, with its assignment arrow, or
/// nothing when no variable is declared.
pub open spec fn decl_prefix_chars(s: Seq<VariableNode>) -> Seq<char> {
    if s.len() == 0 {
        Seq::empty()
    } else {
        decl_list_chars(s) + " := "@
    }
}

/// The commands of a pipeline joined by ` | `.
pub open spec fn cmds_chars(s: Seq<CommandNode>) -> Seq<char>
    decreases s, 0int,
{
    if s.len() == 0 {
        Seq::empty()
    } else if s.len() == 1 {
        cmd_chars(s[0])
    } else {
        cmds_chars(s.drop_last()) + " | "@ + cmd_chars(s.last())
    }
}

/// The operands of one command joined by spaces; a pipeline operand is
/// parenthesized.
pub open spec fn cmd_chars(c: CommandNode) -> Seq<char>
    decreases c, 0int,
{
    args_chars(c.args@)
}

/// The rendered operand list of a command.
pub open spec fn args_chars(s: Seq<Nodes>) -> Seq<char>
    decreases s, 2int,
{
    if s.len() == 0 {
        Seq::empty()
    } else if s.len() == 1 {
        paren_chars(s[0])
    } else {
        args_chars(s.drop_last()) + " "@ + paren_chars(s.last())
    }
}

/// One operand's text, with parentheses put back around a sub-pipeline.
pub open spec fn paren_chars(n: Nodes) -> Seq<char>
    decreases n, 1int,
{
    if n is Pipe {
        "("@ + render_node(n) + ")"@
    } else {
        render_node(n)
    }
}

/// The accesses of a chain, each with its dot put back.
pub open spec fn fields_chars(fs: Seq<String>) -> Seq<char>
    decreases fs,
{
    if fs.len() == 0 {
        Seq::empty()
    } else {
        fields_chars(fs.drop_last()) + "."@ + fs.last()@
    }
}

/// A template invocation's name part: a quoted literal or a pipeline.
pub open spec fn name_chars(n: PipeOrString) -> Seq<char>
    decreases n, 0int,
{
    match n {
        PipeOrString::String(s) => "\""@ + s@ + "\""@,
        PipeOrString::Pipe(p) => render_pipe(p),
    }
}

/// A template invocation's argument pipeline, empty when absent.
pub open spec fn template_arg_chars(p: Option<PipeNode>) -> Seq<char>
    decreases p, 0int,
{
    match p {
        Option::None => Seq::empty(),
        Option::Some(q) => " "@ + render_pipe(q),
    }
}

fn render_children_exec(nodes: &Vec<Nodes>) -> (r: String)
    ensures
        r@ == render_children(nodes@),
    decreases nodes@,
{
    let mut out = String::new();
    let mut i: usize = 0;
    let n = nodes.len();
    proof {
        assert(nodes@.take(0) =~= Seq::<Nodes>::empty());
    }
    while i < n
        invariant
            i <= n == nodes@.len(),
            out@ == render_children(nodes@.take(i as int)),
        decreases n - i,
    {
        proof {
            assert(decreases_to!(nodes@ => nodes@[i as int]));
        }
        let piece = nodes[i].render();
        out.append(piece.as_str());
        proof {
            assert(nodes@.take((i + 1) as int).drop_last() =~= nodes@.take(i as int));
            assert(nodes@.take((i + 1) as int).last() == nodes@[i as int]);
        }
        i = i + 1;
    }
    proof {
        assert(nodes@.take(n as int) =~= nodes@);
    }
    out
}

fn render_pipe_exec(p: &PipeNode) -> (r: String)
    ensures
        r@ == render_pipe(*p),
    decreases p,
{
    let mut out = String::new();
    let dn = p.decl.len();
    if dn > 0 {
        let mut i: usize = 0;
        while i < dn
            invariant
                i <= dn == p.decl@.len(),
                i == 0 ==> out@ == Seq::<char>::empty(),
            i > 0 ==> out@ == decl_list_chars(p.decl@.take(i as int)),
            decreases dn - i,
        {
            if i > 0 {
                out.append(", ");
            }
            out.append(p.decl[i].ident.as_str());
            proof {
                assert(p.decl@.take((i + 1) as int).drop_last() =~= p.decl@.take(
                    i as int,
                ));
                assert(p.decl@.take((i + 1) as int).last() == p.decl@[i as int]);
                if i == 0 {
                    assert(p.decl@.take(1)[0] == p.decl@[0]);
                    assert(decl_list_chars(p.decl@.take(1)) == p.decl@[0].ident@);
                    assert(Seq::<char>::empty() + p.decl@[0].ident@ =~= p.decl@[0].ident@);
                }
            }
            i = i + 1;
        }
        out.append(" := ");
        proof {
            assert(p.decl@.take(dn as int) =~= p.decl@);
        }
    }
    proof {
        assert(out@ == decl_prefix_chars(p.decl@));
    }
    let cn = p.cmds.len();
    let mut j: usize = 0;
    while j < cn
        invariant
            j <= cn == p.cmds@.len(),
            j == 0 ==> out@ == decl_prefix_chars(p.decl@),
            j > 0 ==> out@ == decl_prefix_chars(p.decl@) + cmds_chars(
                p.cmds@.take(j as int),
            ),
        decreases cn - j,
    {
        if j > 0 {
            out.append(" | ");
        }
        proof {
            assert(decreases_to!(p.cmds@ => p.cmds@[j as int]));
        }
        let piece = render_cmd_exec(&p.cmds[j]);
        out.append(piece.as_str());
        proof {
            assert(p.cmds@.take((j + 1) as int).drop_last() =~= p.cmds@.take(j as int));
            assert(p.cmds@.take((j + 1) as int).last() == p.cmds@[j as int]);
            if j == 0 {
                assert(p.cmds@.take(1)[0] == p.cmds@[0]);
                assert(cmds_chars(p.cmds@.take(1)) == cmd_chars(p.cmds@[0]));
                assert(decl_prefix_chars(p.decl@) + cmd_chars(p.cmds@[0]) =~= out@);
            }
        }
        j = j + 1;
    }
    proof {
        assert(p.cmds@.take(cn as int) =~= p.cmds@);
        if cn == 0 {
            assert(cmds_chars(p.cmds@) =~= Seq::<char>::empty());
            assert(out@ =~= decl_prefix_chars(p.decl@) + cmds_chars(p.cmds@));
        }
    }
    out
}

fn render_cmd_exec(c: &CommandNode) -> (r: String)
    ensures
        r@ == cmd_chars(*c),
    decreases c,
{
    let mut out = String::new();
    let n = c.args.len();
    let mut i: usize = 0;
    while i < n
        invariant
            i <= n == c.args@.len(),
            i == 0 ==> out@ == Seq::<char>::empty(),
            i > 0 ==> out@ == args_chars(c.args@.take(i as int)),
        decreases n - i,
    {
        if i > 0 {
            out.append(" ");
        }
        proof {
            assert(decreases_to!(c.args@ => c.args@[i as int]));
        }
        let ghost pre = out@;
        let arg = &c.args[i];
        if arg.typ() == NodeType::Pipe {
            out.append("(");
            let piece = arg.render();
            out.append(piece.as_str());
            out.append(")");
        } else {
            let piece = arg.render();
            out.append(piece.as_str());
        }
        proof {
            assert(out@ =~= pre + paren_chars(c.args@[i as int]));
        }
        proof {
            assert(c.args@.take((i + 1) as int).drop_last() =~= c.args@.take(i as int));
            assert(c.args@.take((i + 1) as int).last() == c.args@[i as int]);
            if i == 0 {
                assert(c.args@.take(1)[0] == c.args@[0]);
                assert(args_chars(c.args@.take(1)) == paren_chars(c.args@[0]));
                assert(Seq::<char>::empty() + paren_chars(c.args@[0]) =~= paren_chars(
                    c.args@[0],
                ));
            }
        }
        i = i + 1;
    }
    proof {
        assert(c.args@.take(n as int) =~= c.args@);
        if n == 0 {
            assert(args_chars(c.args@) =~= Seq::<char>::empty());
        }
    }
    out
}

impl Nodes {
    /// Renders the node structure back to template source text.
    pub fn render(&self) -> (r: String)
        ensures
            r@ == render_node(*self),
        decreases self,
    {
        match self {
            Nodes::List(l) => {
                proof {
                    assert(decreases_to!(*self => l.nodes@));
                }
                render_children_exec(&l.nodes)
            },
            Nodes::Text(t) => t.text.clone(),
            Nodes::Action(a) => {
                let mut out = String::from_str("{{");
                let piece = render_pipe_exec(&a.pipe);
                out.append(piece.as_str());
                out.append("}}");
                out
            },
            Nodes::If(f) => {
                let mut out = String::from_str("{{if ");
                let piece = render_pipe_exec(&f.pipe);
                out.append(piece.as_str());
                out.append("}}");
                proof {
                    assert(decreases_to!(*self => f.list.nodes@));
                }
                let body = render_children_exec(&f.list.nodes);
                out.append(body.as_str());
                match &f.else_list {
                    Option::None => {},
                    Option::Some(l) => {
                        out.append("{{else}}");
                        proof {
                            assert(decreases_to!(*self => l.nodes@));
                        }
                        let eb = render_children_exec(&l.nodes);
                        out.append(eb.as_str());
                    },
                }
                out.append("{{end}}");
                out
            },
            Nodes::Range(f) => {
                let mut out = String::from_str("{{range ");
                let piece = render_pipe_exec(&f.pipe);
                out.append(piece.as_str());
                out.append("}}");
                proof {
                    assert(decreases_to!(*self => f.list.nodes@));
                }
                let body = render_children_exec(&f.list.nodes);
                out.append(body.as_str());
                match &f.else_list {
                    Option::None => {},
                    Option::Some(l) => {
                        out.append("{{else}}");
                        proof {
                            assert(decreases_to!(*self => l.nodes@));
                        }
                        let eb = render_children_exec(&l.nodes);
                        out.append(eb.as_str());
                    },
                }
                out.append("{{end}}");
                out
            },
            Nodes::With(f) => {
                let mut out = String::from_str("{{with ");
                let piece = render_pipe_exec(&f.pipe);
                out.append(piece.as_str());
                out.append("}}");
                proof {
                    assert(decreases_to!(*self => f.list.nodes@));
                }
                let body = render_children_exec(&f.list.nodes);
                out.append(body.as_str());
                match &f.else_list {
                    Option::None => {},
                    Option::Some(l) => {
                        out.append("{{else}}");
                        proof {
                            assert(decreases_to!(*self => l.nodes@));
                        }
                        let eb = render_children_exec(&l.nodes);
                        out.append(eb.as_str());
                    },
                }
                out.append("{{end}}");
                out
            },
            Nodes::Template(t) => {
                let mut out = String::from_str("{{template ");
                match &t.name {
                    PipeOrString::String(s) => {
                        out.append("\"");
                        out.append(s.as_str());
                        out.append("\"");
                    },
                    PipeOrString::Pipe(p) => {
                        let piece = render_pipe_exec(p);
                        out.append(piece.as_str());
                    },
                }
                match &t.pipe {
                    Option::None => {},
                    Option::Some(q) => {
                        out.append(" ");
                        let piece = render_pipe_exec(q);
                        out.append(piece.as_str());
                    },
                }
                out.append("}}");
                out
            },
            Nodes::End(_) => String::from_str("{{end}}"),
            Nodes::Else(_) => String::from_str("{{else}}"),
            Nodes::Pipe(p) => render_pipe_exec(p),
            Nodes::Chain(c) => {
                let mut out = String::new();
                let base_is_pipe = match &*c.node {
                    Nodes::Pipe(_) => true,
                    _ => false,
                };
                proof {
                    assert(decreases_to!(*self => *c.node));
                }
                let base = (&*c.node).render();
                if base_is_pipe {
                    out.append("(");
                    out.append(base.as_str());
                    out.append(")");
                } else {
                    out.append(base.as_str());
                }
                proof {
                    assert(out@ == paren_chars(*c.node));
                }
                let fs = &c.field;
                let n = fs.len();
                let mut i: usize = 0;
                while i < n
                    invariant
                        i <= n == fs@.len(),
                        out@ == paren_chars(*c.node) + fields_chars(fs@.take(i as int)),
                    decreases n - i,
                {
                    out.append(".");
                    out.append(fs[i].as_str());
                    proof {
                        assert(fs@.take((i + 1) as int).drop_last() =~= fs@.take(
                            i as int,
                        ));
                        assert(fs@.take((i + 1) as int).last() == fs@[i as int]);
                    }
                    i = i + 1;
                }
                proof {
                    assert(fs@.take(n as int) =~= fs@);
                }
                out
            },
            Nodes::Field(f) => f.ident.clone(),
            Nodes::Variable(v) => v.ident.clone(),
            Nodes::Identifier(i) => i.ident.clone(),
            Nodes::Dot(_) => String::from_str("."),
            Nodes::Nil(_) => String::from_str("nil"),
            Nodes::Bool(b) => {
                if b.value {
                    String::from_str("true")
                } else {
                    String::from_str("false")
                }
            },
            Nodes::Number(m) => m.text.clone(),
            Nodes::String(s) => s.quoted.clone(),
        }
    }
}

// ---------------------------------------------------------------------
// Emptiness of a completed tree.
// ---------------------------------------------------------------------
/// Whether every character is whitespace.
pub open spec fn all_space(s: Seq<char>) -> bool {
    forall|i: int| 0 <= i < s.len() ==> is_space_char(#[trigger] s[i])
}

/// Whether a completed tree's body would render as empty output: only
/// whitespace text, possibly grouped in lists.
pub open spec fn empty_tree(n: Nodes) -> bool
    decreases n,
{
    match n {
        Nodes::Text(t) => all_space(t.text@),
        Nodes::List(l) => empty_children(l.nodes@),
        _ => false,
    }
}

/// Whether every node of the sequence is an empty tree.
pub open spec fn empty_children(s: Seq<Nodes>) -> bool
    decreases s,
{
    if s.len() == 0 {
        true
    } else {
        empty_children(s.drop_last()) && empty_tree(s.last())
    }
}

/// In a sequence of empty trees, each node is an empty tree.
proof fn lemma_empty_children_index(s: Seq<Nodes>, i: int)
    requires
        0 <= i < s.len(),
        empty_children(s),
    ensures
        empty_tree(s[i]),
    decreases s.len(),
{
    if i == s.len() - 1 {
    } else {
        lemma_empty_children_index(s.drop_last(), i);
        assert(s.drop_last()[i] == s[i]);
    }
}

impl Nodes {
    /// Whether the tree holds nothing but whitespace text. A name whose
    /// registered tree is empty in this sense may be defined again.
    pub fn is_empty_tree(&self) -> (r: bool)
        ensures
            r == empty_tree(*self),
        decreases self,
    {
        match self {
            Nodes::Text(t) => all_space_exec(&t.text),
            Nodes::List(l) => {
                proof {
                    assert(decreases_to!(*self => l.nodes@));
                }
                empty_children_exec(&l.nodes)
            },
            _ => false,
        }
    }
}

/// Whether a string is nothing but whitespace.
fn all_space_exec(text: &String) -> (r: bool)
    ensures
        r == all_space(text@),
{
    let chars = str_chars(text.as_str());
    let n = chars.len();
    let mut i: usize = 0;
    while i < n
        invariant
            i <= n == chars@.len(),
            chars@ == text@,
            forall|j: int| 0 <= j < i ==> is_space_char(#[trigger] chars@[j]),
        decreases n - i,
    {
        let c = chars[i];
        if !(c == ' ' || c == '\t' || c == '\r' || c == '\n') {
            proof {
                assert(!is_space_char(text@[i as int]));
            }
            return false;
        }
        i = i + 1;
    }
    true
}

/// Whether every node in the vector is an empty tree.
fn empty_children_exec(nodes: &Vec<Nodes>) -> (r: bool)
    ensures
        r == empty_children(nodes@),
    decreases nodes@,
{
    let n = nodes.len();
    let mut i: usize = 0;
    while i < n
        invariant
            i <= n == nodes@.len(),
            empty_children(nodes@.take(i as int)),
        decreases n - i,
    {
        proof {
            assert(decreases_to!(nodes@ => nodes@[i as int]));
        }
        if !nodes[i].is_empty_tree() {
            proof {
                if empty_children(nodes@) {
                    lemma_empty_children_index(nodes@, i as int);
                }
            }
            return false;
        }
        proof {
            assert(nodes@.take((i + 1) as int).drop_last() =~= nodes@.take(i as int));
            assert(nodes@.take((i + 1) as int).last() == nodes@[i as int]);
        }
        i = i + 1;
    }
    proof {
        assert(nodes@.take(n as int) =~= nodes@);
    }
    true
}

// ---------------------------------------------------------------------
// Numeric and character-constant literal decoding.
// ---------------------------------------------------------------------
/// The numeric value of one decimal digit character.
pub open spec fn digit_of(c: char) -> int {
    c as u32 - 48
}

/// Whether every character is a decimal digit.
pub open spec fn all_digits(s: Seq<char>) -> bool {
    forall|i: int| 0 <= i < s.len() ==> is_digit_char(#[trigger] s[i])
}

/// The value of a decimal digit string.
pub open spec fn dec_val(s: Seq<char>) -> int
    decreases s.len(),
{
    if s.len() == 0 {
        0
    } else {
        dec_val(s.drop_last()) * 10 + digit_of(s.last())
    }
}

/// The code point of a character constant such as `'a'`, after escape
/// decoding; None where the literal is not one character in quotes.
pub open spec fn char_const_code(s: Seq<char>) -> Option<int> {
    if s.len() >= 2 && s[0] == '\'' && s[s.len() - 1] == '\'' {
        match crate::strutil::unescape(s.subrange(1, s.len() - 1)) {
            Some(t) => if t.len() == 1 {
                Some(t[0] as u32 as int)
            } else {
                None
            },
            None => None,
        }
    } else {
        None
    }
}

/// Which literals the number decoder accepts: a character constant when
/// the token was one, else an optionally signed run of decimal digits
/// whose value fits the matching machine integer.
pub open spec fn number_ok(s: Seq<char>, is_char_constant: bool) -> bool {
    if is_char_constant {
        char_const_code(s) is Some
    } else if s.len() > 0 && s[0] == '-' {
        let body = s.skip(1);
        body.len() > 0 && all_digits(body) && dec_val(body) <= i64::MAX + 1
    } else if s.len() > 0 && s[0] == '+' {
        let body = s.skip(1);
        body.len() > 0 && all_digits(body) && dec_val(body) <= u64::MAX
    } else {
        s.len() > 0 && all_digits(s) && dec_val(s) <= u64::MAX
    }
}

proof fn lemma_dec_val_nonneg(s: Seq<char>)
    requires
        all_digits(s),
    ensures
        dec_val(s) >= 0,
    decreases s.len(),
{
    if s.len() > 0 {
        assert(is_digit_char(s[s.len() - 1]));
        lemma_dec_val_nonneg(s.drop_last());
    }
}

proof fn lemma_dec_val_prefix_le(s: Seq<char>, i: int)
    requires
        all_digits(s),
        0 <= i <= s.len(),
    ensures
        dec_val(s.take(i)) <= dec_val(s),
    decreases s.len() - i,
{
    if i < s.len() {
        lemma_dec_val_prefix_le(s, i + 1);
        assert(s.take(i + 1).drop_last() =~= s.take(i));
        assert(s.take(i + 1).last() == s[i]);
        assert(forall|j: int| 0 <= j < s.take(i).len() ==> is_digit_char(
            #[trigger] s.take(i)[j],
        ));
        lemma_dec_val_nonneg(s.take(i));
        assert(is_digit_char(s[i]));
        assert(dec_val(s.take(i + 1)) == dec_val(s.take(i)) * 10 + digit_of(s[i]));
        assert(dec_val(s.take(i)) * 10 >= dec_val(s.take(i))) by (nonlinear_arith)
            requires
                dec_val(s.take(i)) >= 0,
        ;
    } else {
        assert(s.take(i) =~= s);
    }
}

/// Reads chars\[from..to\] as an unsigned decimal number; None where a
/// character is no digit, the run is empty, or the value overflows.
fn parse_u64_dec(chars: &Vec<char>, from: usize, to: usize) -> (r: Option<u64>)
    requires
        from <= to <= chars@.len(),
    ensures
        match r {
            Some(v) => {
                &&& to > from
                &&& all_digits(chars@.subrange(from as int, to as int))
                &&& v == dec_val(chars@.subrange(from as int, to as int))
            },
            None => {
                let sub = chars@.subrange(from as int, to as int);
                !(sub.len() > 0 && all_digits(sub) && dec_val(sub) <= u64::MAX)
            },
        },
{
    let ghost sub = chars@.subrange(from as int, to as int);
    if from == to {
        return None;
    }
    let mut acc: u64 = 0;
    let mut j: usize = from;
    while j < to
        invariant
            from <= j <= to <= chars@.len(),
            sub == chars@.subrange(from as int, to as int),
            all_digits(sub.take(j - from)),
            acc == dec_val(sub.take(j - from)),
        decreases to - j,
    {
        let c = chars[j];
        proof {
            assert(sub[j - from] == chars@[j as int]);
        }
        if !('0' <= c && c <= '9') {
            proof {
                assert(!is_digit_char(sub[j - from]));
            }
            return None;
        }
        let d: u64 = (c as u32 - 48) as u64;
        proof {
            assert(d == digit_of(sub[j - from]));
            assert(d <= 9);
        }
        if acc > (u64::MAX - d) / 10 {
            proof {
                assert(sub.take(j + 1 - from).drop_last() =~= sub.take(j - from));
                assert(sub.take(j + 1 - from).last() == sub[j - from]);
                assert(acc * 10 + d > u64::MAX) by (nonlinear_arith)
                    requires
                        acc > (u64::MAX - d) / 10,
                        d <= 9,
                ;
                assert(dec_val(sub.take(j + 1 - from)) > u64::MAX);
                if all_digits(sub) {
                    lemma_dec_val_prefix_le(sub, j + 1 - from);
                }
            }
            return None;
        }
        proof {
            assert(acc * 10 + d <= u64::MAX) by (nonlinear_arith)
                requires
                    acc <= (u64::MAX - d) / 10,
                    d <= 9,
            ;
            assert(sub.take(j + 1 - from).drop_last() =~= sub.take(j - from));
            assert(sub.take(j + 1 - from).last() == sub[j - from]);
        }
        acc = acc * 10 + d;
        j = j + 1;
    }
    proof {
        assert(sub.take(to - from) =~= sub);
    }
    Some(acc)
}

impl NumberNode {
    /// Decodes one numeric or character-constant token into a number
    /// node; a malformed or overflowing literal is rejected.
    pub fn new(tree_id: TreeId, pos: Pos, text: String, typ: &ItemType) -> (r: Result<
        NumberNode,
        String,
    >)
        ensures
            match r {
                Ok(n) => {
                    &&& number_ok(text@, *typ == ItemType::ItemCharConstant)
                    &&& n.tree_id == tree_id
                    &&& n.pos == pos
                    &&& n.text == text
                    &&& (*typ == ItemType::ItemCharConstant ==> n.is_int && n.is_uint
                        && char_const_code(text@) == Some(n.uint64 as int) && n.int64
                        == n.uint64)
                    &&& (*typ != ItemType::ItemCharConstant && text@[0] == '-' ==> n.is_int
                        && !n.is_uint && n.int64 == -dec_val(text@.skip(1)))
                    &&& (*typ != ItemType::ItemCharConstant && text@[0] != '-' ==> {
                        let body = if text@[0] == '+' {
                            text@.skip(1)
                        } else {
                            text@
                        };
                        &&& n.is_uint
                        &&& n.uint64 == dec_val(body)
                        &&& (n.is_int <==> dec_val(body) <= i64::MAX)
                        &&& (n.is_int ==> n.int64 == dec_val(body))
                    })
                },
                Err(_) => !number_ok(text@, *typ == ItemType::ItemCharConstant),
            },
    {
        let chars = str_chars(text.as_str());
        let n = chars.len();
        if *typ == ItemType::ItemCharConstant {
            if n >= 2 && chars[0] == '\'' && chars[n - 1] == '\'' {
                match unescape_range(&chars, 1, n - 1) {
                    Some(t) => {
                        proof {
                            assert(chars@.subrange(1, chars@.len() - 1) =~= text@.subrange(
                                1,
                                text@.len() - 1,
                            ));
                        }
                        if t.unicode_len() == 1 {
                            let c = t.as_str().get_char(0);
                            let code: u64 = c as u32 as u64;
                            return Ok(
                                NumberNode {
                                    tree_id,
                                    pos,
                                    text,
                                    is_int: true,
                                    int64: code as i64,
                                    is_uint: true,
                                    uint64: code,
                                },
                            );
                        }
                        return Err(String::from_str("malformed character constant"));
                    },
                    None => {
                        return Err(String::from_str("malformed character constant"));
                    },
                }
            }
            return Err(String::from_str("malformed character constant"));
        }
        if n > 0 && chars[0] == '-' {
            proof {
                assert(chars@.subrange(1, chars@.len() as int) =~= text@.skip(1));
            }
            match parse_u64_dec(&chars, 1, n) {
                Some(v) => {
                    if v <= i64::MAX as u64 {
                        return Ok(
                            NumberNode {
                                tree_id,
                                pos,
                                text,
                                is_int: true,
                                int64: -(v as i64),
                                is_uint: false,
                                uint64: 0,
                            },
                        );
                    }
                    if v == i64::MAX as u64 + 1 {
                        return Ok(
                            NumberNode {
                                tree_id,
                                pos,
                                text,
                                is_int: true,
                                int64: i64::MIN,
                                is_uint: false,
                                uint64: 0,
                            },
                        );
                    }
                    return Err(String::from_str("integer overflow"));
                },
                None => {
                    return Err(String::from_str("malformed number"));
                },
            }
        }
        let from: usize = if n > 0 && chars[0] == '+' {
            1
        } else {
            0
        };
        proof {
            if from == 1 {
                assert(chars@.subrange(1, chars@.len() as int) =~= text@.skip(1));
            } else {
                assert(chars@.subrange(0, chars@.len() as int) =~= text@);
            }
        }
        match parse_u64_dec(&chars, from, n) {
            Some(v) => {
                let fits_int = v <= i64::MAX as u64;
                Ok(
                    NumberNode {
                        tree_id,
                        pos,
                        text,
                        is_int: fits_int,
                        int64: if fits_int {
                            v as i64
                        } else {
                            0
                        },
                        is_uint: true,
                        uint64: v,
                    },
                )
            },
            None => Err(String::from_str("malformed number")),
        }
    }
}

} // verus!

