use vstd::prelude::*;

verus! {

use std::collections::VecDeque;
use vstd::hash_map::StringHashMap;
use vstd::hash_set::StringHashSet;
use vstd::string::StringExecFns;
use crate::error::ParseError;
use crate::lexer::{Item, ItemType, Lexer, literal_items, skip_spaces, lemma_skip_spaces_le,
    lemma_skip_spaces_fix, action_word_text, action_word, action_word_items, keyword_type};
use crate::node::{ActionNode, BoolNode, ChainNode, CommandNode, DotNode, ElseNode, EndNode,
    FieldNode, IdentifierNode, IfNode, ListNode, NilNode, NodeType, Nodes, NumberNode, PipeNode,
    PipeOrString, Pos, RangeNode, StringNode, TemplateNode, TextNode, TreeId, VariableNode,
    WithNode, empty_tree};
use crate::strutil::{str_eq, usize_string};

broadcast use lemma_skip_spaces_le;

/// One named template's parse unit: its name, numeric identifier, root
/// node, the stack of variables in scope, and the set of field paths the
/// body references.
pub struct Tree {
    pub name: String,
    pub id: TreeId,
    pub root: Option<Nodes>,
    pub vars: Vec<String>,
    pub fields: StringHashSet,
}

/// The recursive-descent parser: a buffered token source, the active
/// tree, the stack of suspended trees, the configured function names and
/// the registry of completed trees.
pub struct Parser {
    name: String,
    pub funcs: StringHashSet,
    lex: Option<Lexer>,
    line: usize,
    token: VecDeque<Item>,
    pub tree_set: StringHashMap<Tree>,
    tree_id: TreeId,
    tree: Option<Tree>,
    tree_stack: VecDeque<Tree>,
    max_tree_id: TreeId,
    dynamic_template: bool,
}

/// The tokens the remaining stream would hand out, pushed-back tokens
/// first.
pub open spec fn lex_rem(l: Option<Lexer>) -> Seq<Item> {
    match l {
        Some(lx) => lx.remaining(),
        None => Seq::empty(),
    }
}

/// Whether the variables of tree `b` extend those of tree `a`: the old
/// stack is a prefix of the new one, and name and identifier are kept.
pub open spec fn vars_extended(pre: Option<Tree>, post: Option<Tree>) -> bool {
    match pre {
        Some(a) => match post {
            Some(b) => {
                &&& b.name == a.name
                &&& b.id == a.id
                &&& b.vars@.len() >= a.vars@.len()
                &&& b.vars@.take(a.vars@.len() as int) == a.vars@
            },
            None => false,
        },
        None => post is None,
    }
}

impl Tree {
    /// A fresh tree with the given name and identifier.
    pub(crate) fn new(name: String, id: TreeId) -> (t: Tree)
        ensures
            t.name == name,
            t.id == id,
            t.root is None,
            t.vars@ == Seq::<String>::empty(),
            t.fields@ == Set::<Seq<char>>::empty(),
    {
        Tree { name, id, root: None, vars: Vec::new(), fields: StringHashSet::new() }
    }

    /// Truncates the variable stack back to a saved depth, closing a
    /// block scope.
    pub fn pop_vars(&mut self, n: usize)
        ensures
            final(self).name == old(self).name,
            final(self).id == old(self).id,
            final(self).root == old(self).root,
            final(self).fields == old(self).fields,
            n <= old(self).vars@.len() ==> final(self).vars@ == old(self).vars@.take(
                n as int,
            ),
            n > old(self).vars@.len() ==> final(self).vars@ == old(self).vars@,
    {
        self.vars.truncate(n);
    }
}

impl Parser {
    /// A parser with no input, no functions and an empty registry.
    pub fn new(name: String) -> (p: Parser)
        ensures
            p.spec_name() == name@,
            p.spec_funcs() == Set::<Seq<char>>::empty(),
            p.stream() == Seq::<Item>::empty(),
            p.spec_tree_set() == Map::<Seq<char>, Tree>::empty(),
            p.spec_tree() is None,
            p.spec_tree_stack() == Seq::<Tree>::empty(),
            p.spec_tree_id() == 0,
            p.spec_max_tree_id() == 0,
            p.spec_line() == 0,
            !p.spec_dynamic(),
    {
        let p = Parser {
            name,
            funcs: StringHashSet::new(),
            lex: None,
            line: 0,
            token: VecDeque::new(),
            tree_set: StringHashMap::new(),
            tree_id: 0,
            tree: None,
            tree_stack: VecDeque::new(),
            max_tree_id: 0,
            dynamic_template: false,
        };
        proof {
            assert(p.stream() =~= Seq::<Item>::empty());
        }
        p
    }

    /// The tokens still to be consumed: pushed-back tokens, then what the
    /// token source has left.
    pub closed spec fn stream(&self) -> Seq<Item> {
        self.token@ + lex_rem(self.lex)
    }

    /// The configured function names.
    pub closed spec fn spec_funcs(&self) -> Set<Seq<char>> {
        self.funcs@
    }

    /// The registry of completed trees.
    pub closed spec fn spec_tree_set(&self) -> Map<Seq<char>, Tree> {
        self.tree_set@
    }

    /// The parser's configured name (used for the top-level tree and in
    /// diagnostics without an active tree).
    pub closed spec fn spec_name(&self) -> Seq<char> {
        self.name@
    }

    /// The line number of the last token consumed.
    pub closed spec fn spec_line(&self) -> usize {
        self.line
    }

    /// The active tree, if a parse is under way.
    pub closed spec fn spec_tree(&self) -> Option<Tree> {
        self.tree
    }

    /// The suspended parent trees, oldest first.
    pub closed spec fn spec_tree_stack(&self) -> Seq<Tree> {
        self.tree_stack@
    }

    /// The identifier of the active tree.
    pub closed spec fn spec_tree_id(&self) -> TreeId {
        self.tree_id
    }

    /// The highest identifier handed to any block-defined tree.
    pub closed spec fn spec_max_tree_id(&self) -> TreeId {
        self.max_tree_id
    }

    /// Whether parenthesized (dynamic) template names are accepted.
    pub closed spec fn spec_dynamic(&self) -> bool {
        self.dynamic_template
    }

    /// Everything but the token buffer, the cursor line and the tree
    /// state is unchanged.
    pub open spec fn same_config(&self, o: &Parser) -> bool {
        &&& self.spec_name() == o.spec_name()
        &&& self.spec_funcs() == o.spec_funcs()
        &&& self.spec_dynamic() == o.spec_dynamic()
    }

    /// The tree state is untouched.
    pub open spec fn same_trees(&self, o: &Parser) -> bool {
        &&& self.spec_tree_set() == o.spec_tree_set()
        &&& self.spec_tree() == o.spec_tree()
        &&& self.spec_tree_stack() == o.spec_tree_stack()
        &&& self.spec_tree_id() == o.spec_tree_id()
        &&& self.spec_max_tree_id() == o.spec_max_tree_id()
    }

    /// Switches dynamic template names on or off: with them on, a
    /// `template` action may name its target with a parenthesized
    /// pipeline instead of a quoted literal.
    pub fn set_dynamic_templates(&mut self, on: bool)
        ensures
            final(self).spec_dynamic() == on,
            final(self).spec_name() == old(self).spec_name(),
            final(self).spec_funcs() == old(self).spec_funcs(),
            final(self).same_trees(old(self)),
            final(self).stream() == old(self).stream(),
            final(self).spec_line() == old(self).spec_line(),
    {
        self.dynamic_template = on;
    }

    /// Installs the token source for the given template text.
    pub fn set_source(&mut self, text: String)
        ensures
            final(self).same_config(old(self)),
            final(self).same_trees(old(self)),
            final(self).spec_line() == old(self).spec_line(),
            text@.len() < usize::MAX && !crate::lexer::has_left_delim(text@)
                ==> literal_items(final(self).stream(), text@),
            text@.len() < usize::MAX && action_word_text(text@) ==> action_word_items(
                final(self).stream(),
                text@,
            ),
    {
        let lx = Lexer::new(text);
        self.token = VecDeque::new();
        self.lex = Some(lx);
        proof {
            assert(self.stream() =~= lex_rem(self.lex));
        }
    }

    fn next_from_lex(&mut self) -> (r: Option<Item>)
        ensures
            final(self).same_config(old(self)),
            final(self).same_trees(old(self)),
            final(self).token == old(self).token,
            final(self).spec_line() == old(self).spec_line(),
            lex_rem(old(self).lex).len() > 0 ==> r == Some(lex_rem(old(self).lex)[0])
                && lex_rem(final(self).lex) == lex_rem(old(self).lex).skip(1),
            lex_rem(old(self).lex).len() == 0 ==> r is None && lex_rem(final(self).lex)
                == lex_rem(old(self).lex),
    {
        match self.lex {
            Some(ref mut l) => l.next(),
            None => None,
        }
    }

    /// Consumes and returns the next token, tracking its line.
    pub fn next(&mut self) -> (r: Option<Item>)
        ensures
            final(self).same_config(old(self)),
            final(self).same_trees(old(self)),
            old(self).stream().len() > 0 ==> r == Some(old(self).stream()[0])
                && final(self).stream() == old(self).stream().skip(1)
                && final(self).spec_line() == old(self).stream()[0].line,
            old(self).stream().len() == 0 ==> r is None && final(self).stream()
                == old(self).stream() && final(self).spec_line() == old(self).spec_line(),
    {
        let item = match self.token.pop_front() {
            Some(t) => {
                proof {
                    assert(old(self).stream()[0] == t);
                    assert(self.token@ + lex_rem(self.lex) =~= old(self).stream().skip(
                        1,
                    ));
                }
                Some(t)
            },
            None => {
                let r = self.next_from_lex();
                proof {
                    assert(old(self).token@.len() == 0);
                    assert(old(self).stream() =~= lex_rem(old(self).lex));
                    if lex_rem(old(self).lex).len() > 0 {
                        assert(self.token@ + lex_rem(self.lex) =~= lex_rem(
                            old(self).lex,
                        ).skip(1));
                    } else {
                        assert(self.stream() =~= old(self).stream());
                    }
                }
                r
            },
        };
        match item {
            Some(item) => {
                self.line = item.line;
                Some(item)
            },
            None => None,
        }
    }

    /// Pushes one token back; the next call of `next` returns it again.
    pub fn backup(&mut self, t: Item)
        ensures
            final(self).same_config(old(self)),
            final(self).same_trees(old(self)),
            final(self).spec_line() == old(self).spec_line(),
            final(self).stream() == seq![t] + old(self).stream(),
    {
        self.token.push_front(t);
        proof {
            assert(self.token@ + lex_rem(self.lex) =~= seq![t] + old(self).stream());
        }
    }

    /// Pushes two tokens back in their original order.
    pub fn backup2(&mut self, t0: Item, t1: Item)
        ensures
            final(self).same_config(old(self)),
            final(self).same_trees(old(self)),
            final(self).spec_line() == old(self).spec_line(),
            final(self).stream() == seq![t0, t1] + old(self).stream(),
    {
        self.token.push_front(t1);
        self.token.push_front(t0);
        proof {
            assert(self.token@ + lex_rem(self.lex) =~= seq![t0, t1] + old(self).stream());
        }
    }

    /// Pushes three tokens back in their original order.
    pub fn backup3(&mut self, t0: Item, t1: Item, t2: Item)
        ensures
            final(self).same_config(old(self)),
            final(self).same_trees(old(self)),
            final(self).spec_line() == old(self).spec_line(),
            final(self).stream() == seq![t0, t1, t2] + old(self).stream(),
    {
        self.token.push_front(t2);
        self.token.push_front(t1);
        self.token.push_front(t0);
        proof {
            assert(self.token@ + lex_rem(self.lex) =~= seq![t0, t1, t2] + old(self).stream());
        }
    }
}

/// The name diagnostics carry: the innermost active tree's, or the
/// parser's own when no tree is active.
pub open spec fn active_name(p: &Parser) -> Seq<char> {
    match p.spec_tree() {
        Some(t) => t.name@,
        None => p.spec_name(),
    }
}

/// Whether the error is a diagnostic with exactly this message text.
pub open spec fn msg_error(e: ParseError, msg: Seq<char>) -> bool {
    e matches ParseError::Message { msg: m, .. } && m@ == msg
}

/// Whether the error is a diagnostic with this tree name, line and text.
pub open spec fn ctx_error(
    e: ParseError,
    tree_name: Seq<char>,
    line: usize,
    msg: Seq<char>,
) -> bool {
    e matches ParseError::Message { tree, line: l, msg: m } && tree@ == tree_name && l
        == line && m@ == msg
}

/// Whether the active tree's variable stack holds the name.
pub open spec fn vars_contain(t: Option<Tree>, name: Seq<char>) -> bool {
    match t {
        Some(tr) => exists|i: int| 0 <= i < tr.vars@.len() && (#[trigger] tr.vars@[i])@
            == name,
        None => false,
    }
}

/// A tree extends its own variable stack.
pub proof fn lemma_vars_extended_refl(t: Option<Tree>)
    ensures
        vars_extended(t, t),
{
    match t {
        Some(tr) => {
            assert(tr.vars@.take(tr.vars@.len() as int) =~= tr.vars@);
        },
        None => {},
    }
}

/// A tree whose name, identifier and variables match extends the other.
pub proof fn lemma_vars_eq_extended(a: Option<Tree>, b: Option<Tree>)
    ensures
        (match (a, b) {
            (Some(ta), Some(tb)) => tb.name == ta.name && tb.id == ta.id && tb.vars@
                == ta.vars@,
            _ => false,
        }) ==> vars_extended(a, b),
{
    match (a, b) {
        (Some(ta), Some(tb)) => {
            if tb.name == ta.name && tb.id == ta.id && tb.vars@ == ta.vars@ {
                assert(tb.vars@.take(ta.vars@.len() as int) =~= ta.vars@);
            }
        },
        _ => {},
    }
}

/// Extension of the variable stack is transitive.
pub proof fn lemma_vars_extended_trans(a: Option<Tree>, b: Option<Tree>, c: Option<Tree>)
    requires
        vars_extended(a, b),
        vars_extended(b, c),
    ensures
        vars_extended(a, c),
{
    match a {
        Some(ta) => match b {
            Some(tb) => match c {
                Some(tc) => {
                    let n = ta.vars@.len() as int;
                    assert forall|k: int| 0 <= k < n implies tc.vars@.take(n)[k]
                        == ta.vars@[k] by {
                        assert(tc.vars@.take(tb.vars@.len() as int)[k] == tb.vars@[k]);
                        assert(tb.vars@.take(n)[k] == ta.vars@[k]);
                    }
                    assert(tc.vars@.take(n) =~= ta.vars@);
                },
                None => {},
            },
            None => {},
        },
        None => {},
    }
}

/// Whether the first meaningful token is a reference the parser must
/// reject: an identifier outside the configured function set, or a
/// variable (other than `$`) not in scope.
pub open spec fn bad_head(sk: Seq<Item>, funcs: Set<Seq<char>>, tree: Option<Tree>) -> bool {
    sk.len() > 0 && ((sk[0].typ == ItemType::ItemIdentifier && !funcs.contains(sk[0].val@)) || (
    sk[0].typ == ItemType::ItemVariable && sk[0].val@ != "$"@ && !vars_contain(
        tree,
        sk[0].val@,
    )))
}

/// The message such a rejected reference carries.
pub open spec fn head_err_msg(sk: Seq<Item>) -> Seq<char> {
    if sk.len() > 0 && sk[0].typ == ItemType::ItemIdentifier {
        "function "@ + sk[0].val@ + " not defined"@
    } else if sk.len() > 0 {
        "undefined variable "@ + sk[0].val@
    } else {
        Seq::empty()
    }
}

/// Whether a pipeline stage can be called: it has an operand and does
/// not start with a bare literal, dot or nil.
pub open spec fn cmd_executable(c: CommandNode) -> bool {
    c.args@.len() > 0 && !(c.args@[0] is Bool || c.args@[0] is Dot || c.args@[0] is Nil
        || c.args@[0] is Number || c.args@[0] is String)
}

/// Every stage after the first can be called.
pub open spec fn executable_cmds(cmds: Seq<CommandNode>) -> bool {
    forall|i: int| 1 <= i < cmds.len() ==> cmd_executable(#[trigger] cmds[i])
}

/// A token that forms a complete simple term by itself and is owed
/// success: a dot, nil or boolean, a configured function name, a
/// well-formed numeric or character literal, or a well-formed string
/// literal. (Variables, fields and parenthesized pipelines are handled
/// by their own clauses.)
pub open spec fn simple_term_head(it: Item, funcs: Set<Seq<char>>) -> bool {
    ||| it.typ == ItemType::ItemDot
    ||| it.typ == ItemType::ItemNil
    ||| it.typ == ItemType::ItemBool
    ||| (it.typ == ItemType::ItemIdentifier && funcs.contains(it.val@))
    ||| ((it.typ == ItemType::ItemNumber || it.typ == ItemType::ItemCharConstant)
        && crate::node::number_ok(it.val@, it.typ == ItemType::ItemCharConstant))
    ||| ((it.typ == ItemType::ItemString || it.typ == ItemType::ItemRawString)
        && crate::strutil::unquote_spec(it.val@) is Some)
}

/// The node a simple term token parses to.
pub open spec fn term_node_for(it: Item, n: Nodes) -> bool {
    if it.typ == ItemType::ItemDot {
        n is Dot
    } else if it.typ == ItemType::ItemNil {
        n is Nil
    } else if it.typ == ItemType::ItemBool {
        n matches Nodes::Bool(b) && b.value == (it.val@ == "true"@)
    } else if it.typ == ItemType::ItemIdentifier {
        n matches Nodes::Identifier(i) && i.ident@ == it.val@ && i.pos == it.pos
    } else if it.typ == ItemType::ItemNumber || it.typ == ItemType::ItemCharConstant {
        n matches Nodes::Number(m) && m.text@ == it.val@
    } else if it.typ == ItemType::ItemString || it.typ == ItemType::ItemRawString {
        n matches Nodes::String(st) && st.quoted@ == it.val@ && crate::strutil::unquote_spec(
            it.val@,
        ) == Some(st.text@)
    } else {
        false
    }
}

/// The token kinds that can begin a term; any other head makes `term`
/// push the token back and report that no term is there.
pub open spec fn term_start(t: ItemType) -> bool {
    ||| t == ItemType::ItemError
    ||| t == ItemType::ItemIdentifier
    ||| t == ItemType::ItemDot
    ||| t == ItemType::ItemNil
    ||| t == ItemType::ItemVariable
    ||| t == ItemType::ItemField
    ||| t == ItemType::ItemBool
    ||| t == ItemType::ItemCharConstant
    ||| t == ItemType::ItemNumber
    ||| t == ItemType::ItemLeftParen
    ||| t == ItemType::ItemString
    ||| t == ItemType::ItemRawString
}

/// The stream standing at a declaration's separator: one space token is
/// skipped on the way there, any other head is read as it stands.
pub open spec fn decl_sep_stream(rest: Seq<Item>) -> Seq<Item> {
    if rest.len() > 0 && rest[0].typ == ItemType::ItemSpace {
        skip_spaces(rest)
    } else {
        rest
    }
}

/// Whether the stream's head is the comma of a multi-declaration.
pub open spec fn comma_head(s: Seq<Item>) -> bool {
    s.len() > 0 && s[0].typ == ItemType::ItemChar && s[0].val@ == ","@
}

/// A single-operand action body: one simple term directly before the
/// closing delimiter (`{{.}}`, `{{true}}`, a known function's bare name).
/// `s` is the stream just after the opening delimiter.
pub open spec fn simple_action_tail(s: Seq<Item>, funcs: Set<Seq<char>>) -> bool {
    let a = skip_spaces(s);
    a.len() > 0 && simple_term_head(a[0], funcs) && a.skip(1).len() > 0 && a.skip(1)[0].typ
        == ItemType::ItemRightDelim
}

/// The operand token of such an action body.
pub open spec fn simple_action_op(s: Seq<Item>) -> Item {
    skip_spaces(s)[0]
}

/// What is left after such an action body is consumed.
pub open spec fn simple_action_rest(s: Seq<Item>) -> Seq<Item> {
    skip_spaces(s).skip(2)
}

/// The action node such a body parses to: one pipeline of one command
/// whose sole operand comes from the operand token.
pub open spec fn simple_action_node(op: Item, n: Nodes) -> bool {
    n matches Nodes::Action(a) && a.pipe.decl@.len() == 0 && a.pipe.cmds@.len() == 1
        && a.pipe.cmds@[0].args@.len() == 1 && term_node_for(op, a.pipe.cmds@[0].args@[0])
}

/// A bare keyword marker body (`end` or `else` directly before the
/// closing delimiter); `s` is the stream just after the opening
/// delimiter.
pub open spec fn marker_tail(s: Seq<Item>, kw: ItemType) -> bool {
    let a = skip_spaces(s);
    a.len() > 0 && a[0].typ == kw && ({
        let b = skip_spaces(a.skip(1));
        b.len() > 0 && b[0].typ == ItemType::ItemRightDelim
    })
}

/// What is left after such a marker body is consumed.
pub open spec fn marker_rest(s: Seq<Item>) -> Seq<Item> {
    skip_spaces(skip_spaces(s).skip(1)).skip(1)
}

/// A control construct's simplest accepted tail (after its keyword): a
/// simple-term pipeline before the closing delimiter, a one-text body,
/// and an `{{end}}` marker.
pub open spec fn simple_control_tail(s: Seq<Item>, funcs: Set<Seq<char>>) -> bool {
    let sk = skip_spaces(s);
    sk.len() > 0 && simple_term_head(sk[0], funcs) && sk.skip(1).len() > 0 && sk.skip(1)[0].typ
        == ItemType::ItemRightDelim && text_then_end(sk.skip(2))
}

/// Whether the construct's parsed parts match that tail: the pipeline's
/// one operand from the head token, a one-text body, no else body.
pub open spec fn simple_control_parts(
    s: Seq<Item>,
    pipe: PipeNode,
    list: ListNode,
    els: Option<ListNode>,
) -> bool {
    let sk = skip_spaces(s);
    &&& pipe.decl@.len() == 0 && pipe.cmds@.len() == 1 && pipe.cmds@[0].args@.len() == 1
        && term_node_for(sk[0], pipe.cmds@[0].args@[0])
    &&& list.nodes@.len() == 1 && (list.nodes@[0] matches Nodes::Text(tx) && tx.text@
        == tte_text(sk.skip(2)).val@)
    &&& els is None
}

/// What is left after such a construct's tail is consumed.
pub open spec fn simple_control_rest(s: Seq<Item>) -> Seq<Item> {
    tte_rest(skip_spaces(s).skip(2))
}

/// A stream holding exactly one simple action and nothing else: an
/// opening delimiter, a simple-term pipeline, the closing delimiter,
/// then end of input.
pub open spec fn single_action_stream(items: Seq<Item>, funcs: Set<Seq<char>>) -> bool {
    items.len() > 0 && items[0].typ == ItemType::ItemLeftDelim && simple_action_tail(
        items.skip(1),
        funcs,
    ) && ({
        let rest = simple_action_rest(items.skip(1));
        rest.len() == 1 && rest[0].typ == ItemType::ItemEOF
    })
}

/// The operand node a bare action word parses to: a function reference,
/// a boolean literal or nil, by the word's classification.
pub open spec fn word_term_node(w: Seq<char>, n: Nodes) -> bool {
    if keyword_type(w) == ItemType::ItemIdentifier {
        n matches Nodes::Identifier(i) && i.ident@ == w
    } else if keyword_type(w) == ItemType::ItemBool {
        n matches Nodes::Bool(b) && b.value == (w == "true"@)
    } else if keyword_type(w) == ItemType::ItemNil {
        n is Nil
    } else {
        false
    }
}

/// A single-variable declaration pipeline tail: `$x :=` (at most one
/// space run before the `:=`), then one simple-term command before the
/// closing delimiter.
pub open spec fn decl1_tail(s: Seq<Item>, funcs: Set<Seq<char>>) -> bool {
    let sk = skip_spaces(s);
    let d1 = decl_sep_stream(sk.skip(1));
    let s3 = skip_spaces(d1.skip(1));
    &&& sk.len() > 0 && sk[0].typ == ItemType::ItemVariable
    &&& d1.len() > 0 && d1[0].typ == ItemType::ItemColonEquals
    &&& s3.len() > 0 && simple_term_head(s3[0], funcs)
    &&& s3.skip(1).len() > 0 && s3.skip(1)[0].typ == ItemType::ItemRightDelim
}

/// The command token of such a declaration pipeline.
pub open spec fn decl1_cmd(s: Seq<Item>) -> Item {
    skip_spaces(decl_sep_stream(skip_spaces(s).skip(1)).skip(1))[0]
}

/// What is left after such a declaration pipeline is consumed.
pub open spec fn decl1_rest(s: Seq<Item>) -> Seq<Item> {
    skip_spaces(decl_sep_stream(skip_spaces(s).skip(1)).skip(1)).skip(2)
}

/// A two-variable range declaration tail: `$a, $b :=`, then one
/// simple-term command before the closing delimiter.
pub open spec fn decl2_tail(s: Seq<Item>, funcs: Set<Seq<char>>) -> bool {
    let sk = skip_spaces(s);
    let d1 = decl_sep_stream(sk.skip(1));
    let s2 = skip_spaces(d1.skip(1));
    let d2 = decl_sep_stream(s2.skip(1));
    let s3 = skip_spaces(d2.skip(1));
    &&& sk.len() > 0 && sk[0].typ == ItemType::ItemVariable
    &&& comma_head(d1)
    &&& s2.len() > 0 && s2[0].typ == ItemType::ItemVariable
    &&& d2.len() > 0 && d2[0].typ == ItemType::ItemColonEquals
    &&& s3.len() > 0 && simple_term_head(s3[0], funcs)
    &&& s3.skip(1).len() > 0 && s3.skip(1)[0].typ == ItemType::ItemRightDelim
}

/// The second declared variable's token.
pub open spec fn decl2_second(s: Seq<Item>) -> Item {
    skip_spaces(decl_sep_stream(skip_spaces(s).skip(1)).skip(1))[0]
}

/// The command token of such a two-variable declaration pipeline.
pub open spec fn decl2_cmd(s: Seq<Item>) -> Item {
    skip_spaces(decl_sep_stream(decl2_second_rest(s)).skip(1))[0]
}

/// The stream just after the second declared variable.
pub open spec fn decl2_second_rest(s: Seq<Item>) -> Seq<Item> {
    skip_spaces(decl_sep_stream(skip_spaces(s).skip(1)).skip(1)).skip(1)
}

/// What is left after such a two-variable declaration pipeline.
pub open spec fn decl2_rest(s: Seq<Item>) -> Seq<Item> {
    skip_spaces(decl_sep_stream(decl2_second_rest(s)).skip(1)).skip(2)
}

/// The simplest complete body: one text token, then an `{{end}}` marker.
pub open spec fn text_then_end(s: Seq<Item>) -> bool {
    let sk = skip_spaces(s);
    sk.len() > 0 && sk[0].typ == ItemType::ItemText && ({
        let u = skip_spaces(sk.skip(1));
        u.len() > 0 && u[0].typ == ItemType::ItemLeftDelim && marker_tail(
            u.skip(1),
            ItemType::ItemEnd,
        )
    })
}

/// A body of one text token closed by an `{{else}}` marker.
pub open spec fn text_then_else(s: Seq<Item>) -> bool {
    let sk = skip_spaces(s);
    sk.len() > 0 && sk[0].typ == ItemType::ItemText && ({
        let u = skip_spaces(sk.skip(1));
        u.len() > 0 && u[0].typ == ItemType::ItemLeftDelim && marker_tail(
            u.skip(1),
            ItemType::ItemElse,
        )
    })
}

/// The text token of such a body.
pub open spec fn tte_text(s: Seq<Item>) -> Item {
    skip_spaces(s)[0]
}

/// What is left after such a body and its end marker are consumed.
pub open spec fn tte_rest(s: Seq<Item>) -> Seq<Item> {
    let sk = skip_spaces(s);
    marker_rest(skip_spaces(sk.skip(1)).skip(1))
}

fn msg2(a: &str, b: &str) -> (r: String)
    ensures
        r@ == a@ + b@,
{
    let mut s = String::from_str(a);
    s.append(b);
    s
}

fn msg3(a: &str, b: &str, c: &str) -> (r: String)
    ensures
        r@ == a@ + b@ + c@,
{
    let mut s = String::from_str(a);
    s.append(b);
    s.append(c);
    s
}

fn msg4(a: &str, b: &str, c: &str, d: &str) -> (r: String)
    ensures
        r@ == a@ + b@ + c@ + d@,
{
    let mut s = String::from_str(a);
    s.append(b);
    s.append(c);
    s.append(d);
    s
}

impl Parser {
    /// A diagnostic bound to the innermost active tree and current line.
    pub fn error_msg(&self, msg: &str) -> (e: ParseError)
        ensures
            ctx_error(e, active_name(self), self.spec_line(), msg@),
    {
        let name = if let Some(t) = self.tree.as_ref() {
            t.name.clone()
        } else {
            self.name.clone()
        };
        ParseError::Message { tree: name, line: self.line, msg: String::from_str(msg) }
    }

    /// Fails with a diagnostic bound to the active tree and current line.
    pub fn error<T>(&self, msg: &str) -> (r: Result<T, ParseError>)
        ensures
            r matches Err(e) && ctx_error(e, active_name(self), self.spec_line(), msg@),
    {
        Err(self.error_msg(msg))
    }

    /// A diagnostic of the shape `unexpected <what> in <context>`.
    pub fn unexpected(&self, what: &str, context: &str) -> (e: ParseError)
        ensures
            ctx_error(
                e,
                active_name(self),
                self.spec_line(),
                "unexpected "@ + what@ + " in "@ + context@,
            ),
    {
        let m = msg4("unexpected ", what, " in ", context);
        self.error_msg(m.as_str())
    }

    /// Consumes the next token; end of input is a fault named after the
    /// surrounding construct.
    pub fn next_must(&mut self, context: &str) -> (r: Result<Item, ParseError>)
        ensures
            final(self).same_config(old(self)),
            final(self).same_trees(old(self)),
            old(self).stream().len() > 0 ==> r == Ok::<Item, ParseError>(
                old(self).stream()[0],
            ) && final(self).stream() == old(self).stream().skip(1)
                && final(self).spec_line() == old(self).stream()[0].line,
            old(self).stream().len() == 0 ==> r is Err && final(self).stream() == old(self).stream() && final(self).spec_line() == old(self).spec_line(),
    {
        match self.next() {
            Some(t) => Ok(t),
            None => {
                let m = msg2("unexpected end in ", context);
                Err(self.error_msg(m.as_str()))
            },
        }
    }

    /// Consumes tokens until one is no space token, and returns it.
    pub fn next_non_space(&mut self) -> (r: Option<Item>)
        ensures
            final(self).same_config(old(self)),
            final(self).same_trees(old(self)),
            final(self).stream().len() <= old(self).stream().len(),
            skip_spaces(old(self).stream()).len() > 0 ==> r == Some(
                skip_spaces(old(self).stream())[0],
            ) && final(self).stream() == skip_spaces(old(self).stream()).skip(1)
                && final(self).spec_line() == skip_spaces(old(self).stream())[0].line,
            skip_spaces(old(self).stream()).len() == 0 ==> r is None && final(self).stream().len() == 0,
    {
        loop
            invariant
                self.same_config(old(self)),
                self.same_trees(old(self)),
                self.stream().len() <= old(self).stream().len(),
                skip_spaces(self.stream()) == skip_spaces(old(self).stream()),
            decreases self.stream().len(),
        {
            let ghost pre = *self;
            match self.next() {
                None => {
                    return None;
                },
                Some(t) => {
                    if t.typ != ItemType::ItemSpace {
                        proof {
                            assert(skip_spaces(pre.stream()) == pre.stream());
                        }
                        return Some(t);
                    }
                    proof {
                        assert(skip_spaces(pre.stream()) == skip_spaces(
                            pre.stream().skip(1),
                        ));
                    }
                },
            }
        }
    }

    /// Consumes the next non-space token; end of input is a fault.
    pub fn next_non_space_must(&mut self, context: &str) -> (r: Result<Item, ParseError>)
        ensures
            final(self).same_config(old(self)),
            final(self).same_trees(old(self)),
            final(self).stream().len() <= old(self).stream().len(),
            skip_spaces(old(self).stream()).len() > 0 ==> r == Ok::<Item, ParseError>(
                skip_spaces(old(self).stream())[0],
            ) && final(self).stream() == skip_spaces(old(self).stream()).skip(1)
                && final(self).spec_line() == skip_spaces(old(self).stream())[0].line,
            skip_spaces(old(self).stream()).len() == 0 ==> r is Err && final(self).stream().len() == 0,
    {
        match self.next_non_space() {
            Some(t) => Ok(t),
            None => Err(self.unexpected("end", context)),
        }
    }

    /// Looks at the next non-space token without consuming it; end of
    /// input is a fault.
    pub fn peek_non_space_must(&mut self, context: &str) -> (r: Result<Item, ParseError>)
        ensures
            final(self).same_config(old(self)),
            final(self).same_trees(old(self)),
            final(self).stream().len() <= old(self).stream().len(),
            skip_spaces(old(self).stream()).len() > 0 ==> r == Ok::<Item, ParseError>(
                skip_spaces(old(self).stream())[0],
            ) && final(self).stream() == skip_spaces(old(self).stream()) && final(self).spec_line() == skip_spaces(old(self).stream())[0].line,
            skip_spaces(old(self).stream()).len() == 0 ==> r is Err && final(self).stream().len() == 0,
    {
        match self.next_non_space() {
            Some(t) => {
                let c = t.clone();
                self.backup(t);
                proof {
                    assert(self.stream() =~= skip_spaces(old(self).stream()));
                }
                Ok(c)
            },
            None => {
                let m = msg2("unexpected end in ", context);
                Err(self.error_msg(m.as_str()))
            },
        }
    }

    /// Looks at the next token without consuming it (its line is still
    /// recorded).
    pub fn peek(&mut self) -> (r: Option<Item>)
        ensures
            final(self).same_config(old(self)),
            final(self).same_trees(old(self)),
            final(self).stream() == old(self).stream(),
            old(self).stream().len() > 0 ==> r == Some(old(self).stream()[0]) && final(self).spec_line() == old(self).stream()[0].line,
            old(self).stream().len() == 0 ==> r is None && final(self).spec_line()
                == old(self).spec_line(),
    {
        match self.next() {
            Some(t) => {
                let c = t.clone();
                self.backup(t);
                proof {
                    assert(self.stream() =~= old(self).stream());
                }
                Some(c)
            },
            None => None,
        }
    }

    /// Looks at the next non-space token without consuming it; end of
    /// input is a fault.
    pub fn peek_must(&mut self, context: &str) -> (r: Result<Item, ParseError>)
        ensures
            final(self).same_config(old(self)),
            final(self).same_trees(old(self)),
            final(self).stream().len() <= old(self).stream().len(),
            skip_spaces(old(self).stream()).len() > 0 ==> r == Ok::<Item, ParseError>(
                skip_spaces(old(self).stream())[0],
            ) && final(self).stream() == skip_spaces(old(self).stream()) && final(self).spec_line() == skip_spaces(old(self).stream())[0].line,
            skip_spaces(old(self).stream()).len() == 0 ==> r is Err && final(self).stream().len() == 0,
    {
        self.peek_non_space_must(context)
    }

    /// Consumes the next non-space token, which must have the expected
    /// kind; anything else is a fault named after the construct.
    pub fn expect(&mut self, expected: ItemType, context: &str) -> (r: Result<
        Item,
        ParseError,
    >)
        ensures
            final(self).same_config(old(self)),
            final(self).same_trees(old(self)),
            final(self).stream().len() <= old(self).stream().len(),
            ({
                let sk = skip_spaces(old(self).stream());
                &&& (r matches Ok(t) ==> sk.len() > 0 && t == sk[0] && t.typ == expected
                    && final(self).stream() == sk.skip(1))
                &&& (sk.len() > 0 && sk[0].typ == expected ==> r is Ok)
                &&& (sk.len() > 0 && sk[0].typ != expected ==> r is Err)
                &&& (sk.len() == 0 ==> r is Err)
            }),
    {
        let token = match self.next_non_space_must(context) {
            Ok(t) => t,
            Err(e) => {
                return Err(e);
            },
        };
        if token.typ != expected {
            let d = token.describe();
            return Err(self.unexpected(d.as_str(), context));
        }
        Ok(token)
    }

    /// Whether the name is in the configured function set.
    pub fn has_func(&self, name: &str) -> (r: bool)
        ensures
            r == self.spec_funcs().contains(name@),
    {
        self.funcs.contains(name)
    }

    /// Pushes one declared variable onto the active tree's scope stack.
    pub fn add_var(&mut self, name: String) -> (r: Result<(), ParseError>)
        ensures
            final(self).same_config(old(self)),
            final(self).stream() == old(self).stream(),
            final(self).spec_line() == old(self).spec_line(),
            final(self).spec_tree_set() == old(self).spec_tree_set(),
            final(self).spec_tree_stack() == old(self).spec_tree_stack(),
            final(self).spec_tree_id() == old(self).spec_tree_id(),
            final(self).spec_max_tree_id() == old(self).spec_max_tree_id(),
            old(self).spec_tree() matches Some(t0) ==> ({
                &&& r is Ok
                &&& final(self).spec_tree() matches Some(t1) && t1.name == t0.name
                    && t1.id == t0.id && t1.root == t0.root && t1.fields == t0.fields
                    && t1.vars@ == t0.vars@.push(name)
            }),
            old(self).spec_tree() is None ==> (r matches Err(e) && msg_error(
                e,
                "no tree"@,
            )) && final(self).spec_tree() is None,
    {
        let mut tree = match self.tree.take() {
            Some(t) => t,
            None => {
                return Err(self.error_msg("no tree"));
            },
        };
        tree.vars.push(name);
        self.tree = Some(tree);
        Ok(())
    }

    /// Registers a completed tree under its name, overwriting only a
    /// prior tree whose body is empty.
    pub fn add_tree(&mut self, name: String, t: Tree)
        ensures
            final(self).same_config(old(self)),
            final(self).stream() == old(self).stream(),
            final(self).spec_line() == old(self).spec_line(),
            final(self).spec_tree() == old(self).spec_tree(),
            final(self).spec_tree_stack() == old(self).spec_tree_stack(),
            final(self).spec_tree_id() == old(self).spec_tree_id(),
            final(self).spec_max_tree_id() == old(self).spec_max_tree_id(),
            final(self).spec_tree_set() == old(self).spec_tree_set().insert(name@, t),
    {
        self.tree_set.insert(name, t);
    }

    /// Finalizes the active tree into the registry. Registering a name
    /// whose prior tree has a non-empty body is the duplicate-definition
    /// fault; with no active tree this is a caller-sequencing fault.
    pub fn add_to_tree_set(&mut self) -> (r: Result<(), ParseError>)
        ensures
            final(self).same_config(old(self)),
            final(self).stream() == old(self).stream(),
            final(self).spec_line() == old(self).spec_line(),
            final(self).spec_tree_stack() == old(self).spec_tree_stack(),
            final(self).spec_tree_id() == old(self).spec_tree_id(),
            final(self).spec_max_tree_id() == old(self).spec_max_tree_id(),
            final(self).spec_tree() is None,
            old(self).spec_tree() is None ==> (r matches Err(e) && msg_error(
                e,
                "no tree"@,
            )) && final(self).spec_tree_set() == old(self).spec_tree_set(),
            old(self).spec_tree() matches Some(t) ==> {
                let dup = old(self).spec_tree_set().contains_key(t.name@) && (old(self).spec_tree_set()[t.name@].root matches Some(prior) && !empty_tree(
                    prior,
                ));
                &&& (dup ==> (r matches Err(e) && msg_error(
                    e,
                    "template multiple definitions of template "@ + t.name@,
                )) && final(self).spec_tree_set() == old(self).spec_tree_set())
                &&& (!dup ==> r is Ok && final(self).spec_tree_set() == old(self).spec_tree_set().insert(t.name@, t))
            },
    {
        let tree = match self.tree.take() {
            Some(t) => t,
            None => {
                return Err(self.error_msg("no tree"));
            },
        };
        let prior = self.tree_set.get(tree.name.as_str());
        let mut dup = false;
        match prior {
            Some(pt) => {
                match &pt.root {
                    Some(r) => {
                        if !r.is_empty_tree() {
                            dup = true;
                        }
                    },
                    None => {},
                }
            },
            None => {},
        }
        if dup {
            let m = msg2(
                "template multiple definitions of template ",
                tree.name.as_str(),
            );
            return Err(self.error_msg(m.as_str()));
        }
        let name = tree.name.clone();
        self.add_tree(name, tree);
        Ok(())
    }

    /// Suspends the active tree (if any) and starts a fresh one.
    pub fn start_parse(&mut self, name: String, id: TreeId)
        ensures
            final(self).same_config(old(self)),
            final(self).stream() == old(self).stream(),
            final(self).spec_line() == old(self).spec_line(),
            final(self).spec_tree_set() == old(self).spec_tree_set(),
            final(self).spec_max_tree_id() == old(self).spec_max_tree_id(),
            final(self).spec_tree_id() == id,
            final(self).spec_tree() matches Some(nt) && nt.name == name && nt.id == id
                && nt.root is None && nt.vars@ == Seq::<String>::empty() && nt.fields@
                == Set::<Seq<char>>::empty(),
            old(self).spec_tree() matches Some(t) ==> final(self).spec_tree_stack()
                == old(self).spec_tree_stack().push(t),
            old(self).spec_tree() is None ==> final(self).spec_tree_stack() == old(self).spec_tree_stack(),
    {
        if let Some(t) = self.tree.take() {
            self.tree_stack.push_back(t);
        }
        self.tree_id = id;
        let t = Tree::new(name, id);
        self.tree = Some(t);
    }

    /// Finalizes the active tree into the registry, then resumes the
    /// most recently suspended tree, if any.
    pub fn stop_parse(&mut self) -> (r: Result<(), ParseError>)
        ensures
            final(self).same_config(old(self)),
            final(self).stream() == old(self).stream(),
            final(self).spec_line() == old(self).spec_line(),
            final(self).spec_max_tree_id() == old(self).spec_max_tree_id(),
            old(self).spec_tree() is None ==> r is Err,
            old(self).spec_tree() matches Some(t) ==> {
                let dup = old(self).spec_tree_set().contains_key(t.name@) && (old(self).spec_tree_set()[t.name@].root matches Some(prior) && !empty_tree(
                    prior,
                ));
                &&& (dup ==> r is Err && final(self).spec_tree_set() == old(self).spec_tree_set())
                &&& (!dup ==> r is Ok && final(self).spec_tree_set() == old(self).spec_tree_set().insert(t.name@, t))
            },
            r is Ok ==> ({
                &&& (old(self).spec_tree_stack().len() > 0 ==> final(self).spec_tree()
                    == Some(old(self).spec_tree_stack().last()) && final(self).spec_tree_stack() == old(self).spec_tree_stack().drop_last() && final(self).spec_tree_id() == old(self).spec_tree_stack().last().id)
                &&& (old(self).spec_tree_stack().len() == 0 ==> final(self).spec_tree()
                    is None && final(self).spec_tree_stack() == old(self).spec_tree_stack() && final(self).spec_tree_id() == 0)
            }),
    {
        match self.add_to_tree_set() {
            Ok(()) => {},
            Err(e) => {
                return Err(e);
            },
        }
        self.tree = self.tree_stack.pop_back();
        self.tree_id = match self.tree.as_ref() {
            Some(t) => t.id,
            None => 0,
        };
        Ok(())
    }

    /// Resolves a variable reference: the reserved name `$` always
    /// resolves; any other name must already be declared in the active
    /// scope, else the reference is the undefined-variable fault.
    pub fn use_var(&self, tree_id: TreeId, pos: Pos, name: &str) -> (r: Result<
        VariableNode,
        ParseError,
    >)
        ensures
            r matches Ok(v) ==> (name@ == "$"@ || vars_contain(self.spec_tree(), name@))
                && v.tree_id == tree_id && v.pos == pos && v.ident@ == name@,
            r is Err ==> name@ != "$"@ && !vars_contain(self.spec_tree(), name@),
            r matches Err(e) ==> msg_error(e, "undefined variable "@ + name@),
    {
        if str_eq(name, "$") {
            return Ok(VariableNode::new(tree_id, pos, name));
        }
        match self.tree.as_ref() {
            Some(t) => {
                let n = t.vars.len();
                let mut i: usize = 0;
                while i < n
                    invariant
                        i <= n == t.vars@.len(),
                        self.spec_tree() == Some(*t),
                        forall|j: int| 0 <= j < i ==> (#[trigger] t.vars@[j])@ != name@,
                    decreases n - i,
                {
                    if str_eq(t.vars[i].as_str(), name) {
                        return Ok(VariableNode::new(tree_id, pos, name));
                    }
                    i = i + 1;
                }
            },
            None => {},
        }
        let m = msg2("undefined variable ", name);
        Err(self.error_msg(m.as_str()))
    }

    /// The grammar routines below touch only the active tree (its
    /// variables and referenced fields); the registry, the suspended
    /// stack and the identifier counters stay as they are.
    pub open spec fn same_outer(&self, o: &Parser) -> bool {
        &&& self.spec_tree_set() == o.spec_tree_set()
        &&& self.spec_tree_stack() == o.spec_tree_stack()
        &&& self.spec_tree_id() == o.spec_tree_id()
        &&& self.spec_max_tree_id() == o.spec_max_tree_id()
    }

    /// One term: the smallest operand form. An identifier must be a
    /// configured function; a variable must be in scope; literals are
    /// decoded; a parenthesized pipeline recurses. A token that starts
    /// no term is pushed back and None is returned.
    pub fn term(&mut self) -> (r: Result<Option<Nodes>, ParseError>)
        ensures
            final(self).same_config(old(self)),
            final(self).same_outer(old(self)),
            final(self).stream().len() <= old(self).stream().len(),
            r matches Ok(n) ==> vars_extended(old(self).spec_tree(), final(self).spec_tree()),
            r matches Ok(n) && n is Some ==> final(self).stream().len() < old(self).stream().len(),
            r matches Ok(n) && n is None ==> final(self).stream() == skip_spaces(old(self).stream())
                && final(self).spec_tree() == old(self).spec_tree(),
            bad_head(skip_spaces(old(self).stream()), old(self).spec_funcs(), old(self).spec_tree())
                ==> (r matches Err(e) && msg_error(e, head_err_msg(skip_spaces(old(self).stream())))),
            ({
                let sk = skip_spaces(old(self).stream());
                sk.len() > 0 && sk[0].typ == ItemType::ItemIdentifier && old(self).spec_funcs().contains(sk[0].val@)
                    ==> (r matches Ok(n) && n matches Some(nd) && nd matches Nodes::Identifier(idn)
                        && idn.ident@ == sk[0].val@ && idn.pos == sk[0].pos && idn.tree_id
                        == old(self).spec_tree_id())
            }),
            ({
                let sk = skip_spaces(old(self).stream());
                sk.len() > 0 && simple_term_head(sk[0], old(self).spec_funcs()) ==> (r matches
                Ok(n) && n matches Some(nd) && term_node_for(sk[0], nd) && final(self).stream()
                    == sk.skip(1) && final(self).spec_tree() == old(self).spec_tree())
            }),
            ({
                let sk = skip_spaces(old(self).stream());
                sk.len() > 0 && sk[0].typ == ItemType::ItemVariable && (sk[0].val@ == "$"@
                    || vars_contain(old(self).spec_tree(), sk[0].val@)) ==> (r matches Ok(n)
                    && n matches Some(nd) && (nd matches Nodes::Variable(v) && v.ident@
                    == sk[0].val@) && final(self).stream() == sk.skip(1)
                    && final(self).spec_tree() == old(self).spec_tree())
            }),
            ({
                let sk = skip_spaces(old(self).stream());
                sk.len() > 0 && sk[0].typ == ItemType::ItemField && old(self).spec_tree()
                    is Some ==> (r matches Ok(n) && n matches Some(nd) && (nd matches
                Nodes::Field(f) && f.ident@ == sk[0].val@) && final(self).stream() == sk.skip(
                    1,
                ) && (match (old(self).spec_tree(), final(self).spec_tree()) {
                    (Some(t0), Some(t1)) => t1.fields@ == t0.fields@.insert(sk[0].val@)
                        && t1.vars == t0.vars && t1.name == t0.name && t1.id == t0.id
                        && t1.root == t0.root,
                    _ => false,
                }))
            }),
            ({
                let sk = skip_spaces(old(self).stream());
                sk.len() > 0 && (sk[0].typ == ItemType::ItemNumber || sk[0].typ
                    == ItemType::ItemCharConstant) && !crate::node::number_ok(
                    sk[0].val@,
                    sk[0].typ == ItemType::ItemCharConstant,
                ) ==> r is Err
            }),
            ({
                let sk = skip_spaces(old(self).stream());
                sk.len() > 0 && (sk[0].typ == ItemType::ItemString || sk[0].typ
                    == ItemType::ItemRawString) && crate::strutil::unquote_spec(sk[0].val@)
                    is None ==> r is Err
            }),
            ({
                let sk = skip_spaces(old(self).stream());
                sk.len() > 0 && sk[0].typ == ItemType::ItemError ==> (r matches Err(e)
                    && msg_error(e, sk[0].val@))
            }),
            ({
                let sk = skip_spaces(old(self).stream());
                sk.len() > 0 && !term_start(sk[0].typ) ==> (r matches Ok(n) && n is None)
            }),
            ({
                let sk = skip_spaces(old(self).stream());
                (sk.len() > 0 && sk[0].typ == ItemType::ItemLeftParen && r is Ok) ==> (
                r matches Ok(n) && n matches Some(nd) ==> (nd matches Nodes::Pipe(p)
                    && p.cmds@.len() >= 1 && executable_cmds(p.cmds@)))
            }),
            ({
                let sk = skip_spaces(old(self).stream());
                let q = skip_spaces(sk.skip(1));
                sk.len() > 0 && sk[0].typ == ItemType::ItemLeftParen && q.len() > 0
                    && simple_term_head(q[0], old(self).spec_funcs()) && q.skip(1).len()
                    > 0 && q.skip(1)[0].typ == ItemType::ItemRightParen ==> (r matches Ok(
                    n,
                ) && n matches Some(nd) && (nd matches Nodes::Pipe(p) && p.decl@.len()
                    == 0 && p.cmds@.len() == 1 && p.cmds@[0].args@.len() == 1
                    && term_node_for(q[0], p.cmds@[0].args@[0])) && final(self).stream()
                    == q.skip(2))
            }),
            ({
                let sk = skip_spaces(old(self).stream());
                let q = skip_spaces(sk.skip(1));
                sk.len() > 0 && sk[0].typ == ItemType::ItemLeftParen && q.len() > 0
                    && simple_term_head(q[0], old(self).spec_funcs()) && q.skip(1).len()
                    > 0 && q.skip(1)[0].typ == ItemType::ItemRightDelim && q.skip(
                    2,
                ).len() > 0 && q.skip(2)[0].typ != ItemType::ItemRightParen ==> r is Err
            }),
        decreases old(self).stream().len(), 2int,
    {
        proof {
            lemma_vars_extended_refl(old(self).spec_tree());
        }
        let token = match self.next_non_space_must("token") {
            Ok(t) => t,
            Err(e) => {
                return Err(e);
            },
        };
        let node: Nodes = match token.typ {
            ItemType::ItemError => {
                return Err(self.error_msg(token.val.as_str()));
            },
            ItemType::ItemIdentifier => {
                if !self.has_func(token.val.as_str()) {
                    let m = msg3("function ", token.val.as_str(), " not defined");
                    return Err(self.error_msg(m.as_str()));
                }
                let mut node = IdentifierNode::new(token.val);
                node.set_pos(token.pos);
                node.set_tree(self.tree_id);
                Nodes::Identifier(node)
            },
            ItemType::ItemDot => Nodes::Dot(DotNode::new(self.tree_id, token.pos)),
            ItemType::ItemNil => Nodes::Nil(NilNode::new(self.tree_id, token.pos)),
            ItemType::ItemVariable => {
                match self.use_var(self.tree_id, token.pos, token.val.as_str()) {
                    Ok(v) => Nodes::Variable(v),
                    Err(e) => {
                        return Err(e);
                    },
                }
            },
            ItemType::ItemField => {
                match self.add_field(token.val.as_str()) {
                    Ok(()) => {},
                    Err(e) => {
                        return Err(e);
                    },
                }
                Nodes::Field(FieldNode::new(self.tree_id, token.pos, token.val.as_str()))
            },
            ItemType::ItemBool => {
                let v = str_eq(token.val.as_str(), "true");
                Nodes::Bool(BoolNode::new(self.tree_id, token.pos, v))
            },
            ItemType::ItemCharConstant | ItemType::ItemNumber => {
                match NumberNode::new(self.tree_id, token.pos, token.val, &token.typ) {
                    Ok(n) => Nodes::Number(n),
                    Err(e) => {
                        return Err(self.error_msg(e.as_str()));
                    },
                }
            },
            ItemType::ItemLeftParen => {
                let pipe = match self.pipeline("parenthesized pipeline") {
                    Ok(p) => p,
                    Err(e) => {
                        return Err(e);
                    },
                };
                let next = match self.next_must("parenthesized pipeline") {
                    Ok(t) => t,
                    Err(e) => {
                        return Err(e);
                    },
                };
                if next.typ != ItemType::ItemRightParen {
                    let d = next.describe();
                    let m = msg2("unclosed right paren: unexpected ", d.as_str());
                    return Err(self.error_msg(m.as_str()));
                }
                Nodes::Pipe(pipe)
            },
            ItemType::ItemString | ItemType::ItemRawString => {
                match crate::strutil::unquote_str(token.val.as_str()) {
                    Some(s) => Nodes::String(
                        StringNode::new(self.tree_id, token.pos, token.val, s),
                    ),
                    None => {
                        let m = msg2("unable to unquote string: ", token.val.as_str());
                        return Err(self.error_msg(m.as_str()));
                    },
                }
            },
            _ => {
                self.backup(token);
                proof {
                    assert(self.stream() =~= skip_spaces(old(self).stream()));
                }
                return Ok(None);
            },
        };
        Ok(Some(node))
    }

    /// Records one referenced field path on the active tree; with no
    /// active tree this is a caller-sequencing fault.
    fn add_field(&mut self, path: &str) -> (r: Result<(), ParseError>)
        ensures
            final(self).same_config(old(self)),
            final(self).same_outer(old(self)),
            final(self).stream() == old(self).stream(),
            final(self).spec_line() == old(self).spec_line(),
            r is Ok ==> vars_extended(old(self).spec_tree(), final(self).spec_tree()),
            old(self).spec_tree() matches Some(t0) ==> r is Ok && (final(self).spec_tree() matches Some(t1)
                && t1.vars == t0.vars && t1.root == t0.root && t1.fields@
                == t0.fields@.insert(path@)),
            old(self).spec_tree() is None ==> r is Err && final(self).spec_tree() is None,
    {
        match self.tree.as_mut() {
            Some(t) => {
                t.fields.insert(String::from_str(path));
                proof {
                    assert(self.tree.unwrap().vars@.take(old(self).spec_tree().unwrap().vars@.len() as int)
                        =~= old(self).spec_tree().unwrap().vars@);
                }
                Ok(())
            },
            None => Err(self.error_msg("no tree")),
        }
    }

    /// One operand: a term, possibly extended by `.field` accesses into
    /// a chain. A chain after a field or variable collapses into a longer
    /// field or variable; a chain directly after a literal, dot or nil is
    /// rejected.
    pub fn operand(&mut self) -> (r: Result<Option<Nodes>, ParseError>)
        ensures
            final(self).same_config(old(self)),
            final(self).same_outer(old(self)),
            final(self).stream().len() <= old(self).stream().len(),
            r matches Ok(n) ==> vars_extended(old(self).spec_tree(), final(self).spec_tree()),
            r matches Ok(n) && n is Some ==> final(self).stream().len() < old(self).stream().len(),
            r matches Ok(n) && n is None ==> final(self).stream() == skip_spaces(old(self).stream())
                && final(self).spec_tree() == old(self).spec_tree(),
            bad_head(skip_spaces(old(self).stream()), old(self).spec_funcs(), old(self).spec_tree())
                ==> (r matches Err(e) && msg_error(e, head_err_msg(skip_spaces(old(self).stream())))),
            ({
                let sk = skip_spaces(old(self).stream());
                sk.len() > 0 && simple_term_head(sk[0], old(self).spec_funcs())
                    && sk.skip(1).len() > 0 && sk.skip(1)[0].typ != ItemType::ItemField
                    ==> (r matches Ok(n) && n matches Some(nd) && term_node_for(sk[0], nd)
                    && final(self).stream() == sk.skip(1) && final(self).spec_tree()
                    == old(self).spec_tree())
            }),
            ({
                let sk = skip_spaces(old(self).stream());
                sk.len() > 0 && !term_start(sk[0].typ) ==> (r matches Ok(n) && n is None)
            }),
            ({
                let sk = skip_spaces(old(self).stream());
                sk.len() > 0 && simple_term_head(sk[0], old(self).spec_funcs())
                    && sk[0].typ != ItemType::ItemIdentifier && sk.skip(1).len() > 0
                    && sk.skip(1)[0].typ == ItemType::ItemField ==> r is Err
            }),
            ({
                let sk = skip_spaces(old(self).stream());
                sk.len() > 0 && sk[0].typ == ItemType::ItemVariable && (sk[0].val@ == "$"@
                    || vars_contain(old(self).spec_tree(), sk[0].val@)) && sk.skip(
                    1,
                ).len() > 0 && sk.skip(1)[0].typ != ItemType::ItemField ==> (r matches Ok(
                    n,
                ) && n matches Some(nd) && (nd matches Nodes::Variable(v) && v.ident@
                    == sk[0].val@) && final(self).stream() == sk.skip(1)
                    && final(self).spec_tree() == old(self).spec_tree())
            }),
            ({
                let sk = skip_spaces(old(self).stream());
                old(self).spec_tree() is Some && sk.len() > 0 && sk[0].typ
                    == ItemType::ItemField && sk.skip(1).len() > 0 && sk.skip(1)[0].typ
                    == ItemType::ItemField && sk.skip(1)[0].val@.len() >= 1 && sk.skip(
                    1,
                )[0].val@[0] == '.' && sk.skip(2).len() > 0 && sk.skip(2)[0].typ
                    != ItemType::ItemField ==> (r matches Ok(n) && n matches Some(nd)
                    && (nd matches Nodes::Field(f) && f.ident@ == sk[0].val@ + sk.skip(
                    1,
                )[0].val@) && final(self).stream() == sk.skip(2) && (match (
                    old(self).spec_tree(),
                    final(self).spec_tree(),
                ) {
                    (Some(t0), Some(t1)) => t1.fields@ == t0.fields@.insert(
                        sk[0].val@,
                    ).insert(sk[0].val@ + sk.skip(1)[0].val@) && t1.vars == t0.vars,
                    _ => false,
                }))
            }),
        decreases old(self).stream().len(), 3int,
    {
        proof {
            lemma_vars_extended_refl(old(self).spec_tree());
        }
        let node = match self.term() {
            Ok(n) => n,
            Err(e) => {
                return Err(e);
            },
        };
        let n = match node {
            None => {
                return Ok(None);
            },
            Some(n) => n,
        };
        let next = match self.next_must("operand") {
            Ok(t) => t,
            Err(e) => {
                return Err(e);
            },
        };
        if next.typ != ItemType::ItemField {
            self.backup(next);
            return Ok(Some(n));
        }
        let typ = n.typ();
        match typ {
            NodeType::Bool | NodeType::String | NodeType::Number | NodeType::Nil
                | NodeType::Dot => {
                let d = n.render();
                let m = msg2("unexpected . after term ", d.as_str());
                return Err(self.error_msg(m.as_str()));
            },
            _ => {},
        }
        let mut chain = ChainNode::new(self.tree_id, next.pos, n);
        if next.val.unicode_len() >= 1 {
            chain.add(next.val.as_str());
        }
        loop
            invariant
                self.same_config(old(self)),
                self.same_outer(old(self)),
                self.stream().len() < old(self).stream().len(),
                vars_extended(old(self).spec_tree(), self.spec_tree()),
                ({
                    let sk = skip_spaces(old(self).stream());
                    old(self).spec_tree() is Some && sk.len() > 0 && sk[0].typ
                        == ItemType::ItemField && sk.skip(1).len() > 0 && sk.skip(
                        1,
                    )[0].typ == ItemType::ItemField && sk.skip(1)[0].val@.len() >= 1
                        && sk.skip(1)[0].val@[0] == '.' && sk.skip(2).len() > 0
                        && sk.skip(2)[0].typ != ItemType::ItemField ==> ({
                        &&& chain.field@.len() == 1
                        &&& chain.field@[0]@ == sk.skip(1)[0].val@.skip(1)
                        &&& (*chain.node matches Nodes::Field(f0) && f0.ident@
                            == sk[0].val@)
                        &&& self.stream() == sk.skip(2)
                        &&& match (old(self).spec_tree(), self.spec_tree()) {
                            (Some(t0), Some(t1)) => t1.fields@ == t0.fields@.insert(
                                sk[0].val@,
                            ) && t1.vars == t0.vars && t1.name == t0.name && t1.id
                                == t0.id && t1.root == t0.root,
                            _ => false,
                        }
                    })
                }),
            decreases self.stream().len(),
        {
            let more = match self.peek() {
                Some(p) => p.typ == ItemType::ItemField,
                None => false,
            };
            if !more {
                break;
            }
            match self.next() {
                Some(field) => {
                    if field.val.unicode_len() >= 1 {
                        chain.add(field.val.as_str());
                    }
                },
                None => {
                    break;
                },
            }
        }
        let cnode = Nodes::Chain(chain);
        let pos = cnode.pos();
        proof {
            let sk = skip_spaces(old(self).stream());
            if old(self).spec_tree() is Some && sk.len() > 0 && sk[0].typ
                == ItemType::ItemField && sk.skip(1).len() > 0 && sk.skip(1)[0].typ
                == ItemType::ItemField && sk.skip(1)[0].val@.len() >= 1 && sk.skip(
                1,
            )[0].val@[0] == '.' && sk.skip(2).len() > 0 && sk.skip(2)[0].typ
                != ItemType::ItemField {
                match &cnode {
                    Nodes::Chain(c) => {
                        let seg = c.field@[0]@;
                        assert(c.field@.drop_last() =~= Seq::<String>::empty());
                        assert(crate::node::fields_chars(c.field@)
                            == crate::node::fields_chars(Seq::<String>::empty()) + "."@
                            + seg);
                        assert(crate::node::fields_chars(Seq::<String>::empty())
                            + "."@ + seg =~= "."@ + seg);
                        assert("."@ =~= seq!['.']) by {
                            reveal_strlit(".");
                        }
                        assert(seq!['.'] + sk.skip(1)[0].val@.skip(1) =~= sk.skip(
                            1,
                        )[0].val@);
                        assert(crate::node::fields_chars(c.field@) =~= sk.skip(
                            1,
                        )[0].val@);
                        assert(!(*c.node is Pipe));
                        assert(crate::node::paren_chars(*c.node)
                            == crate::node::render_node(*c.node));
                        assert(crate::node::render_node(*c.node) =~= sk[0].val@);
                        assert(crate::node::render_node(cnode)
                            == crate::node::paren_chars(*c.node)
                            + crate::node::fields_chars(c.field@));
                        assert(crate::node::render_node(cnode) =~= sk[0].val@ + sk.skip(
                            1,
                        )[0].val@);
                    },
                    _ => {},
                }
            }
        }
        match typ {
            NodeType::Field => {
                let field = cnode.render();
                match self.add_field(field.as_str()) {
                    Ok(()) => {},
                    Err(e) => {
                        return Err(e);
                    },
                }
                proof {
                    lemma_vars_extended_trans(
                        old(self).spec_tree(),
                        old(self).spec_tree(),
                        self.spec_tree(),
                    );
                }
                Ok(Some(Nodes::Field(FieldNode::new(self.tree_id, pos, field.as_str()))))
            },
            NodeType::Variable => {
                let v = cnode.render();
                Ok(
                    Some(
                        Nodes::Variable(VariableNode::new(self.tree_id, pos, v.as_str())),
                    ),
                )
            },
            _ => Ok(Some(cnode)),
        }
    }

    /// One command: a non-empty, space-separated operand list, ended by a
    /// pipe, a closing delimiter or a closing parenthesis (the latter two
    /// are pushed back).
    pub fn command(&mut self) -> (r: Result<CommandNode, ParseError>)
        ensures
            final(self).same_config(old(self)),
            final(self).same_outer(old(self)),
            final(self).stream().len() <= old(self).stream().len(),
            r matches Ok(c) ==> final(self).stream().len() < old(self).stream().len()
                && c.args@.len() >= 1 && vars_extended(old(self).spec_tree(), final(self).spec_tree())
                && c.tree_id == old(self).spec_tree_id(),
            bad_head(skip_spaces(old(self).stream()), old(self).spec_funcs(), old(self).spec_tree())
                ==> (r matches Err(e) && msg_error(e, head_err_msg(skip_spaces(old(self).stream())))),
            ({
                let sk = skip_spaces(old(self).stream());
                sk.len() > 0 && simple_term_head(sk[0], old(self).spec_funcs())
                    && sk.skip(1).len() > 0 && (sk.skip(1)[0].typ == ItemType::ItemRightDelim
                    || sk.skip(1)[0].typ == ItemType::ItemRightParen) ==> (r matches Ok(c)
                    && c.args@.len() == 1 && term_node_for(sk[0], c.args@[0])
                    && final(self).stream() == sk.skip(1) && final(self).spec_tree()
                    == old(self).spec_tree())
            }),
            ({
                let sk = skip_spaces(old(self).stream());
                sk.len() > 0 && (sk[0].typ == ItemType::ItemRightDelim || sk[0].typ
                    == ItemType::ItemRightParen || sk[0].typ == ItemType::ItemPipe) ==> (
                r matches Err(e) && msg_error(e, "empty command"@))
            }),
            ({
                let sk = skip_spaces(old(self).stream());
                let d = skip_spaces(sk.skip(1));
                sk.len() > 0 && sk[0].typ == ItemType::ItemVariable && (sk[0].val@ == "$"@
                    || vars_contain(old(self).spec_tree(), sk[0].val@)) && d.len() > 0
                    && (d[0].typ == ItemType::ItemRightDelim || d[0].typ
                    == ItemType::ItemRightParen) ==> (r matches Ok(c) && c.args@.len()
                    == 1 && (c.args@[0] matches Nodes::Variable(v) && v.ident@
                    == sk[0].val@) && final(self).stream() == d && final(self).spec_tree()
                    == old(self).spec_tree())
            }),
        decreases old(self).stream().len(), 4int,
    {
        let start = match self.peek_non_space_must("command") {
            Ok(t) => t,
            Err(e) => {
                return Err(e);
            },
        };
        let mut cmd = CommandNode::new(self.tree_id, start.pos);
        proof {
            lemma_skip_spaces_fix(old(self).stream());
            lemma_vars_extended_refl(old(self).spec_tree());
        }
        loop
            invariant
                self.same_config(old(self)),
                self.same_outer(old(self)),
                self.stream().len() <= old(self).stream().len(),
                vars_extended(old(self).spec_tree(), self.spec_tree()),
                cmd.tree_id == old(self).spec_tree_id(),
                cmd.args@.len() > 0 ==> self.stream().len() < old(self).stream().len(),
                cmd.args@.len() == 0 ==> self.stream() == skip_spaces(old(self).stream())
                    && self.spec_tree() == old(self).spec_tree(),
                bad_head(
                    skip_spaces(old(self).stream()),
                    old(self).spec_funcs(),
                    old(self).spec_tree(),
                ) ==> cmd.args@.len() == 0,
                ({
                    let sk = skip_spaces(old(self).stream());
                    sk.len() > 0 && simple_term_head(sk[0], old(self).spec_funcs())
                        && sk.skip(1).len() > 0 && (sk.skip(1)[0].typ
                        == ItemType::ItemRightDelim || sk.skip(1)[0].typ
                        == ItemType::ItemRightParen) ==> cmd.args@.len() == 0
                }),
                ({
                    let sk = skip_spaces(old(self).stream());
                    sk.len() > 0 && (sk[0].typ == ItemType::ItemRightDelim || sk[0].typ
                        == ItemType::ItemRightParen || sk[0].typ == ItemType::ItemPipe)
                        ==> cmd.args@.len() == 0
                }),
                ({
                    let sk = skip_spaces(old(self).stream());
                    let d = skip_spaces(sk.skip(1));
                    sk.len() > 0 && sk[0].typ == ItemType::ItemVariable && (sk[0].val@
                        == "$"@ || vars_contain(old(self).spec_tree(), sk[0].val@))
                        && d.len() > 0 && (d[0].typ == ItemType::ItemRightDelim
                        || d[0].typ == ItemType::ItemRightParen) ==> ((cmd.args@.len()
                        == 0 && self.stream() == sk && self.spec_tree() == old(
                        self,
                    ).spec_tree()) || (cmd.args@.len() == 1 && (cmd.args@[0] matches
                    Nodes::Variable(v) && v.ident@ == sk[0].val@) && skip_spaces(
                        self.stream(),
                    ) == d && self.spec_tree() == old(self).spec_tree()))
                }),
            decreases self.stream().len(),
        {
            match self.peek_non_space_must("operand") {
                Ok(_) => {},
                Err(e) => {
                    return Err(e);
                },
            }
            let ghost pre = *self;
            proof {
                lemma_skip_spaces_fix(old(self).stream());
                if cmd.args@.len() == 0 {
                    assert(skip_spaces(pre.stream()) == skip_spaces(old(self).stream()));
                }
                lemma_vars_extended_refl(old(self).spec_tree());
            }
            match self.operand() {
                Ok(Some(op)) => {
                    cmd.append(op);
                    proof {
                        lemma_vars_extended_trans(
                            old(self).spec_tree(),
                            pre.spec_tree(),
                            self.spec_tree(),
                        );
                    }
                },
                Ok(None) => {},
                Err(e) => {
                    return Err(e);
                },
            }
            let token = match self.next_must("command") {
                Ok(t) => t,
                Err(e) => {
                    return Err(e);
                },
            };
            if token.typ == ItemType::ItemSpace {
                continue;
            }
            if token.typ == ItemType::ItemError {
                return Err(self.error_msg(token.val.as_str()));
            }
            if token.typ == ItemType::ItemRightDelim || token.typ
                == ItemType::ItemRightParen {
                self.backup(token);
            } else if token.typ == ItemType::ItemPipe {
            } else {
                let d = token.describe();
                return Err(self.unexpected(d.as_str(), "operand"));
            }
            if cmd.args.len() == 0 {
                return Err(self.error_msg("empty command"));
            }
            return Ok(cmd);
        }
    }

    /// Validates a finished pipeline: it must hold at least one command,
    /// and every stage after the first must be callable.
    pub fn check_pipeline(&mut self, pipe: &mut PipeNode, context: &str) -> (r: Result<
        (),
        ParseError,
    >)
        ensures
            *final(self) == *old(self),
            *final(pipe) == *old(pipe),
            r is Ok <==> (old(pipe).cmds@.len() > 0 && executable_cmds(old(pipe).cmds@)),
            old(pipe).cmds@.len() == 0 ==> (r matches Err(e) && msg_error(
                e,
                "missing value for "@ + context@,
            )),
            old(pipe).cmds@.len() > 0 && r is Err ==> (r matches Err(e) && exists|i: int|
                1 <= i < old(pipe).cmds@.len() && !cmd_executable(#[trigger] old(
                    pipe,
                ).cmds@[i]) && msg_error(
                    e,
                    "non executable command in pipeline stage "@ + crate::strutil::dec_chars(
                        (i + 1) as nat,
                    ),
                )),
    {
        if pipe.cmds.len() == 0 {
            let m = msg2("missing value for ", context);
            return Err(self.error_msg(m.as_str()));
        }
        let n = pipe.cmds.len();
        let mut i: usize = 1;
        while i < n
            invariant
                1 <= i <= n == pipe.cmds@.len(),
                forall|j: int| 1 <= j < i ==> cmd_executable(#[trigger] pipe.cmds@[j]),
                *pipe == *old(pipe),
                *self == *old(self),
            decreases n - i,
        {
            let c = &pipe.cmds[i];
            let mut bad = c.args.len() == 0;
            if !bad {
                let t = c.args[0].typ();
                match t {
                    NodeType::Bool | NodeType::Dot | NodeType::Nil | NodeType::Number
                        | NodeType::String => {
                        bad = true;
                    },
                    _ => {},
                }
            }
            if bad {
                proof {
                    assert(!cmd_executable(pipe.cmds@[i as int]));
                }
                let stage = usize_string(i + 1);
                let m = msg2("non executable command in pipeline stage ", stage.as_str());
                return Err(self.error_msg(m.as_str()));
            }
            i = i + 1;
        }
        Ok(())
    }

    /// One pipeline: an optional variable declaration (comma-separated
    /// pairs only inside `range`, never more than two names), then one or
    /// more pipe-separated commands, ending at a closing delimiter or a
    /// closing parenthesis.
    pub fn pipeline(&mut self, context: &str) -> (r: Result<PipeNode, ParseError>)
        ensures
            final(self).same_config(old(self)),
            final(self).same_outer(old(self)),
            final(self).stream().len() <= old(self).stream().len(),
            r matches Ok(p) ==> ({
                &&& final(self).stream().len() < old(self).stream().len()
                &&& vars_extended(old(self).spec_tree(), final(self).spec_tree())
                &&& p.cmds@.len() >= 1
                &&& executable_cmds(p.cmds@)
                &&& p.decl@.len() <= 2
                &&& (p.decl@.len() >= 2 ==> context@ == "range"@)
                &&& p.tree_id == old(self).spec_tree_id()
            }),
            ({
                let sk = skip_spaces(old(self).stream());
                sk.len() > 0 && simple_term_head(sk[0], old(self).spec_funcs())
                    && sk.skip(1).len() > 0 && sk.skip(1)[0].typ == ItemType::ItemRightDelim
                    ==> (r matches Ok(p) && p.decl@.len() == 0 && p.cmds@.len() == 1
                    && p.cmds@[0].args@.len() == 1 && term_node_for(
                    sk[0],
                    p.cmds@[0].args@[0],
                ) && final(self).stream() == sk.skip(2) && final(self).spec_tree()
                    == old(self).spec_tree())
            }),
            ({
                let sk = skip_spaces(old(self).stream());
                sk.len() > 0 && simple_term_head(sk[0], old(self).spec_funcs())
                    && sk.skip(1).len() > 0 && sk.skip(1)[0].typ == ItemType::ItemRightParen
                    ==> (r matches Ok(p) && p.decl@.len() == 0 && p.cmds@.len() == 1
                    && p.cmds@[0].args@.len() == 1 && term_node_for(
                    sk[0],
                    p.cmds@[0].args@[0],
                ) && final(self).stream() == sk.skip(1) && final(self).spec_tree()
                    == old(self).spec_tree())
            }),
            ({
                let sk = skip_spaces(old(self).stream());
                sk.len() > 0 && sk[0].typ == ItemType::ItemIdentifier && !old(
                    self,
                ).spec_funcs().contains(sk[0].val@) ==> (r matches Err(e) && msg_error(
                    e,
                    head_err_msg(sk),
                ))
            }),
            ({
                let sk = skip_spaces(old(self).stream());
                let ds1 = decl_sep_stream(sk.skip(1));
                sk.len() > 0 && sk[0].typ == ItemType::ItemVariable && (sk[0].val@ == "$"@
                    || vars_contain(old(self).spec_tree(), sk[0].val@)) && ds1.len() > 0
                    && ds1[0].typ == ItemType::ItemRightDelim ==> (r matches Ok(p) && ({
                    &&& p.decl@.len() == 0
                    &&& p.cmds@.len() == 1 && p.cmds@[0].args@.len() == 1
                    &&& (p.cmds@[0].args@[0] matches Nodes::Variable(v) && v.ident@
                        == sk[0].val@)
                    &&& final(self).stream() == ds1.skip(1)
                    &&& final(self).spec_tree() == old(self).spec_tree()
                }))
            }),
            ({
                let sk = skip_spaces(old(self).stream());
                old(self).spec_tree() is Some && decl1_tail(
                    old(self).stream(),
                    old(self).spec_funcs(),
                ) ==> (r matches Ok(p) && ({
                    &&& p.decl@.len() == 1 && p.decl@[0].ident@ == sk[0].val@
                    &&& p.cmds@.len() == 1 && p.cmds@[0].args@.len() == 1
                        && term_node_for(
                        decl1_cmd(old(self).stream()),
                        p.cmds@[0].args@[0],
                    )
                    &&& match (old(self).spec_tree(), final(self).spec_tree()) {
                        (Some(t0), Some(t1)) => t1.vars@ == t0.vars@.push(sk[0].val)
                            && t1.name == t0.name && t1.id == t0.id,
                        _ => false,
                    }
                    &&& final(self).stream() == decl1_rest(old(self).stream())
                }))
            }),
            ({
                let sk = skip_spaces(old(self).stream());
                old(self).spec_tree() is Some && context@ == "range"@ && decl2_tail(
                    old(self).stream(),
                    old(self).spec_funcs(),
                ) ==> (r matches Ok(p) && ({
                    let v2 = decl2_second(old(self).stream());
                    &&& p.decl@.len() == 2 && p.decl@[0].ident@ == sk[0].val@
                        && p.decl@[1].ident@ == v2.val@
                    &&& p.cmds@.len() == 1 && p.cmds@[0].args@.len() == 1
                        && term_node_for(
                        decl2_cmd(old(self).stream()),
                        p.cmds@[0].args@[0],
                    )
                    &&& match (old(self).spec_tree(), final(self).spec_tree()) {
                        (Some(t0), Some(t1)) => t1.vars@ == t0.vars@.push(sk[0].val).push(
                            v2.val,
                        ) && t1.name == t0.name && t1.id == t0.id,
                        _ => false,
                    }
                    &&& final(self).stream() == decl2_rest(old(self).stream())
                }))
            }),
            ({
                let sk = skip_spaces(old(self).stream());
                sk.len() > 0 && sk[0].typ == ItemType::ItemVariable && comma_head(
                    decl_sep_stream(sk.skip(1)),
                ) && old(self).spec_tree() is Some && context@ != "range"@ ==> (r matches
                Err(e) && msg_error(e, "too many declarations in "@ + context@))
            }),
            ({
                let sk = skip_spaces(old(self).stream());
                sk.len() > 0 && sk[0].typ == ItemType::ItemVariable && comma_head(
                    decl_sep_stream(sk.skip(1)),
                ) && old(self).spec_tree() is Some && context@ == "range"@ ==> ({
                    let s2 = skip_spaces(decl_sep_stream(sk.skip(1)).skip(1));
                    s2.len() > 0 && s2[0].typ == ItemType::ItemVariable && comma_head(
                        decl_sep_stream(s2.skip(1)),
                    ) ==> (r matches Err(e) && msg_error(
                        e,
                        "too many declarations in "@ + context@,
                    ))
                })
            }),
        decreases old(self).stream().len(), 5int,
    {
        proof {
            lemma_vars_extended_refl(old(self).spec_tree());
        }
        let mut decl: Vec<VariableNode> = Vec::new();
        let mut token = match self.next_non_space_must("pipeline") {
            Ok(t) => t,
            Err(e) => {
                return Err(e);
            },
        };
        let pos = token.pos;
        if token.typ == ItemType::ItemVariable {
            loop
                invariant_except_break
                    self.same_config(old(self)),
                    self.same_outer(old(self)),
                    self.stream().len() + 1 <= old(self).stream().len(),
                    vars_extended(old(self).spec_tree(), self.spec_tree()),
                    decl@.len() <= 1,
                    decl@.len() == 1 ==> context@ == "range"@,
                    skip_spaces(old(self).stream()).len() > 0 && skip_spaces(
                        old(self).stream(),
                    )[0].typ == ItemType::ItemVariable,
                    ({
                        let sk = skip_spaces(old(self).stream());
                        sk.len() > 0 && sk[0].typ == ItemType::ItemVariable && comma_head(
                            decl_sep_stream(sk.skip(1)),
                        ) && old(self).spec_tree() is Some && context@ != "range"@ ==> (
                        decl@.len() == 0 && token == sk[0] && self.stream() == sk.skip(1))
                    }),
                    ({
                        let sk = skip_spaces(old(self).stream());
                        sk.len() > 0 && sk[0].typ == ItemType::ItemVariable && comma_head(
                            decl_sep_stream(sk.skip(1)),
                        ) && old(self).spec_tree() is Some && context@ == "range"@ ==> ({
                            let s2 = skip_spaces(decl_sep_stream(sk.skip(1)).skip(1));
                            s2.len() > 0 && s2[0].typ == ItemType::ItemVariable
                                && comma_head(decl_sep_stream(s2.skip(1))) ==> ((decl@.len()
                                == 0 && token == sk[0] && self.stream() == sk.skip(1)) || (
                            decl@.len() == 1 && token == s2[0] && self.stream() == s2.skip(
                                1,
                            )))
                        })
                    }),
                    ({
                        let sk = skip_spaces(old(self).stream());
                        let ds1 = decl_sep_stream(sk.skip(1));
                        sk.len() > 0 && sk[0].typ == ItemType::ItemVariable && ds1.len()
                            > 0 && ds1[0].typ == ItemType::ItemRightDelim ==> (
                        decl@.len() == 0 && token == sk[0] && self.stream() == sk.skip(1)
                            && self.spec_tree() == old(self).spec_tree())
                    }),
                    ({
                        let sk = skip_spaces(old(self).stream());
                        old(self).spec_tree() is Some && decl1_tail(
                            old(self).stream(),
                            old(self).spec_funcs(),
                        ) ==> (decl@.len() == 0 && token == sk[0] && self.stream()
                            == sk.skip(1) && self.spec_tree() == old(self).spec_tree())
                    }),
                    ({
                        let sk = skip_spaces(old(self).stream());
                        old(self).spec_tree() is Some && context@ == "range"@
                            && decl2_tail(old(self).stream(), old(self).spec_funcs())
                            ==> ((decl@.len() == 0 && token == sk[0] && self.stream()
                            == sk.skip(1) && self.spec_tree() == old(self).spec_tree())
                            || (decl@.len() == 1 && decl@[0].ident@ == sk[0].val@
                            && token == decl2_second(old(self).stream()) && self.stream()
                            == decl2_second_rest(old(self).stream()) && (match (
                            old(self).spec_tree(),
                            self.spec_tree(),
                        ) {
                            (Some(t0), Some(t1)) => t1.vars@ == t0.vars@.push(sk[0].val)
                                && t1.name == t0.name && t1.id == t0.id,
                            _ => false,
                        })))
                    }),
                ensures
                    self.same_config(old(self)),
                    self.same_outer(old(self)),
                    self.stream().len() <= old(self).stream().len(),
                    vars_extended(old(self).spec_tree(), self.spec_tree()),
                    decl@.len() <= 2,
                    decl@.len() >= 2 ==> context@ == "range"@,
                    skip_spaces(old(self).stream()).len() > 0 && skip_spaces(
                        old(self).stream(),
                    )[0].typ == ItemType::ItemVariable,
                    !({
                        let sk = skip_spaces(old(self).stream());
                        sk[0].typ == ItemType::ItemVariable && comma_head(
                            decl_sep_stream(sk.skip(1)),
                        ) && old(self).spec_tree() is Some && (context@ != "range"@ || ({
                            let s2 = skip_spaces(decl_sep_stream(sk.skip(1)).skip(1));
                            s2.len() > 0 && s2[0].typ == ItemType::ItemVariable
                                && comma_head(decl_sep_stream(s2.skip(1)))
                        }))
                    }),
                    ({
                        let sk = skip_spaces(old(self).stream());
                        let ds1 = decl_sep_stream(sk.skip(1));
                        sk.len() > 0 && sk[0].typ == ItemType::ItemVariable && ds1.len()
                            > 0 && ds1[0].typ == ItemType::ItemRightDelim ==> (
                        decl@.len() == 0 && self.spec_tree() == old(self).spec_tree()
                            && self.stream().len() > 0 && self.stream()[0] == sk[0]
                            && skip_spaces(self.stream().skip(1)) == ds1)
                    }),
                    ({
                        let sk = skip_spaces(old(self).stream());
                        old(self).spec_tree() is Some && decl1_tail(
                            old(self).stream(),
                            old(self).spec_funcs(),
                        ) ==> (decl@.len() == 1 && decl@[0].ident@ == sk[0].val@
                            && self.stream() == decl_sep_stream(sk.skip(1)).skip(1)
                            && (match (old(self).spec_tree(), self.spec_tree()) {
                            (Some(t0), Some(t1)) => t1.vars@ == t0.vars@.push(sk[0].val)
                                && t1.name == t0.name && t1.id == t0.id,
                            _ => false,
                        }))
                    }),
                    ({
                        let sk = skip_spaces(old(self).stream());
                        old(self).spec_tree() is Some && context@ == "range"@
                            && decl2_tail(old(self).stream(), old(self).spec_funcs())
                            ==> (decl@.len() == 2 && decl@[0].ident@ == sk[0].val@
                            && decl@[1].ident@ == decl2_second(old(self).stream()).val@
                            && self.stream() == decl_sep_stream(
                            decl2_second_rest(old(self).stream()),
                        ).skip(1) && (match (old(self).spec_tree(), self.spec_tree()) {
                            (Some(t0), Some(t1)) => t1.vars@ == t0.vars@.push(
                                sk[0].val,
                            ).push(decl2_second(old(self).stream()).val) && t1.name
                                == t0.name && t1.id == t0.id,
                            _ => false,
                        }))
                    }),
                decreases self.stream().len(),
            {
                let ghost pre = *self;
                let token_after_var = match self.next_must("variable") {
                    Ok(t) => t,
                    Err(e) => {
                        return Err(e);
                    },
                };
                let next = if token_after_var.typ == ItemType::ItemSpace {
                    let nx = match self.next_non_space_must("variable") {
                        Ok(t) => t,
                        Err(e) => {
                            return Err(e);
                        },
                    };
                    if !(nx.typ == ItemType::ItemColonEquals || (nx.typ
                        == ItemType::ItemChar && str_eq(nx.val.as_str(), ","))) {
                        proof {
                            let sk = skip_spaces(old(self).stream());
                            let ds1 = decl_sep_stream(sk.skip(1));
                            if decl@.len() == 0 && token == sk[0] && pre.stream()
                                == sk.skip(1) && ds1.len() > 0 {
                                assert(nx == ds1[0]);
                                assert(skip_spaces(pre.stream()) == skip_spaces(
                                    sk.skip(1),
                                ));
                            }
                            if context@ == "range"@ && comma_head(ds1) {
                                let s2 = skip_spaces(ds1.skip(1));
                                let ds2 = decl_sep_stream(s2.skip(1));
                                if decl@.len() == 1 && token == s2[0] && pre.stream()
                                    == s2.skip(1) && (comma_head(ds2) || (ds2.len() > 0
                                    && ds2[0].typ == ItemType::ItemColonEquals)) {
                                    assert(nx == ds2[0]);
                                }
                            }
                        }
                        self.backup3(token, token_after_var, nx);
                        proof {
                            let sk = skip_spaces(old(self).stream());
                            let ds1 = decl_sep_stream(sk.skip(1));
                            if decl@.len() == 0 && token == sk[0] && pre.stream()
                                == sk.skip(1) && ds1.len() > 0 && ds1[0].typ
                                == ItemType::ItemRightDelim {
                                assert(pre.stream().skip(1) =~= sk.skip(1).skip(1));
                                assert(ds1 == skip_spaces(sk.skip(1).skip(1)));
                                assert(seq![nx] + ds1.skip(1) =~= ds1);
                                assert(self.stream().skip(1) =~= seq![token_after_var]
                                    + ds1);
                                assert((seq![token_after_var] + ds1).skip(1) =~= ds1);
                                assert(skip_spaces(ds1) == ds1);
                                assert(skip_spaces(self.stream().skip(1)) == ds1);
                            }
                        }
                        break;
                    }
                    nx
                } else {
                    token_after_var
                };
                proof {
                    let sk = skip_spaces(old(self).stream());
                    let st1 = decl@.len() == 0 && token == sk[0] && pre.stream()
                        == sk.skip(1);
                    let ds1 = decl_sep_stream(sk.skip(1));
                    if st1 && (comma_head(ds1) || (ds1.len() > 0 && ds1[0].typ
                        == ItemType::ItemColonEquals)) {
                        assert(next == ds1[0]);
                        assert(self.stream() == ds1.skip(1));
                    }
                    if context@ == "range"@ && comma_head(ds1) {
                        let s2 = skip_spaces(ds1.skip(1));
                        let ds2 = decl_sep_stream(s2.skip(1));
                        let st2 = decl@.len() == 1 && token == s2[0] && pre.stream()
                            == s2.skip(1);
                        if st2 && (comma_head(ds2) || (ds2.len() > 0 && ds2[0].typ
                            == ItemType::ItemColonEquals)) {
                            assert(next == ds2[0]);
                            assert(self.stream() == ds2.skip(1));
                        }
                    }
                }
                if next.typ == ItemType::ItemColonEquals || (next.typ
                    == ItemType::ItemChar && str_eq(next.val.as_str(), ",")) {
                    let variable = VariableNode::new(
                        self.tree_id,
                        token.pos,
                        token.val.as_str(),
                    );
                    let ghost before_add = *self;
                    match self.add_var(token.val.clone()) {
                        Ok(()) => {},
                        Err(e) => {
                            return Err(e);
                        },
                    }
                    proof {
                        match before_add.spec_tree() {
                            Some(t0) => {
                                assert(self.spec_tree().unwrap().vars@.take(
                                    t0.vars@.len() as int,
                                ) =~= t0.vars@);
                            },
                            None => {},
                        }
                        lemma_vars_extended_trans(
                            old(self).spec_tree(),
                            before_add.spec_tree(),
                            self.spec_tree(),
                        );
                    }
                    decl.push(variable);
                    if next.typ == ItemType::ItemChar {
                        if str_eq(context, "range") && decl.len() < 2 {
                            token = match self.next_non_space_must("variable") {
                                Ok(t) => t,
                                Err(e) => {
                                    return Err(e);
                                },
                            };
                            continue;
                        }
                        let m = msg2("too many declarations in ", context);
                        return Err(self.error_msg(m.as_str()));
                    }
                } else {
                    self.backup2(token, next);
                    proof {
                        let sk = skip_spaces(old(self).stream());
                        let ds1 = decl_sep_stream(sk.skip(1));
                        if decl@.len() == 0 && token == sk[0] && pre.stream()
                            == sk.skip(1) && ds1.len() > 0 && ds1[0].typ
                            == ItemType::ItemRightDelim {
                            assert(seq![next] + ds1.skip(1) =~= ds1);
                            assert(self.stream().skip(1) =~= ds1);
                        }
                    }
                }
                break;
            }
        } else {
            self.backup(token);
        }
        let ghost dsnap = decl@;
        let ghost tsnap = self.spec_tree();
        let ghost cstart = self.stream();
        let mut pipe = PipeNode::new(self.tree_id, pos, decl);
        proof {
            lemma_skip_spaces_fix(old(self).stream());
            lemma_skip_spaces_fix(cstart);
        }
        let mut token = match self.next_non_space_must("pipeline") {
            Ok(t) => t,
            Err(e) => {
                return Err(e);
            },
        };
        loop
            invariant
                self.same_config(old(self)),
                self.same_outer(old(self)),
                self.stream().len() < old(self).stream().len(),
                vars_extended(old(self).spec_tree(), self.spec_tree()),
                pipe.decl@.len() <= 2,
                pipe.decl@.len() >= 2 ==> context@ == "range"@,
                pipe.tree_id == old(self).spec_tree_id(),
                pipe.cmds@.len() >= 1 ==> self.stream().len() + 2 <= old(self).stream().len(),
                pipe.decl@ == dsnap,
                ({
                    let ck = skip_spaces(cstart);
                    ck.len() > 0 && simple_term_head(ck[0], old(self).spec_funcs())
                        && ck.skip(1).len() > 0 && (ck.skip(1)[0].typ
                        == ItemType::ItemRightDelim || ck.skip(1)[0].typ
                        == ItemType::ItemRightParen) ==> ((pipe.cmds@.len() == 0
                        && token == ck[0] && self.stream() == ck.skip(1)
                        && self.spec_tree() == tsnap) || (pipe.cmds@.len() == 1
                        && pipe.cmds@[0].args@.len() == 1 && term_node_for(
                        ck[0],
                        pipe.cmds@[0].args@[0],
                    ) && token == ck.skip(1)[0] && self.stream() == ck.skip(2)
                        && self.spec_tree() == tsnap))
                }),
                ({
                    let sk = skip_spaces(old(self).stream());
                    sk.len() > 0 && simple_term_head(sk[0], old(self).spec_funcs())
                        && sk.skip(1).len() > 0 && (sk.skip(1)[0].typ
                        == ItemType::ItemRightDelim || sk.skip(1)[0].typ
                        == ItemType::ItemRightParen) ==> (cstart == sk && skip_spaces(
                        cstart,
                    ) == sk && dsnap.len() == 0 && tsnap == old(self).spec_tree())
                }),
                ({
                    let ck = skip_spaces(cstart);
                    let dv = skip_spaces(ck.skip(1));
                    ck.len() > 0 && ck[0].typ == ItemType::ItemVariable && (ck[0].val@
                        == "$"@ || vars_contain(tsnap, ck[0].val@)) && dv.len() > 0
                        && dv[0].typ == ItemType::ItemRightDelim ==> ((pipe.cmds@.len()
                        == 0 && token == ck[0] && self.stream() == ck.skip(1)
                        && self.spec_tree() == tsnap) || (pipe.cmds@.len() == 1
                        && pipe.cmds@[0].args@.len() == 1 && (pipe.cmds@[0].args@[0]
                    matches Nodes::Variable(v) && v.ident@ == ck[0].val@) && token
                        == dv[0] && self.stream() == dv.skip(1) && self.spec_tree()
                        == tsnap))
                }),
                ({
                    let sk = skip_spaces(old(self).stream());
                    let ds1 = decl_sep_stream(sk.skip(1));
                    sk.len() > 0 && sk[0].typ == ItemType::ItemVariable && (sk[0].val@
                        == "$"@ || vars_contain(old(self).spec_tree(), sk[0].val@))
                        && ds1.len() > 0 && ds1[0].typ == ItemType::ItemRightDelim ==> (
                    cstart.len() > 0 && cstart[0] == sk[0] && skip_spaces(cstart)
                        == cstart && skip_spaces(cstart.skip(1)) == ds1 && dsnap.len()
                        == 0 && tsnap == old(self).spec_tree())
                }),
                ({
                    let sk = skip_spaces(old(self).stream());
                    old(self).spec_tree() is Some && decl1_tail(
                        old(self).stream(),
                        old(self).spec_funcs(),
                    ) ==> (cstart == decl_sep_stream(sk.skip(1)).skip(1) && dsnap.len()
                        == 1 && dsnap[0].ident@ == sk[0].val@ && (match (
                        old(self).spec_tree(),
                        tsnap,
                    ) {
                        (Some(t0), Some(t1)) => t1.vars@ == t0.vars@.push(sk[0].val)
                            && t1.name == t0.name && t1.id == t0.id,
                        _ => false,
                    }))
                }),
                ({
                    let sk = skip_spaces(old(self).stream());
                    old(self).spec_tree() is Some && context@ == "range"@ && decl2_tail(
                        old(self).stream(),
                        old(self).spec_funcs(),
                    ) ==> (cstart == decl_sep_stream(
                        decl2_second_rest(old(self).stream()),
                    ).skip(1) && dsnap.len() == 2 && dsnap[0].ident@ == sk[0].val@
                        && dsnap[1].ident@ == decl2_second(old(self).stream()).val@
                        && (match (old(self).spec_tree(), tsnap) {
                        (Some(t0), Some(t1)) => t1.vars@ == t0.vars@.push(
                            sk[0].val,
                        ).push(decl2_second(old(self).stream()).val) && t1.name
                            == t0.name && t1.id == t0.id,
                        _ => false,
                    }))
                }),
                ({
                    let sk = skip_spaces(old(self).stream());
                    sk.len() > 0 && sk[0].typ == ItemType::ItemIdentifier && !old(
                        self,
                    ).spec_funcs().contains(sk[0].val@) ==> (pipe.cmds@.len() == 0
                        && token == sk[0] && self.stream() == sk.skip(1)
                        && self.spec_tree() == old(self).spec_tree())
                }),
                ({
                    let sk = skip_spaces(old(self).stream());
                    !(sk.len() > 0 && sk[0].typ == ItemType::ItemVariable && comma_head(
                        decl_sep_stream(sk.skip(1)),
                    ) && old(self).spec_tree() is Some && (context@ != "range"@ || ({
                        let s2 = skip_spaces(decl_sep_stream(sk.skip(1)).skip(1));
                        s2.len() > 0 && s2[0].typ == ItemType::ItemVariable && comma_head(
                            decl_sep_stream(s2.skip(1)),
                        )
                    })))
                }),
            decreases self.stream().len(),
        {
            if token.typ == ItemType::ItemRightDelim || token.typ
                == ItemType::ItemRightParen {
                match self.check_pipeline(&mut pipe, context) {
                    Ok(()) => {},
                    Err(e) => {
                        return Err(e);
                    },
                }
                if token.typ == ItemType::ItemRightParen {
                    self.backup(token);
                }
                return Ok(pipe);
            }
            let is_operand_start = match token.typ {
                ItemType::ItemBool | ItemType::ItemCharConstant | ItemType::ItemDot
                    | ItemType::ItemField | ItemType::ItemIdentifier
                    | ItemType::ItemNumber | ItemType::ItemNil
                    | ItemType::ItemRawString | ItemType::ItemString
                    | ItemType::ItemVariable | ItemType::ItemLeftParen => true,
                _ => false,
            };
            if !is_operand_start {
                let d = token.describe();
                return Err(self.unexpected(d.as_str(), context));
            }
            self.backup(token);
            proof {
                lemma_skip_spaces_fix(old(self).stream());
                lemma_skip_spaces_fix(cstart);
                let ck = skip_spaces(cstart);
                if ck.len() > 0 && token == ck[0] {
                    assert(seq![token] + ck.skip(1) =~= ck);
                }
                if ck.len() >= 2 {
                    assert(ck.skip(1).skip(1) =~= ck.skip(2));
                }
                let sk = skip_spaces(old(self).stream());
                if sk.len() > 0 && token == sk[0] {
                    assert(seq![token] + sk.skip(1) =~= sk);
                }
            }
            let ghost pre = *self;
            let c = match self.command() {
                Ok(c) => c,
                Err(e) => {
                    return Err(e);
                },
            };
            pipe.append(c);
            proof {
                lemma_vars_extended_trans(
                    old(self).spec_tree(),
                    pre.spec_tree(),
                    self.spec_tree(),
                );
            }
            token = match self.next_non_space_must("pipeline") {
                Ok(t) => t,
                Err(e) => {
                    return Err(e);
                },
            };
            proof {
                let ck = skip_spaces(cstart);
                if ck.len() > 0 && simple_term_head(ck[0], old(self).spec_funcs())
                    && ck.skip(1).len() > 0 && (ck.skip(1)[0].typ
                    == ItemType::ItemRightDelim || ck.skip(1)[0].typ
                    == ItemType::ItemRightParen) {
                    assert(skip_spaces(ck.skip(1)) == ck.skip(1));
                    assert(token == ck.skip(1)[0]);
                    assert(self.stream() == ck.skip(2));
                    assert(pipe.cmds@.len() == 1);
                    assert(pipe.cmds@[0].args@.len() == 1);
                    assert(term_node_for(ck[0], pipe.cmds@[0].args@[0]));
                    assert(self.spec_tree() == tsnap);
                }
            }
        }
    }

    /// The suspended-tree stack is as it was.
    pub open spec fn same_stack(&self, o: &Parser) -> bool {
        self.spec_tree_stack() == o.spec_tree_stack()
    }

    /// One text-or-action unit: a text token becomes a text node, an
    /// opening delimiter dispatches into action parsing, anything else is
    /// rejected.
    pub fn text_or_action(&mut self) -> (r: Result<Nodes, ParseError>)
        ensures
            final(self).same_config(old(self)),
            final(self).stream().len() <= old(self).stream().len(),
            r is Ok ==> final(self).stream().len() < old(self).stream().len(),
            r is Ok && old(self).spec_tree() is Some ==> vars_extended(
                old(self).spec_tree(),
                final(self).spec_tree(),
            ) && final(self).same_stack(old(self)),
            ({
                let sk = skip_spaces(old(self).stream());
                sk.len() > 0 && sk[0].typ == ItemType::ItemText ==> (r matches Ok(n)
                    && n matches Nodes::Text(tx) && tx.text@ == sk[0].val@ && tx.pos
                    == sk[0].pos && tx.tree_id == old(self).spec_tree_id()
                    && final(self).stream() == sk.skip(1)
                    && final(self).same_trees(old(self)))
            }),
            ({
                let sk = skip_spaces(old(self).stream());
                sk.len() > 0 && sk[0].typ == ItemType::ItemLeftDelim
                    && simple_action_tail(sk.skip(1), old(self).spec_funcs()) ==> (r
                matches Ok(n) && simple_action_node(simple_action_op(sk.skip(1)), n)
                    && final(self).stream() == simple_action_rest(sk.skip(1))
                    && final(self).same_trees(old(self)))
            }),
            ({
                let sk = skip_spaces(old(self).stream());
                sk.len() > 0 && sk[0].typ == ItemType::ItemLeftDelim && marker_tail(
                    sk.skip(1),
                    ItemType::ItemEnd,
                ) ==> (r matches Ok(n) && n is End && final(self).stream() == marker_rest(
                    sk.skip(1),
                ) && final(self).same_trees(old(self)))
            }),
            ({
                let sk = skip_spaces(old(self).stream());
                sk.len() > 0 && sk[0].typ == ItemType::ItemLeftDelim && marker_tail(
                    sk.skip(1),
                    ItemType::ItemElse,
                ) ==> (r matches Ok(n) && n is Else && final(self).stream()
                    == marker_rest(sk.skip(1)) && final(self).same_trees(old(self)))
            }),
            ({
                let sk = skip_spaces(old(self).stream());
                let a = skip_spaces(sk.skip(1));
                sk.len() > 0 && sk[0].typ == ItemType::ItemLeftDelim && a.len() > 0
                    && a[0].typ == ItemType::ItemIdentifier && !old(
                    self,
                ).spec_funcs().contains(a[0].val@) ==> (r matches Err(e) && msg_error(
                    e,
                    head_err_msg(a),
                ))
            }),
            ({
                let sk = skip_spaces(old(self).stream());
                sk.len() > 0 && sk[0].typ != ItemType::ItemText && sk[0].typ
                    != ItemType::ItemLeftDelim ==> r is Err
            }),
        decreases old(self).stream().len(), 9int,
    {
        proof {
            lemma_vars_extended_refl(old(self).spec_tree());
            lemma_skip_spaces_fix(old(self).stream());
        }
        match self.next_non_space() {
            Some(item) => {
                if item.typ == ItemType::ItemText {
                    Ok(Nodes::Text(TextNode::new(self.tree_id, item.pos, item.val)))
                } else if item.typ == ItemType::ItemLeftDelim {
                    self.action()
                } else {
                    let d = item.describe();
                    Err(self.unexpected(d.as_str(), "input"))
                }
            },
            None => self.error("unexpected end of input"),
        }
    }

    /// One action: a control keyword dispatches to its construct, and
    /// anything else is a plain pipeline action.
    pub fn action(&mut self) -> (r: Result<Nodes, ParseError>)
        ensures
            final(self).same_config(old(self)),
            final(self).stream().len() <= old(self).stream().len(),
            r is Ok ==> final(self).stream().len() < old(self).stream().len(),
            r is Ok && old(self).spec_tree() is Some ==> vars_extended(
                old(self).spec_tree(),
                final(self).spec_tree(),
            ) && final(self).same_stack(old(self)),
            simple_action_tail(old(self).stream(), old(self).spec_funcs()) ==> (r matches
            Ok(n) && simple_action_node(simple_action_op(old(self).stream()), n)
                && final(self).stream() == simple_action_rest(old(self).stream())
                && final(self).same_trees(old(self))),
            marker_tail(old(self).stream(), ItemType::ItemEnd) ==> (r matches Ok(n)
                && n is End && final(self).stream() == marker_rest(old(self).stream())
                && final(self).same_trees(old(self))),
            marker_tail(old(self).stream(), ItemType::ItemElse) ==> (r matches Ok(n)
                && n is Else && final(self).stream() == marker_rest(old(self).stream())
                && final(self).same_trees(old(self))),
            ({
                let sk = skip_spaces(old(self).stream());
                sk.len() > 0 && sk[0].typ == ItemType::ItemIdentifier && !old(
                    self,
                ).spec_funcs().contains(sk[0].val@) ==> (r matches Err(e) && msg_error(
                    e,
                    head_err_msg(sk),
                ))
            }),
        decreases old(self).stream().len(), 8int,
    {
        proof {
            lemma_vars_extended_refl(old(self).spec_tree());
            lemma_skip_spaces_fix(old(self).stream());
        }
        let token = match self.next_non_space_must("action") {
            Ok(t) => t,
            Err(e) => {
                return Err(e);
            },
        };
        if token.typ == ItemType::ItemBlock {
            return self.block_control();
        }
        if token.typ == ItemType::ItemElse {
            return self.else_control();
        }
        if token.typ == ItemType::ItemEnd {
            return self.end_control();
        }
        if token.typ == ItemType::ItemIf {
            let r = self.if_control();
            proof {
                lemma_vars_eq_extended(old(self).spec_tree(), self.spec_tree());
            }
            return r;
        }
        if token.typ == ItemType::ItemRange {
            let r = self.range_control();
            proof {
                lemma_vars_eq_extended(old(self).spec_tree(), self.spec_tree());
            }
            return r;
        }
        if token.typ == ItemType::ItemTemplate {
            return self.template_control();
        }
        if token.typ == ItemType::ItemWith {
            let r = self.with_control();
            proof {
                lemma_vars_eq_extended(old(self).spec_tree(), self.spec_tree());
            }
            return r;
        }
        let pos = token.pos;
        self.backup(token);
        let pipe = match self.pipeline("command") {
            Ok(p) => p,
            Err(e) => {
                return Err(e);
            },
        };
        Ok(Nodes::Action(ActionNode::new(self.tree_id, pos, pipe)))
    }

    /// The shared body parser: text and action nodes accumulate into a
    /// list until an end or else marker (returned to the caller) or a
    /// hard end-of-input fault.
    pub fn item_list(&mut self) -> (r: Result<(ListNode, Nodes), ParseError>)
        ensures
            final(self).same_config(old(self)),
            final(self).stream().len() <= old(self).stream().len(),
            r matches Ok(p) ==> final(self).stream().len() < old(self).stream().len()
                && (p.1 is End || p.1 is Else),
            r is Ok && old(self).spec_tree() is Some ==> vars_extended(
                old(self).spec_tree(),
                final(self).spec_tree(),
            ) && final(self).same_stack(old(self)),
            text_then_end(old(self).stream()) ==> (r matches Ok(p) && ({
                &&& p.0.nodes@.len() == 1
                &&& (p.0.nodes@[0] matches Nodes::Text(tx) && tx.text@ == tte_text(
                    old(self).stream(),
                ).val@)
                &&& p.1 is End
                &&& final(self).stream() == tte_rest(old(self).stream())
                &&& final(self).same_trees(old(self))
            })),
            text_then_else(old(self).stream()) ==> (r matches Ok(p) && ({
                &&& p.0.nodes@.len() == 1
                &&& (p.0.nodes@[0] matches Nodes::Text(tx) && tx.text@ == tte_text(
                    old(self).stream(),
                ).val@)
                &&& p.1 is Else
                &&& final(self).stream() == tte_rest(old(self).stream())
                &&& final(self).same_trees(old(self))
            })),
            ({
                let sk = skip_spaces(old(self).stream());
                sk.len() > 0 && sk[0].typ != ItemType::ItemText && sk[0].typ
                    != ItemType::ItemLeftDelim ==> r is Err
            }),
        decreases old(self).stream().len(), 10int,
    {
        proof {
            lemma_vars_extended_refl(old(self).spec_tree());
            lemma_skip_spaces_fix(old(self).stream());
        }
        let start = match self.peek_non_space_must("item list") {
            Ok(t) => t,
            Err(e) => {
                return Err(e);
            },
        };
        let mut list = ListNode::new(self.tree_id, start.pos);
        loop
            invariant
                self.same_config(old(self)),
                self.stream().len() <= old(self).stream().len(),
                old(self).spec_tree() is Some ==> self.same_stack(old(self))
                    && vars_extended(old(self).spec_tree(), self.spec_tree()),
                text_then_end(old(self).stream()) ==> (self.same_trees(old(self)) && ({
                    let sk = skip_spaces(old(self).stream());
                    ||| (list.nodes@.len() == 0 && self.stream() == sk)
                    ||| (list.nodes@.len() == 1 && (list.nodes@[0] matches Nodes::Text(
                        tx,
                    ) && tx.text@ == sk[0].val@) && self.stream() == sk.skip(1))
                })),
                text_then_else(old(self).stream()) ==> (self.same_trees(old(self)) && ({
                    let sk = skip_spaces(old(self).stream());
                    ||| (list.nodes@.len() == 0 && self.stream() == sk)
                    ||| (list.nodes@.len() == 1 && (list.nodes@[0] matches Nodes::Text(
                        tx,
                    ) && tx.text@ == sk[0].val@) && self.stream() == sk.skip(1))
                })),
                ({
                    let sk = skip_spaces(old(self).stream());
                    sk.len() > 0 && sk[0].typ != ItemType::ItemText && sk[0].typ
                        != ItemType::ItemLeftDelim ==> self.stream() == sk
                }),
            decreases self.stream().len(),
        {
            let pk = match self.peek_non_space_must("item list") {
                Ok(t) => t,
                Err(e) => {
                    return Err(e);
                },
            };
            if pk.typ == ItemType::ItemEOF {
                return self.error("unexpected EOF");
            }
            proof {
                lemma_skip_spaces_fix(old(self).stream());
            }
            let ghost pre = *self;
            let node = match self.text_or_action() {
                Ok(n) => n,
                Err(e) => {
                    return Err(e);
                },
            };
            proof {
                if old(self).spec_tree() is Some {
                    lemma_vars_extended_trans(
                        old(self).spec_tree(),
                        pre.spec_tree(),
                        self.spec_tree(),
                    );
                }
            }
            let nt = node.typ();
            if nt == NodeType::End || nt == NodeType::Else {
                return Ok((list, node));
            }
            list.append(node);
        }
    }

    /// The shared routine behind if, range and with: a pipeline, a body,
    /// an optional else body (an `else if` chain only where allowed), and
    /// on exit the variable scope opened by the pipeline is closed again.
    pub fn parse_control(&mut self, allow_else_if: bool, context: &str) -> (r: Result<
        (Pos, PipeNode, ListNode, Option<ListNode>),
        ParseError,
    >)
        ensures
            final(self).same_config(old(self)),
            final(self).stream().len() <= old(self).stream().len(),
            old(self).spec_tree() is None ==> (r matches Err(e) && e is NoTree),
            r is Ok ==> final(self).stream().len() < old(self).stream().len() && final(self).same_stack(old(self)) && ({
                &&& old(self).spec_tree() matches Some(t0)
                &&& final(self).spec_tree() matches Some(t1) && t1.name == t0.name
                    && t1.id == t0.id && t1.vars@ == t0.vars@
            }),
            ({
                let sk = skip_spaces(old(self).stream());
                old(self).spec_tree() is Some && sk.len() > 0 && simple_term_head(
                    sk[0],
                    old(self).spec_funcs(),
                ) && sk.skip(1).len() > 0 && sk.skip(1)[0].typ == ItemType::ItemRightDelim
                    && text_then_end(sk.skip(2)) ==> (r matches Ok(q) && ({
                    &&& q.1.decl@.len() == 0 && q.1.cmds@.len() == 1
                        && q.1.cmds@[0].args@.len() == 1 && term_node_for(
                        sk[0],
                        q.1.cmds@[0].args@[0],
                    )
                    &&& q.2.nodes@.len() == 1 && (q.2.nodes@[0] matches Nodes::Text(tx)
                        && tx.text@ == tte_text(sk.skip(2)).val@)
                    &&& q.3 is None
                    &&& final(self).stream() == tte_rest(sk.skip(2))
                }))
            }),
            ({
                let sk = skip_spaces(old(self).stream());
                old(self).spec_tree() is Some && decl1_tail(
                    old(self).stream(),
                    old(self).spec_funcs(),
                ) && text_then_end(decl1_rest(old(self).stream())) ==> (r matches Ok(q)
                    && ({
                    &&& q.1.decl@.len() == 1 && q.1.decl@[0].ident@ == sk[0].val@
                    &&& q.1.cmds@.len() == 1 && q.1.cmds@[0].args@.len() == 1
                        && term_node_for(
                        decl1_cmd(old(self).stream()),
                        q.1.cmds@[0].args@[0],
                    )
                    &&& q.2.nodes@.len() == 1 && (q.2.nodes@[0] matches Nodes::Text(tx)
                        && tx.text@ == tte_text(decl1_rest(old(self).stream())).val@)
                    &&& q.3 is None
                    &&& final(self).stream() == tte_rest(decl1_rest(old(self).stream()))
                }))
            }),
            ({
                let sk = skip_spaces(old(self).stream());
                let body = sk.skip(2);
                let after_else = skip_spaces(tte_rest(body));
                !allow_else_if && old(self).spec_tree() is Some && sk.len() > 0
                    && simple_term_head(sk[0], old(self).spec_funcs()) && sk.skip(
                    1,
                ).len() > 0 && sk.skip(1)[0].typ == ItemType::ItemRightDelim
                    && text_then_else(body) && after_else.len() > 0 && after_else[0].typ
                    == ItemType::ItemIf ==> r is Err
            }),
            ({
                let sk = skip_spaces(old(self).stream());
                let body = sk.skip(2);
                let ebody = tte_rest(body);
                old(self).spec_tree() is Some && sk.len() > 0 && simple_term_head(
                    sk[0],
                    old(self).spec_funcs(),
                ) && sk.skip(1).len() > 0 && sk.skip(1)[0].typ == ItemType::ItemRightDelim
                    && text_then_else(body) && text_then_end(ebody) ==> (r matches Ok(q)
                    && ({
                    &&& q.1.decl@.len() == 0 && q.1.cmds@.len() == 1
                        && q.1.cmds@[0].args@.len() == 1 && term_node_for(
                        sk[0],
                        q.1.cmds@[0].args@[0],
                    )
                    &&& q.2.nodes@.len() == 1 && (q.2.nodes@[0] matches Nodes::Text(tx)
                        && tx.text@ == tte_text(body).val@)
                    &&& (q.3 matches Some(el) && el.nodes@.len() == 1 && (el.nodes@[0]
                    matches Nodes::Text(ex) && ex.text@ == tte_text(ebody).val@))
                    &&& final(self).stream() == tte_rest(ebody)
                }))
            }),
        decreases old(self).stream().len(), 6int,
    {
        let vars_len = match self.tree.as_ref() {
            Some(t) => t.vars.len(),
            None => {
                return Err(ParseError::NoTree);
            },
        };
        let pipe = match self.pipeline(context) {
            Ok(p) => p,
            Err(e) => {
                return Err(e);
            },
        };
        let ghost after_pipe = *self;
        let (list, next) = match self.item_list() {
            Ok(p) => p,
            Err(e) => {
                return Err(e);
            },
        };
        proof {
            lemma_vars_extended_trans(
                old(self).spec_tree(),
                after_pipe.spec_tree(),
                self.spec_tree(),
            );
        }
        let nt = next.typ();
        let else_list: Option<ListNode> = if nt == NodeType::End {
            None
        } else if nt == NodeType::Else {
            let mut else_if = false;
            if allow_else_if {
                let pk = match self.peek_must("else if") {
                    Ok(t) => t,
                    Err(e) => {
                        return Err(e);
                    },
                };
                if pk.typ == ItemType::ItemIf {
                    else_if = true;
                }
            }
            if else_if {
                match self.next_must("else if") {
                    Ok(_) => {},
                    Err(e) => {
                        return Err(e);
                    },
                }
                let mut else_list = ListNode::new(self.tree_id, next.pos());
                let ghost before_if = *self;
                let inner = match self.if_control() {
                    Ok(n) => n,
                    Err(e) => {
                        return Err(e);
                    },
                };
                proof {
                    match before_if.spec_tree() {
                        Some(tb) => {
                            assert(self.spec_tree().unwrap().vars@.take(
                                tb.vars@.len() as int,
                            ) =~= tb.vars@);
                        },
                        None => {},
                    }
                    lemma_vars_extended_trans(
                        old(self).spec_tree(),
                        before_if.spec_tree(),
                        self.spec_tree(),
                    );
                }
                else_list.append(inner);
                Some(else_list)
            } else {
                let ghost before_el = *self;
                let (el, nx) = match self.item_list() {
                    Ok(p) => p,
                    Err(e) => {
                        return Err(e);
                    },
                };
                proof {
                    lemma_vars_extended_trans(
                        old(self).spec_tree(),
                        before_el.spec_tree(),
                        self.spec_tree(),
                    );
                }
                if nx.typ() != NodeType::End {
                    let d = nx.render();
                    let m = msg2("expected end; found ", d.as_str());
                    return Err(self.error_msg(m.as_str()));
                }
                Some(el)
            }
        } else {
            let d = next.render();
            let m = msg2("expected end; found ", d.as_str());
            return Err(self.error_msg(m.as_str()));
        };
        match self.tree.take() {
            Some(mut t) => {
                t.pop_vars(vars_len);
                self.tree = Some(t);
            },
            None => {},
        }
        let p = pipe.pos;
        Ok((p, pipe, list, else_list))
    }

    /// An if construct, with `else if` chains allowed.
    pub fn if_control(&mut self) -> (r: Result<Nodes, ParseError>)
        ensures
            final(self).same_config(old(self)),
            final(self).stream().len() <= old(self).stream().len(),
            old(self).spec_tree() is None ==> r is Err,
            r matches Ok(n) ==> n is If && final(self).stream().len() < old(self).stream().len() && final(self).same_stack(old(self)) && ({
                &&& old(self).spec_tree() matches Some(t0)
                &&& final(self).spec_tree() matches Some(t1) && t1.name == t0.name
                    && t1.id == t0.id && t1.vars@ == t0.vars@
            }),
            old(self).spec_tree() is Some && simple_control_tail(
                old(self).stream(),
                old(self).spec_funcs(),
            ) ==> (r matches Ok(n) && (n matches Nodes::If(c) && simple_control_parts(
                old(self).stream(),
                c.pipe,
                c.list,
                c.else_list,
            )) && final(self).stream() == simple_control_rest(old(self).stream())),
            ({
                let sk = skip_spaces(old(self).stream());
                let body = sk.skip(2);
                let ebody = tte_rest(body);
                old(self).spec_tree() is Some && sk.len() > 0 && simple_term_head(
                    sk[0],
                    old(self).spec_funcs(),
                ) && sk.skip(1).len() > 0 && sk.skip(1)[0].typ == ItemType::ItemRightDelim
                    && text_then_else(body) && text_then_end(ebody) ==> (r matches Ok(n)
                    && (n matches Nodes::If(c) && ({
                    &&& c.pipe.decl@.len() == 0 && c.pipe.cmds@.len() == 1
                        && c.pipe.cmds@[0].args@.len() == 1 && term_node_for(
                        sk[0],
                        c.pipe.cmds@[0].args@[0],
                    )
                    &&& c.list.nodes@.len() == 1 && (c.list.nodes@[0] matches
                    Nodes::Text(tx) && tx.text@ == tte_text(body).val@)
                    &&& (c.else_list matches Some(el) && el.nodes@.len() == 1 && (
                    el.nodes@[0] matches Nodes::Text(ex) && ex.text@ == tte_text(
                        ebody,
                    ).val@))
                })) && final(self).stream() == tte_rest(ebody))
            }),
        decreases old(self).stream().len(), 7int,
    {
        let (pos, pipe, list, else_list) = match self.parse_control(true, "if") {
            Ok(q) => q,
            Err(e) => {
                return Err(e);
            },
        };
        Ok(Nodes::If(IfNode::new_if(self.tree_id, pos, pipe, list, else_list)))
    }

    /// A range construct; the `else if` shortcut is not allowed.
    pub fn range_control(&mut self) -> (r: Result<Nodes, ParseError>)
        ensures
            final(self).same_config(old(self)),
            final(self).stream().len() <= old(self).stream().len(),
            old(self).spec_tree() is None ==> r is Err,
            r matches Ok(n) ==> n is Range && final(self).stream().len() < old(self).stream().len() && final(self).same_stack(old(self)) && ({
                &&& old(self).spec_tree() matches Some(t0)
                &&& final(self).spec_tree() matches Some(t1) && t1.name == t0.name
                    && t1.id == t0.id && t1.vars@ == t0.vars@
            }),
            old(self).spec_tree() is Some && simple_control_tail(
                old(self).stream(),
                old(self).spec_funcs(),
            ) ==> (r matches Ok(n) && (n matches Nodes::Range(c) && simple_control_parts(
                old(self).stream(),
                c.pipe,
                c.list,
                c.else_list,
            )) && final(self).stream() == simple_control_rest(old(self).stream())),
            ({
                let sk = skip_spaces(old(self).stream());
                let body = sk.skip(2);
                let after_else = skip_spaces(tte_rest(body));
                old(self).spec_tree() is Some && sk.len() > 0 && simple_term_head(
                    sk[0],
                    old(self).spec_funcs(),
                ) && sk.skip(1).len() > 0 && sk.skip(1)[0].typ == ItemType::ItemRightDelim
                    && text_then_else(body) && after_else.len() > 0 && after_else[0].typ
                    == ItemType::ItemIf ==> r is Err
            }),
        decreases old(self).stream().len(), 7int,
    {
        let (pos, pipe, list, else_list) = match self.parse_control(false, "range") {
            Ok(q) => q,
            Err(e) => {
                return Err(e);
            },
        };
        Ok(Nodes::Range(RangeNode::new_range(self.tree_id, pos, pipe, list, else_list)))
    }

    /// A with construct; the `else if` shortcut is not allowed.
    pub fn with_control(&mut self) -> (r: Result<Nodes, ParseError>)
        ensures
            final(self).same_config(old(self)),
            final(self).stream().len() <= old(self).stream().len(),
            old(self).spec_tree() is None ==> r is Err,
            r matches Ok(n) ==> n is With && final(self).stream().len() < old(self).stream().len() && final(self).same_stack(old(self)) && ({
                &&& old(self).spec_tree() matches Some(t0)
                &&& final(self).spec_tree() matches Some(t1) && t1.name == t0.name
                    && t1.id == t0.id && t1.vars@ == t0.vars@
            }),
            old(self).spec_tree() is Some && simple_control_tail(
                old(self).stream(),
                old(self).spec_funcs(),
            ) ==> (r matches Ok(n) && (n matches Nodes::With(c) && simple_control_parts(
                old(self).stream(),
                c.pipe,
                c.list,
                c.else_list,
            )) && final(self).stream() == simple_control_rest(old(self).stream())),
            ({
                let sk = skip_spaces(old(self).stream());
                old(self).spec_tree() is Some && decl1_tail(
                    old(self).stream(),
                    old(self).spec_funcs(),
                ) && text_then_end(decl1_rest(old(self).stream())) ==> (r matches Ok(n)
                    && (n matches Nodes::With(c) && c.pipe.decl@.len() == 1
                    && c.pipe.decl@[0].ident@ == sk[0].val@ && c.else_list is None
                    && c.list.nodes@.len() == 1) && final(self).stream() == tte_rest(
                    decl1_rest(old(self).stream()),
                ))
            }),
        decreases old(self).stream().len(), 7int,
    {
        let (pos, pipe, list, else_list) = match self.parse_control(false, "with") {
            Ok(q) => q,
            Err(e) => {
                return Err(e);
            },
        };
        Ok(Nodes::With(WithNode::new_with(self.tree_id, pos, pipe, list, else_list)))
    }

    /// The `{{end}}` marker: nothing but the closing delimiter may follow.
    pub fn end_control(&mut self) -> (r: Result<Nodes, ParseError>)
        ensures
            final(self).same_config(old(self)),
            final(self).same_trees(old(self)),
            final(self).stream().len() <= old(self).stream().len(),
            r matches Ok(n) ==> n is End && final(self).stream().len() < old(self).stream().len(),
            ({
                let sk = skip_spaces(old(self).stream());
                sk.len() > 0 && sk[0].typ == ItemType::ItemRightDelim ==> (r matches Ok(
                    n,
                ) && (n matches Nodes::End(en) && en.pos == sk[0].pos && en.tree_id
                    == old(self).spec_tree_id()) && final(self).stream() == sk.skip(1))
            }),
            ({
                let sk = skip_spaces(old(self).stream());
                sk.len() == 0 || sk[0].typ != ItemType::ItemRightDelim ==> r is Err
            }),
        decreases old(self).stream().len(), 7int,
    {
        let t = match self.expect(ItemType::ItemRightDelim, "end") {
            Ok(t) => t,
            Err(e) => {
                return Err(e);
            },
        };
        Ok(Nodes::End(EndNode::new(self.tree_id, t.pos)))
    }

    /// The `{{else}}` marker; an immediately following `if` is left in
    /// the stream for the caller.
    pub fn else_control(&mut self) -> (r: Result<Nodes, ParseError>)
        ensures
            final(self).same_config(old(self)),
            final(self).same_trees(old(self)),
            final(self).stream().len() <= old(self).stream().len(),
            r matches Ok(n) ==> n is Else,
            ({
                let sk = skip_spaces(old(self).stream());
                sk.len() > 0 && sk[0].typ == ItemType::ItemRightDelim ==> (r matches Ok(
                    n,
                ) && (n matches Nodes::Else(en) && en.pos == sk[0].pos && en.line
                    == sk[0].line) && final(self).stream() == sk.skip(1))
            }),
            ({
                let sk = skip_spaces(old(self).stream());
                sk.len() > 0 && sk[0].typ == ItemType::ItemIf ==> (r matches Ok(n) && (n
                matches Nodes::Else(en) && en.pos == sk[0].pos && en.line == sk[0].line)
                    && final(self).stream() == sk)
            }),
            ({
                let sk = skip_spaces(old(self).stream());
                sk.len() == 0 || (sk[0].typ != ItemType::ItemIf && sk[0].typ
                    != ItemType::ItemRightDelim) ==> r is Err
            }),
        decreases old(self).stream().len(), 7int,
    {
        proof {
            lemma_skip_spaces_fix(old(self).stream());
        }
        let pk = match self.peek_non_space_must("else") {
            Ok(t) => t,
            Err(e) => {
                return Err(e);
            },
        };
        if pk.typ == ItemType::ItemIf {
            return Ok(Nodes::Else(ElseNode::new(pk.pos, pk.line)));
        }
        let token = match self.expect(ItemType::ItemRightDelim, "else") {
            Ok(t) => t,
            Err(e) => {
                return Err(e);
            },
        };
        Ok(Nodes::Else(ElseNode::new(token.pos, token.line)))
    }

    /// A block: a define registered under a fresh identifier and, in the
    /// enclosing tree, an invocation of it by name.
    pub fn block_control(&mut self) -> (r: Result<Nodes, ParseError>)
        ensures
            final(self).same_config(old(self)),
            final(self).stream().len() <= old(self).stream().len(),
            r matches Ok(n) ==> n is Template && final(self).stream().len() < old(self).stream().len(),
            r is Ok && old(self).spec_tree() is Some ==> final(self).same_stack(
                old(self),
            ) && vars_extended(old(self).spec_tree(), final(self).spec_tree()),
            ({
                let sk = skip_spaces(old(self).stream());
                old(self).spec_tree() is Some && old(self).spec_max_tree_id()
                    < usize::MAX && sk.len() > 0 && (sk[0].typ == ItemType::ItemString
                    || sk[0].typ == ItemType::ItemRawString) && (crate::strutil::unquote_spec(
                    sk[0].val@,
                ) matches Some(nm) && !old(self).spec_tree_set().contains_key(nm)) && ({
                    let b = skip_spaces(sk.skip(1));
                    b.len() > 0 && simple_term_head(b[0], old(self).spec_funcs())
                        && b.skip(1).len() > 0 && b.skip(1)[0].typ
                        == ItemType::ItemRightDelim && text_then_end(b.skip(2))
                }) ==> (r matches Ok(n) && ({
                    let nm = crate::strutil::unquote_spec(sk[0].val@).unwrap();
                    let b = skip_spaces(sk.skip(1));
                    &&& (n matches Nodes::Template(t) && (t.name matches
                    PipeOrString::String(nms) && nms@ == nm) && (t.pipe matches Some(p)
                        && p.decl@.len() == 0 && p.cmds@.len() == 1
                        && p.cmds@[0].args@.len() == 1 && term_node_for(
                        b[0],
                        p.cmds@[0].args@[0],
                    )))
                    &&& final(self).spec_tree_set().contains_key(nm)
                    &&& (final(self).spec_tree_set()[nm].root matches Some(rn) && (rn
                    matches Nodes::List(l) && l.nodes@.len() == 1 && (l.nodes@[0] matches
                    Nodes::Text(tx) && tx.text@ == tte_text(b.skip(2)).val@)))
                    &&& final(self).stream() == tte_rest(b.skip(2))
                }))
            }),
        decreases old(self).stream().len(), 7int,
    {
        proof {
            lemma_vars_extended_refl(old(self).spec_tree());
        }
        let context = "block clause";
        let token = match self.next_non_space_must(context) {
            Ok(t) => t,
            Err(e) => {
                return Err(e);
            },
        };
        let name = match self.parse_template_name(&token, context) {
            Ok(n) => n,
            Err(e) => {
                return Err(e);
            },
        };
        let pipe = match self.pipeline(context) {
            Ok(p) => p,
            Err(e) => {
                return Err(e);
            },
        };
        if self.max_tree_id == usize::MAX {
            return self.error("too many trees");
        }
        self.max_tree_id = self.max_tree_id + 1;
        let tree_id = self.max_tree_id;
        let ghost suspended = *self;
        self.start_parse(name.clone(), tree_id);
        let (root, end) = match self.item_list() {
            Ok(p) => p,
            Err(e) => {
                return Err(e);
            },
        };
        match self.tree.take() {
            Some(mut t) => {
                t.root = Some(Nodes::List(root));
                self.tree = Some(t);
            },
            None => {},
        }
        if end.typ() != NodeType::End {
            let d = end.render();
            let m = msg4("unexpected ", d.as_str(), " in ", context);
            return Err(self.error_msg(m.as_str()));
        }
        match self.stop_parse() {
            Ok(()) => {},
            Err(e) => {
                return Err(e);
            },
        }
        proof {
            match suspended.spec_tree() {
                Some(t0p) => {
                    assert(suspended.spec_tree_stack().push(t0p).drop_last()
                        =~= suspended.spec_tree_stack());
                    assert(suspended.spec_tree_stack().push(t0p).last() == t0p);
                },
                None => {},
            }
        }
        Ok(
            Nodes::Template(
                TemplateNode::new(
                    self.tree_id,
                    token.pos,
                    PipeOrString::String(name),
                    Some(pipe),
                ),
            ),
        )
    }

    /// A template invocation: a quoted name (or, when enabled, a
    /// parenthesized name pipeline), optionally followed by one argument
    /// pipeline.
    pub fn template_control(&mut self) -> (r: Result<Nodes, ParseError>)
        ensures
            final(self).same_config(old(self)),
            final(self).stream().len() <= old(self).stream().len(),
            r matches Ok(n) ==> n is Template && final(self).stream().len() < old(self).stream().len() && final(self).same_outer(old(self)) && vars_extended(
                old(self).spec_tree(),
                final(self).spec_tree(),
            ),
            ({
                let sk = skip_spaces(old(self).stream());
                sk.len() > 0 && (sk[0].typ == ItemType::ItemString || sk[0].typ
                    == ItemType::ItemRawString) && crate::strutil::unquote_spec(sk[0].val@)
                    is Some && ({
                    let b = skip_spaces(sk.skip(1));
                    b.len() > 0 && b[0].typ == ItemType::ItemRightDelim
                }) ==> (r matches Ok(n) && (n matches Nodes::Template(t) && (t.name
                matches PipeOrString::String(nm) && crate::strutil::unquote_spec(
                    sk[0].val@,
                ) == Some(nm@)) && t.pipe is None) && final(self).stream() == skip_spaces(
                    sk.skip(1),
                ).skip(1))
            }),
            ({
                let sk = skip_spaces(old(self).stream());
                sk.len() > 0 && (sk[0].typ == ItemType::ItemString || sk[0].typ
                    == ItemType::ItemRawString) && crate::strutil::unquote_spec(sk[0].val@)
                    is Some && ({
                    let b = skip_spaces(sk.skip(1));
                    b.len() > 0 && simple_term_head(b[0], old(self).spec_funcs())
                        && b.skip(1).len() > 0 && b.skip(1)[0].typ
                        == ItemType::ItemRightDelim
                }) ==> (r matches Ok(n) && (n matches Nodes::Template(t) && (t.name
                matches PipeOrString::String(nm) && crate::strutil::unquote_spec(
                    sk[0].val@,
                ) == Some(nm@)) && (t.pipe matches Some(p) && p.decl@.len() == 0
                    && p.cmds@.len() == 1 && p.cmds@[0].args@.len() == 1
                    && term_node_for(skip_spaces(sk.skip(1))[0], p.cmds@[0].args@[0])))
                    && final(self).stream() == skip_spaces(sk.skip(1)).skip(2))
            }),
            ({
                let sk = skip_spaces(old(self).stream());
                sk.len() > 0 && sk[0].typ == ItemType::ItemLeftParen && !old(
                    self,
                ).spec_dynamic() ==> (r matches Err(e) && e is NoDynamicTemplate)
            }),
        decreases old(self).stream().len(), 7int,
    {
        proof {
            lemma_vars_extended_refl(old(self).spec_tree());
        }
        let context = "template clause";
        let token = match self.next_non_space() {
            Some(t) => t,
            None => {
                return Err(ParseError::UnexpectedEnd);
            },
        };
        let name: PipeOrString = if token.typ == ItemType::ItemLeftParen {
            if self.dynamic_template {
                let p = match self.pipeline(context) {
                    Ok(p) => p,
                    Err(e) => {
                        return Err(e);
                    },
                };
                match self.next_must("template name pipeline end") {
                    Ok(_) => {},
                    Err(e) => {
                        return Err(e);
                    },
                }
                PipeOrString::Pipe(p)
            } else {
                return Err(ParseError::NoDynamicTemplate);
            }
        } else {
            match self.parse_template_name(&token, context) {
                Ok(s) => PipeOrString::String(s),
                Err(e) => {
                    return Err(e);
                },
            }
        };
        let next = match self.next_non_space() {
            Some(t) => t,
            None => {
                return Err(ParseError::UnexpectedEnd);
            },
        };
        let ghost before_arg = *self;
        let pipe: Option<PipeNode> = if next.typ != ItemType::ItemRightDelim {
            self.backup(next);
            let p = match self.pipeline(context) {
                Ok(p) => p,
                Err(e) => {
                    return Err(e);
                },
            };
            proof {
                lemma_vars_extended_trans(
                    old(self).spec_tree(),
                    before_arg.spec_tree(),
                    self.spec_tree(),
                );
            }
            Some(p)
        } else {
            None
        };
        Ok(Nodes::Template(TemplateNode::new(self.tree_id, token.pos, name, pipe)))
    }

    /// One nested `{{define "name"}}...{{end}}`: the named body registers
    /// itself as its own tree; nothing is spliced into the current one.
    pub fn parse_definition(&mut self) -> (r: Result<(), ParseError>)
        ensures
            final(self).same_config(old(self)),
            final(self).stream().len() <= old(self).stream().len(),
            r is Ok && old(self).spec_tree() is Some ==> final(self).stream().len()
                < old(self).stream().len() && final(self).spec_tree() == old(self).spec_tree() && final(self).same_stack(old(self)),
            ({
                let sk = skip_spaces(old(self).stream());
                old(self).spec_tree() is Some && old(self).spec_tree_id() < usize::MAX
                    && sk.len() > 0 && (sk[0].typ == ItemType::ItemString || sk[0].typ
                    == ItemType::ItemRawString) && (crate::strutil::unquote_spec(
                    sk[0].val@,
                ) matches Some(nm) && !old(self).spec_tree_set().contains_key(nm)) && ({
                    let b = skip_spaces(sk.skip(1));
                    b.len() > 0 && b[0].typ == ItemType::ItemRightDelim && text_then_end(
                        b.skip(1),
                    )
                }) ==> (r is Ok && ({
                    let nm = crate::strutil::unquote_spec(sk[0].val@).unwrap();
                    let b = skip_spaces(sk.skip(1));
                    &&& final(self).spec_tree_set().contains_key(nm)
                    &&& (final(self).spec_tree_set()[nm].root matches Some(rn) && (rn
                    matches Nodes::List(l) && l.nodes@.len() == 1 && (l.nodes@[0] matches
                    Nodes::Text(tx) && tx.text@ == tte_text(b.skip(1)).val@)))
                    &&& final(self).stream() == tte_rest(b.skip(1))
                }))
            }),
        decreases old(self).stream().len(), 11int,
    {
        let context = "define clause";
        let id = self.tree_id;
        let token = match self.next_non_space_must(context) {
            Ok(t) => t,
            Err(e) => {
                return Err(e);
            },
        };
        let name = match self.parse_template_name(&token, context) {
            Ok(n) => n,
            Err(e) => {
                return Err(e);
            },
        };
        match self.expect(ItemType::ItemRightDelim, "define end") {
            Ok(_) => {},
            Err(e) => {
                return Err(e);
            },
        }
        if id == usize::MAX {
            return self.error("too many trees");
        }
        let ghost suspended = *self;
        self.start_parse(name, id + 1);
        let (list, end) = match self.item_list() {
            Ok(p) => p,
            Err(e) => {
                return Err(e);
            },
        };
        if end.typ() != NodeType::End {
            let d = end.render();
            return Err(self.unexpected(d.as_str(), context));
        }
        match self.tree.take() {
            Some(mut t) => {
                t.root = Some(Nodes::List(list));
                self.tree = Some(t);
            },
            None => {},
        }
        let r = self.stop_parse();
        proof {
            match suspended.spec_tree() {
                Some(t0p) => {
                    assert(suspended.spec_tree_stack().push(t0p).drop_last()
                        =~= suspended.spec_tree_stack());
                    assert(suspended.spec_tree_stack().push(t0p).last() == t0p);
                },
                None => {},
            }
        }
        r
    }

    /// The general body parser: fills the active tree's root list with
    /// text-or-action units, handling nested definitions, until end of
    /// input. An end or else marker surfacing here is a grammar fault.
    pub fn parse(&mut self) -> (r: Result<(), ParseError>)
        ensures
            final(self).same_config(old(self)),
            final(self).stream().len() <= old(self).stream().len(),
            (r is Ok && old(self).spec_tree() is Some) ==> (match (old(self).spec_tree(), final(self).spec_tree()) {
                (Some(t0), Some(t1)) => t1.name == t0.name,
                _ => false,
            }),
            old(self).spec_tree() is None ==> (r matches Err(e) && msg_error(
                e,
                "no tree"@,
            )),
            r is Ok && old(self).spec_tree() is Some ==> final(self).same_stack(
                old(self),
            ),
            ({
                let a = skip_spaces(old(self).stream().skip(1));
                old(self).spec_tree() is Some && old(self).stream().len() > 0 && old(
                    self,
                ).stream()[0].typ == ItemType::ItemLeftDelim && a.len() > 0 && a[0].typ
                    == ItemType::ItemIdentifier && !old(self).spec_funcs().contains(
                    a[0].val@,
                ) ==> (r matches Err(e) && msg_error(e, head_err_msg(a)))
            }),
            old(self).spec_tree() is Some && old(self).stream().len() > 0 && old(
                self,
            ).stream()[0].typ == ItemType::ItemLeftDelim && (marker_tail(
                old(self).stream().skip(1),
                ItemType::ItemEnd,
            ) || marker_tail(old(self).stream().skip(1), ItemType::ItemElse)) ==> r
                is Err,
            single_action_stream(old(self).stream(), old(self).spec_funcs()) && old(
                self,
            ).spec_tree() is Some ==> ({
                &&& r is Ok
                &&& final(self).spec_tree_set() == old(self).spec_tree_set()
                &&& final(self).same_stack(old(self))
                &&& final(self).spec_tree_id() == old(self).spec_tree_id()
                &&& match (old(self).spec_tree(), final(self).spec_tree()) {
                    (Some(t0), Some(t1)) => t1.name == t0.name && t1.id == t0.id
                        && t1.vars == t0.vars && t1.fields == t0.fields && root_is_list(
                        t1,
                    ) && root_nodes(t1).len() == 1 && simple_action_node(
                        simple_action_op(old(self).stream().skip(1)),
                        root_nodes(t1)[0],
                    ),
                    _ => false,
                }
                &&& final(self).stream() == simple_action_rest(old(self).stream().skip(1))
            }),
            literal_shape(old(self).stream()) && old(self).spec_tree() is Some ==> ({
                &&& r is Ok
                &&& final(self).spec_tree_set() == old(self).spec_tree_set()
                &&& final(self).same_stack(old(self))
                &&& final(self).spec_tree_id() == old(self).spec_tree_id()
                &&& match (old(self).spec_tree(), final(self).spec_tree()) {
                    (Some(t0), Some(t1)) => t1.name == t0.name && t1.id == t0.id
                        && t1.vars == t0.vars && t1.fields == t0.fields && root_is_list(
                        t1,
                    ) && literal_nodes(
                        root_nodes(t1),
                        literal_text(old(self).stream()),
                    ),
                    _ => false,
                }
                &&& final(self).stream() == old(self).stream().skip(
                    old(self).stream().len() - 1,
                )
            }),
    {
        if self.tree.is_none() {
            return self.error("no tree");
        }
        let id = self.tree_id;
        let mut t = match self.next() {
            None => {
                let ids = usize_string(id);
                let m = msg2("unable to peek for tree ", ids.as_str());
                return Err(self.error_msg(m.as_str()));
            },
            Some(t) => t,
        };
        match self.tree.take() {
            Some(mut tr) => {
                tr.root = Some(Nodes::List(ListNode::new(id, t.pos)));
                self.tree = Some(tr);
            },
            None => {},
        }
        while t.typ != ItemType::ItemEOF
            invariant
                self.same_config(old(self)),
                self.stream().len() + 1 <= old(self).stream().len(),
                old(self).spec_tree() is Some,
                self.same_stack(old(self)),
                ({
                    let a = skip_spaces(old(self).stream().skip(1));
                    old(self).stream().len() > 0 && old(self).stream()[0].typ
                        == ItemType::ItemLeftDelim && a.len() > 0 && a[0].typ
                        == ItemType::ItemIdentifier && !old(self).spec_funcs().contains(
                        a[0].val@,
                    ) ==> (t == old(self).stream()[0] && self.stream() == old(
                        self,
                    ).stream().skip(1))
                }),
                old(self).stream().len() > 0 && old(self).stream()[0].typ
                    == ItemType::ItemLeftDelim && (marker_tail(
                    old(self).stream().skip(1),
                    ItemType::ItemEnd,
                ) || marker_tail(old(self).stream().skip(1), ItemType::ItemElse)) ==> (t
                    == old(self).stream()[0] && self.stream() == old(
                    self,
                ).stream().skip(1)),
                old(self).spec_tree() is Some ==> (match (old(self).spec_tree(), self.spec_tree()) {
                    (Some(t0), Some(t1)) => t1.name == t0.name,
                    _ => false,
                }),
                single_action_stream(old(self).stream(), old(self).spec_funcs())
                    && old(self).spec_tree() is Some ==> ({
                    &&& self.spec_tree_set() == old(self).spec_tree_set()
                    &&& self.same_stack(old(self))
                    &&& self.spec_tree_id() == old(self).spec_tree_id()
                    &&& match (old(self).spec_tree(), self.spec_tree()) {
                        (Some(t0), Some(t1)) => t1.name == t0.name && t1.id == t0.id
                            && t1.vars == t0.vars && t1.fields == t0.fields
                            && root_is_list(t1),
                        _ => false,
                    }
                    &&& ({
                        let rest = simple_action_rest(old(self).stream().skip(1));
                        ||| (t == old(self).stream()[0] && t.typ
                            == ItemType::ItemLeftDelim && self.stream() == old(
                            self,
                        ).stream().skip(1) && root_nodes(self.spec_tree().unwrap()).len()
                            == 0)
                        ||| (t == rest[0] && t.typ == ItemType::ItemEOF && self.stream()
                            == rest.skip(1) && root_nodes(self.spec_tree().unwrap()).len()
                            == 1 && simple_action_node(
                            simple_action_op(old(self).stream().skip(1)),
                            root_nodes(self.spec_tree().unwrap())[0],
                        ))
                    })
                }),
                literal_shape(old(self).stream()) && old(self).spec_tree() is Some
                    ==> ({
                    &&& self.spec_tree_set() == old(self).spec_tree_set()
                    &&& self.same_stack(old(self))
                    &&& self.spec_tree_id() == old(self).spec_tree_id()
                    &&& match (old(self).spec_tree(), self.spec_tree()) {
                        (Some(t0), Some(t1)) => t1.name == t0.name && t1.id == t0.id
                            && t1.vars == t0.vars && t1.fields == t0.fields
                            && root_is_list(t1),
                        _ => false,
                    }
                    &&& ((old(self).stream().len() == 2 && t == old(self).stream()[0]
                        && t.typ == ItemType::ItemText && self.stream() == old(
                        self,
                    ).stream().skip(1) && root_nodes(self.spec_tree().unwrap()).len()
                        == 0) || (t.typ == ItemType::ItemEOF && t == old(
                        self,
                    ).stream().last() && self.stream() == old(self).stream().skip(
                        old(self).stream().len() as int,
                    ) && literal_nodes(
                        root_nodes(self.spec_tree().unwrap()),
                        literal_text(old(self).stream()),
                    )))
                }),
            decreases self.stream().len(),
        {
            let ghost iter_start = *self;
            if t.typ == ItemType::ItemLeftDelim {
                let nns = self.next_non_space();
                let is_define = match &nns {
                    Some(item) => item.typ == ItemType::ItemDefine,
                    None => false,
                };
                if is_define {
                    match self.parse_definition() {
                        Ok(()) => {},
                        Err(e) => {
                            return Err(e);
                        },
                    }
                    t = match self.next() {
                        None => {
                            let ids = usize_string(id);
                            let m = msg2("unable to peek for tree ", ids.as_str());
                            return Err(self.error_msg(m.as_str()));
                        },
                        Some(x) => x,
                    };
                    continue;
                }
                match nns {
                    Some(t2) => {
                        self.backup2(t, t2);
                    },
                    None => {
                        self.backup(t);
                    },
                }
                proof {
                    lemma_skip_spaces_fix(old(self).stream().skip(1));
                    let a = skip_spaces(old(self).stream().skip(1));
                    if old(self).stream().len() > 0 && t == old(self).stream()[0]
                        && (marker_tail(old(self).stream().skip(1), ItemType::ItemEnd)
                        || marker_tail(old(self).stream().skip(1), ItemType::ItemElse)) {
                        assert(self.stream() =~= seq![t] + a);
                        assert((seq![t] + a).skip(1) =~= a);
                    }
                }
            } else {
                self.backup(t);
            }
            proof {
                lemma_skip_spaces_fix(old(self).stream().skip(1));
            }
            let node = match self.text_or_action() {
                Ok(n) => n,
                Err(e) => {
                    return Err(e);
                },
            };
            let nt = node.typ();
            if nt == NodeType::Else || nt == NodeType::End {
                let d = node.render();
                let m = msg2("unexpected ", d.as_str());
                return Err(self.error_msg(m.as_str()));
            }
            match self.tree.take() {
                Some(mut tr) => {
                    match tr.root {
                        Some(Nodes::List(mut l)) => {
                            l.append(node);
                            tr.root = Some(Nodes::List(l));
                            self.tree = Some(tr);
                        },
                        _ => {
                            self.tree = Some(tr);
                            return self.error("invalid root node");
                        },
                    }
                },
                None => {
                    return self.error("no tree");
                },
            }
            t = match self.next() {
                None => {
                    let ids = usize_string(id);
                    let m = msg2("unable to peek for tree ", ids.as_str());
                    return Err(self.error_msg(m.as_str()));
                },
                Some(x) => x,
            };
        }
        self.backup(t);
        proof {
            if literal_shape(old(self).stream()) && old(self).spec_tree() is Some {
                assert(self.stream() =~= old(self).stream().skip(
                    old(self).stream().len() - 1,
                ));
            }
        }
        Ok(())
    }

    /// The top-level entry: starts the tree named after the parser,
    /// parses the whole input, and registers the finished tree.
    pub fn parse_tree(&mut self) -> (r: Result<(), ParseError>)
        ensures
            final(self).same_config(old(self)),
            final(self).stream().len() <= old(self).stream().len(),
            r is Ok ==> final(self).spec_tree_set().contains_key(old(self).spec_name()),
            r is Ok && old(self).spec_tree() is None && old(self).spec_tree_stack().len()
                == 0 ==> final(self).spec_tree() is None,
            ({
                let a = skip_spaces(old(self).stream().skip(1));
                old(self).stream().len() > 0 && old(self).stream()[0].typ
                    == ItemType::ItemLeftDelim && a.len() > 0 && a[0].typ
                    == ItemType::ItemIdentifier && !old(self).spec_funcs().contains(
                    a[0].val@,
                ) ==> (r matches Err(e) && msg_error(e, head_err_msg(a)))
            }),
            ({
                &&& literal_shape(old(self).stream())
                &&& old(self).spec_tree() is None
                &&& old(self).spec_tree_stack().len() == 0
                &&& !old(self).spec_tree_set().contains_key(old(self).spec_name())
            }) ==> ({
                &&& r is Ok
                &&& final(self).spec_tree_set().contains_key(old(self).spec_name())
                &&& literal_tree(
                    final(self).spec_tree_set()[old(self).spec_name()],
                    literal_text(old(self).stream()),
                )
                &&& final(self).spec_tree_set()[old(self).spec_name()].id == 1
            }),
            ({
                &&& single_action_stream(old(self).stream(), old(self).spec_funcs())
                &&& old(self).spec_tree() is None
                &&& old(self).spec_tree_stack().len() == 0
                &&& !old(self).spec_tree_set().contains_key(old(self).spec_name())
            }) ==> ({
                &&& r is Ok
                &&& final(self).spec_tree_set().contains_key(old(self).spec_name())
                &&& ({
                    let t = final(self).spec_tree_set()[old(self).spec_name()];
                    root_is_list(t) && root_nodes(t).len() == 1 && simple_action_node(
                        simple_action_op(old(self).stream().skip(1)),
                        root_nodes(t)[0],
                    ) && t.id == 1
                })
            }),
    {
        let name = self.name.clone();
        self.start_parse(name, 1);
        match self.parse() {
            Ok(()) => {},
            Err(e) => {
                return Err(e);
            },
        }
        self.stop_parse()
    }
}

/// Whether a token stream is one text token (non-empty) followed by end
/// of input, or end of input alone.
pub open spec fn literal_shape(items: Seq<Item>) -> bool {
    (items.len() == 1 && items[0].typ == ItemType::ItemEOF) || (items.len() == 2
        && items[0].typ == ItemType::ItemText && items[0].val@.len() > 0 && items[1].typ
        == ItemType::ItemEOF)
}

/// The literal text such a stream carries.
pub open spec fn literal_text(items: Seq<Item>) -> Seq<char> {
    if items.len() == 2 {
        items[0].val@
    } else {
        Seq::empty()
    }
}

/// Whether a root list holds exactly the text nodes for the given
/// literal input: none for empty input, one text node carrying the whole
/// input otherwise. The concatenated text of the children is the input.
pub open spec fn literal_nodes(nodes: Seq<Nodes>, s: Seq<char>) -> bool {
    if s.len() == 0 {
        nodes.len() == 0
    } else {
        nodes.len() == 1 && (nodes[0] matches Nodes::Text(tx) && tx.text@ == s)
    }
}

/// Whether the tree's root is a list node.
pub open spec fn root_is_list(t: Tree) -> bool {
    t.root matches Some(n) && n is List
}

/// The children of the tree's root list.
pub open spec fn root_nodes(t: Tree) -> Seq<Nodes> {
    match t.root {
        Some(Nodes::List(l)) => l.nodes@,
        _ => Seq::empty(),
    }
}

/// Whether a completed tree is the parse of the given literal text.
pub open spec fn literal_tree(t: Tree, s: Seq<char>) -> bool {
    root_is_list(t) && literal_nodes(root_nodes(t), s)
}

/// Rendering the tree parsed from delimiter-free input reproduces that
/// input exactly: together with the contract of `parse`, re-rendering
/// the node structure of such a tree is the identity on the source text.
pub proof fn lemma_literal_round_trip(t: Tree, s: Seq<char>)
    requires
        literal_tree(t, s),
    ensures
        t.root matches Some(root) && crate::node::render_node(root) == s,
{
    match t.root {
        Some(root) => match root {
            Nodes::List(l) => {
                if s.len() == 0 {
                    assert(crate::node::render_children(l.nodes@) =~= s);
                } else {
                    let tx = l.nodes@[0];
                    assert(l.nodes@.drop_last() =~= Seq::<Nodes>::empty());
                    assert(l.nodes@.last() == tx);
                    assert(crate::node::render_children(l.nodes@)
                        == crate::node::render_children(Seq::<Nodes>::empty())
                        + crate::node::render_node(tx));
                    assert(crate::node::render_children(l.nodes@) =~= s);
                }
            },
            _ => {},
        },
        None => {},
    }
}

/// Parses template text into a registry of named trees. Identifiers in
/// the input must come from `funcs`, the configured callable-function
/// set. Input that holds no action delimiter parses to a single tree
/// under the given name whose root list holds its text verbatim.
pub fn parse(name: String, text: String, funcs: StringHashSet) -> (r: Result<
    StringHashMap<Tree>,
    ParseError,
>)
    ensures
        r matches Ok(m) ==> m@.contains_key(name@),
        text@.len() < usize::MAX && !crate::lexer::has_left_delim(text@) ==> (r matches
        Ok(m) && m@.contains_key(name@) && literal_tree(m@[name@], text@)),
        ({
            let w = action_word(text@);
            text@.len() < usize::MAX && action_word_text(text@) && keyword_type(w)
                == ItemType::ItemIdentifier && !funcs@.contains(w) ==> (r matches Err(e)
                && msg_error(e, "function "@ + w + " not defined"@))
        }),
        ({
            let w = action_word(text@);
            text@.len() < usize::MAX && action_word_text(text@) && ((keyword_type(w)
                == ItemType::ItemIdentifier && funcs@.contains(w)) || keyword_type(w)
                == ItemType::ItemBool || keyword_type(w) == ItemType::ItemNil) ==> (r
            matches Ok(m) && m@.contains_key(name@) && ({
                let t = m@[name@];
                &&& root_is_list(t)
                &&& root_nodes(t).len() == 1
                &&& (root_nodes(t)[0] matches Nodes::Action(a) && a.pipe.decl@.len()
                    == 0 && a.pipe.cmds@.len() == 1 && a.pipe.cmds@[0].args@.len() == 1
                    && word_term_node(w, a.pipe.cmds@[0].args@[0]))
            }))
        }),
{
    let mut p = Parser::new(name);
    p.funcs = funcs;
    p.set_source(text);
    proof {
        if text@.len() < usize::MAX && !crate::lexer::has_left_delim(text@) {
            assert(literal_shape(p.stream()));
            assert(literal_text(p.stream()) == text@);
        }
        let w = action_word(text@);
        if text@.len() < usize::MAX && action_word_text(text@) && keyword_type(w)
            == ItemType::ItemIdentifier && !funcs@.contains(w) {
            let items = p.stream();
            assert(items.skip(1)[0] == items[1]);
            assert(skip_spaces(items.skip(1)) == items.skip(1));
            assert(head_err_msg(items.skip(1)) == "function "@ + w + " not defined"@);
        }
        if text@.len() < usize::MAX && action_word_text(text@) && ((keyword_type(w)
            == ItemType::ItemIdentifier && funcs@.contains(w)) || keyword_type(w)
            == ItemType::ItemBool || keyword_type(w) == ItemType::ItemNil) {
            let items = p.stream();
            assert(items.skip(1)[0] == items[1]);
            assert(skip_spaces(items.skip(1)) == items.skip(1));
            assert(simple_term_head(items[1], funcs@));
            assert(items.skip(1).skip(1)[0] == items[2]);
            assert(skip_spaces(items.skip(1)).skip(1)[0] == items[2]);
            assert(simple_action_tail(items.skip(1), funcs@));
            assert(simple_action_rest(items.skip(1)) =~= seq![items[3]]);
            assert(single_action_stream(items, funcs@));
            assert(simple_action_op(items.skip(1)) == items[1]);
        }
    }
    match p.parse_tree() {
        Ok(()) => Ok(p.tree_set),
        Err(e) => Err(e),
    }
}

impl Parser {
    /// Reads a quoted or raw-quoted template name out of one token.
    pub fn parse_template_name(&self, token: &Item, context: &str) -> (r: Result<
        String,
        ParseError,
    >)
        ensures
            r matches Ok(s) ==> (token.typ == ItemType::ItemString || token.typ
                == ItemType::ItemRawString) && crate::strutil::unquote_spec(token.val@)
                == Some(s@),
            r is Err ==> !((token.typ == ItemType::ItemString || token.typ
                == ItemType::ItemRawString) && crate::strutil::unquote_spec(token.val@)
                is Some),
    {
        match token.typ {
            ItemType::ItemString | ItemType::ItemRawString => {
                match crate::strutil::unquote_str(token.val.as_str()) {
                    Some(s) => Ok(s),
                    None => Err(ParseError::UnableToParseString(token.val.clone())),
                }
            },
            _ => {
                let d = token.describe();
                Err(self.unexpected(d.as_str(), context))
            },
        }
    }
}

} // verus!
