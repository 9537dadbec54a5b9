//! A parser for a delimiter-bounded template language: it turns template
//! source text into a registry of named syntax trees, validating function
//! names, variable scope and pipeline shape as it goes, with
//! position-annotated diagnostics on the first fault.
mod error;
mod lexer;
mod node;
mod parse;
mod strutil;

pub use error::ParseError;
pub use lexer::{Item, ItemType, Lexer};
pub use node::{ActionNode, BoolNode, ChainNode, CommandNode, DotNode, ElseNode, EndNode,
    FieldNode, IdentifierNode, IfNode, ListNode, NilNode, NodeType, Nodes, NumberNode, PipeNode,
    PipeOrString, Pos, RangeNode, StringNode, TemplateNode, TextNode, TreeId, VariableNode,
    WithNode};
pub use parse::{Parser, Tree, parse};
pub use strutil::unquote_str;
