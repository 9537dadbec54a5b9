use vstd::prelude::*;

verus! {

use vstd::string::StringExecFns;
use crate::strutil::{dec_chars, usize_string};

/// A fatal parse failure. Most failures carry the name of the innermost
/// tree being parsed, the line of the offending token and a message;
/// the other variants report caller-sequencing and configuration faults.
#[derive(Debug)]
pub enum ParseError {
    /// A diagnostic bound to a tree and line.
    Message { tree: String, line: usize, msg: String },
    /// A grammar routine ran with no active tree.
    NoTree,
    /// The token stream ended where a token was owed.
    UnexpectedEnd,
    /// A parenthesized template name was given but dynamic template names
    /// are not enabled.
    NoDynamicTemplate,
    /// A template name literal could not be unquoted.
    UnableToParseString(String),
}

/// What the printed form of an error holds.
pub open spec fn error_chars(e: ParseError) -> Seq<char> {
    match e {
        ParseError::Message { tree, line, msg } => "template: "@ + tree@ + ":"@
            + dec_chars(line as nat) + ":"@ + msg@,
        ParseError::NoTree => "template: no tree"@,
        ParseError::UnexpectedEnd => "template: unexpected end of input"@,
        ParseError::NoDynamicTemplate => "template: dynamic template names are not enabled"@,
        ParseError::UnableToParseString(s) => "template: unable to parse string: "@ + s@,
    }
}

impl ParseError {
    /// The printed form: `template: <tree>:<line>:<message>` for bound
    /// diagnostics, a fixed sentence for the rest.
    pub fn to_string(&self) -> (r: String)
        ensures
            r@ == error_chars(*self),
    {
        match self {
            ParseError::Message { tree, line, msg } => {
                let mut out = String::from_str("template: ");
                out.append(tree.as_str());
                out.append(":");
                let ln = usize_string(*line);
                out.append(ln.as_str());
                out.append(":");
                out.append(msg.as_str());
                out
            },
            ParseError::NoTree => String::from_str("template: no tree"),
            ParseError::UnexpectedEnd => String::from_str(
                "template: unexpected end of input",
            ),
            ParseError::NoDynamicTemplate => String::from_str(
                "template: dynamic template names are not enabled",
            ),
            ParseError::UnableToParseString(s) => {
                let mut out = String::from_str("template: unable to parse string: ");
                out.append(s.as_str());
                out
            },
        }
    }
}

} // verus!
