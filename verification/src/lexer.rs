use vstd::prelude::*;

verus! {

use vstd::string::StringExecFns;
use crate::strutil::{str_chars, str_eq, string_range};

/// The kind tag carried by every token.
#[derive(Clone, Copy, Debug, PartialEq, Eq, Structural)]
pub enum ItemType {
    ItemText,
    ItemLeftDelim,
    ItemRightDelim,
    ItemSpace,
    ItemError,
    ItemEOF,
    ItemIf,
    ItemElse,
    ItemEnd,
    ItemRange,
    ItemWith,
    ItemBlock,
    ItemDefine,
    ItemTemplate,
    ItemPipe,
    ItemVariable,
    ItemField,
    ItemIdentifier,
    ItemDot,
    ItemNil,
    ItemBool,
    ItemNumber,
    ItemCharConstant,
    ItemString,
    ItemRawString,
    ItemColonEquals,
    ItemChar,
    ItemLeftParen,
    ItemRightParen,
}

/// One token: a kind, its raw text, its character offset and the line
/// reported for it in diagnostics.
#[derive(Debug)]
pub struct Item {
    pub typ: ItemType,
    pub pos: usize,
    pub val: String,
    pub line: usize,
}

impl Clone for Item {
    fn clone(&self) -> (r: Item)
        ensures
            r == *self,
    {
        Item { typ: self.typ, pos: self.pos, val: self.val.clone(), line: self.line }
    }
}

impl Item {
    /// A short printable form of the token, used in diagnostics.
    pub fn describe(&self) -> (r: String)
        ensures
            self.typ == ItemType::ItemEOF ==> r@ == "EOF"@,
            self.typ != ItemType::ItemEOF ==> r@ == self.val@,
    {
        if self.typ == ItemType::ItemEOF {
            String::from_str("EOF")
        } else {
            self.val.clone()
        }
    }
}

/// Whether an opening action delimiter stands at position i.
pub open spec fn delim_at(s: Seq<char>, i: int) -> bool {
    0 <= i && i + 2 <= s.len() && s[i] == '{' && s[i + 1] == '{'
}

/// Whether the text holds an opening action delimiter anywhere.
pub open spec fn has_left_delim(s: Seq<char>) -> bool {
    exists|i: int| #[trigger] delim_at(s, i)
}

/// The number of newline characters in the text.
pub open spec fn nl_count(s: Seq<char>) -> nat
    decreases s.len(),
{
    if s.len() == 0 {
        0
    } else {
        nl_count(s.drop_last()) + (if s.last() == '\n' {
            1nat
        } else {
            0nat
        })
    }
}

/// The line number reported for a token that ends at character offset
/// `end`: the count of lines begun in the text up to there, plus one.
pub open spec fn line_of(s: Seq<char>, end: int) -> int {
    nl_count(s.take(end)) + (if end > 0 && s[end - 1] != '\n' {
        1int
    } else {
        0int
    }) + 1
}

/// The shape of the token stream for text that holds no action delimiter:
/// one text token carrying the whole input (when non-empty), then one
/// end-of-input token.
pub open spec fn literal_items(items: Seq<Item>, s: Seq<char>) -> bool {
    if s.len() == 0 {
        &&& items.len() == 1
        &&& items[0].typ == ItemType::ItemEOF
        &&& items[0].pos == 0
        &&& items[0].val@ == Seq::<char>::empty()
        &&& items[0].line == 1
    } else {
        &&& items.len() == 2
        &&& items[0].typ == ItemType::ItemText
        &&& items[0].pos == 0
        &&& items[0].val@ == s
        &&& items[0].line == line_of(s, s.len() as int)
        &&& items[1].typ == ItemType::ItemEOF
        &&& items[1].pos == s.len()
        &&& items[1].val@ == Seq::<char>::empty()
        &&& items[1].line == line_of(s, s.len() as int)
    }
}

/// A text of the shape `{{word}}`: one action holding a single
/// identifier-shaped word and nothing else.
pub open spec fn action_word_text(t: Seq<char>) -> bool {
    t.len() >= 5 && t[0] == '{' && t[1] == '{' && t[t.len() - 2] == '}' && t[t.len() - 1]
        == '}' && ({
        let w = t.subrange(2, t.len() - 2);
        w.len() >= 1 && is_alpha_char(w[0]) && (forall|i: int|
            0 <= i < w.len() ==> is_alpha_char(#[trigger] w[i]) || is_digit_char(w[i]))
    })
}

/// The word between the delimiters of such a text.
pub open spec fn action_word(t: Seq<char>) -> Seq<char> {
    t.subrange(2, t.len() - 2)
}

/// The token stream of such a text: the opening delimiter, the word
/// (classified as a keyword, literal or identifier), the closing
/// delimiter, then end of input.
pub open spec fn action_word_items(items: Seq<Item>, t: Seq<char>) -> bool {
    &&& items.len() == 4
    &&& items[0].typ == ItemType::ItemLeftDelim && items[0].pos == 0
    &&& items[1].typ == keyword_type(action_word(t)) && items[1].val@ == action_word(t)
        && items[1].pos == 2
    &&& items[2].typ == ItemType::ItemRightDelim && items[2].pos == t.len() - 2
    &&& items[3].typ == ItemType::ItemEOF && items[3].pos == t.len() && items[3].val@
        == Seq::<char>::empty()
}

pub open spec fn is_space_char(c: char) -> bool {
    c == ' ' || c == '\t' || c == '\r' || c == '\n'
}

pub open spec fn is_alpha_char(c: char) -> bool {
    ('a' <= c && c <= 'z') || ('A' <= c && c <= 'Z') || c == '_'
}

pub open spec fn is_digit_char(c: char) -> bool {
    '0' <= c && c <= '9'
}

fn is_space_c(c: char) -> (r: bool)
    ensures
        r == is_space_char(c),
{
    c == ' ' || c == '\t' || c == '\r' || c == '\n'
}

fn is_alpha_c(c: char) -> (r: bool)
    ensures
        r == is_alpha_char(c),
{
    ('a' <= c && c <= 'z') || ('A' <= c && c <= 'Z') || c == '_'
}

fn is_digit_c(c: char) -> (r: bool)
    ensures
        r == is_digit_char(c),
{
    '0' <= c && c <= '9'
}

fn is_alnum_c(c: char) -> (r: bool)
    ensures
        r == (is_alpha_char(c) || is_digit_char(c)),
{
    is_alpha_c(c) || is_digit_c(c)
}

/// Counts the newlines before `end` and turns them into the reported line.
fn count_line(chars: &Vec<char>, end: usize) -> (r: usize)
    requires
        end <= chars@.len() < usize::MAX,
    ensures
        r == line_of(chars@, end as int),
{
    let mut cnt: usize = 0;
    let mut i: usize = 0;
    while i < end
        invariant
            i <= end <= chars@.len(),
            cnt == nl_count(chars@.take(i as int)),
            cnt <= i,
            i > 0 && chars@[i - 1] != '\n' ==> cnt < i,
        decreases end - i,
    {
        proof {
            assert(chars@.take((i + 1) as int).drop_last() =~= chars@.take(i as int));
            assert(chars@.take((i + 1) as int).last() == chars@[i as int]);
        }
        if chars[i] == '\n' {
            cnt = cnt + 1;
        }
        i = i + 1;
    }
    if end > 0 && chars[end - 1] != '\n' {
        cnt + 1 + 1
    } else {
        cnt + 1
    }
}

/// Finds the first opening delimiter at or after `from`.
fn find_delim(chars: &Vec<char>, from: usize) -> (r: Option<usize>)
    requires
        from <= chars@.len() < usize::MAX,
    ensures
        match r {
            Some(d) => from <= d && d + 2 <= chars@.len() && delim_at(chars@, d as int)
                && (forall|j: int| from <= j < d ==> !delim_at(chars@, j)),
            None => forall|j: int| from <= j ==> !delim_at(chars@, j),
        },
{
    let n = chars.len();
    let mut i: usize = from;
    while i + 1 < n
        invariant
            from <= i <= n == chars@.len(),
            n < usize::MAX,
            forall|j: int| from <= j < i ==> !delim_at(chars@, j),
        decreases n - i,
    {
        if chars[i] == '{' && chars[i + 1] == '{' {
            return Some(i);
        }
        i = i + 1;
    }
    None
}

/// Scans one run of numeric-literal characters: an optional sign, then
/// digits (or a hexadecimal prefix and digits), an optional fraction and
/// an optional exponent. Validation is left to the literal decoder,
/// which accepts signed decimals and character constants only: the
/// wider shapes scanned here surface as malformed-literal parse faults.
fn scan_number(chars: &Vec<char>, start: usize) -> (end: usize)
    requires
        start < chars@.len() < usize::MAX,
    ensures
        start < end <= chars@.len(),
{
    let n = chars.len();
    let mut i: usize = start;
    if chars[i] == '+' || chars[i] == '-' {
        i = i + 1;
    }
    if i + 1 < n && chars[i] == '0' && (chars[i + 1] == 'x' || chars[i + 1] == 'X') {
        i = i + 2;
        while i < n && (is_digit_c(chars[i]) || ('a' <= chars[i] && chars[i] <= 'f') || (
        'A' <= chars[i] && chars[i] <= 'F'))
            invariant
                i <= n == chars@.len(),
            decreases n - i,
        {
            i = i + 1;
        }
        if i > start {
            return i;
        }
        return start + 1;
    }
    while i < n && is_digit_c(chars[i])
        invariant
            i <= n == chars@.len(),
        decreases n - i,
    {
        i = i + 1;
    }
    if i < n && chars[i] == '.' {
        i = i + 1;
        while i < n && is_digit_c(chars[i])
            invariant
                i <= n == chars@.len(),
            decreases n - i,
        {
            i = i + 1;
        }
    }
    if i < n && (chars[i] == 'e' || chars[i] == 'E') {
        i = i + 1;
        if i < n && (chars[i] == '+' || chars[i] == '-') {
            i = i + 1;
        }
        while i < n && is_digit_c(chars[i])
            invariant
                i <= n == chars@.len(),
            decreases n - i,
        {
            i = i + 1;
        }
    }
    if i > start {
        i
    } else {
        start + 1
    }
}

/// Scans a quoted literal that starts at `start` with the given quote
/// character; returns the offset one past the closing quote, or None if
/// the literal never closes (for plain strings, a newline also cuts it
/// short). `escapes` says whether a backslash protects the next character.
fn scan_quoted(chars: &Vec<char>, start: usize, quote: char, escapes: bool) -> (r: Option<
    usize,
>)
    requires
        start < chars@.len() < usize::MAX,
    ensures
        match r {
            Some(e) => start < e <= chars@.len(),
            None => true,
        },
{
    let n = chars.len();
    let mut i: usize = start + 1;
    while i < n
        invariant
            start < i <= n == chars@.len(),
        decreases n - i,
    {
        let c = chars[i];
        if escapes && c == '\\' {
            if i + 1 < n {
                i = i + 2;
            } else {
                return None;
            }
        } else if c == quote {
            return Some(i + 1);
        } else if escapes && c == '\n' {
            return None;
        } else {
            i = i + 1;
        }
    }
    None
}

/// The token kind of one identifier-shaped word: a keyword's own kind,
/// a boolean or nil literal's, or a plain identifier.
pub open spec fn keyword_type(s: Seq<char>) -> ItemType {
    if s == "if"@ {
        ItemType::ItemIf
    } else if s == "else"@ {
        ItemType::ItemElse
    } else if s == "end"@ {
        ItemType::ItemEnd
    } else if s == "range"@ {
        ItemType::ItemRange
    } else if s == "with"@ {
        ItemType::ItemWith
    } else if s == "block"@ {
        ItemType::ItemBlock
    } else if s == "define"@ {
        ItemType::ItemDefine
    } else if s == "template"@ {
        ItemType::ItemTemplate
    } else if s == "nil"@ {
        ItemType::ItemNil
    } else if s == "true"@ || s == "false"@ {
        ItemType::ItemBool
    } else {
        ItemType::ItemIdentifier
    }
}

/// Classifies one identifier-shaped word as a keyword or a plain
/// identifier token.
fn word_type(val: &String) -> (t: ItemType)
    ensures
        t == keyword_type(val@),
{
    if str_eq(val.as_str(), "if") {
        ItemType::ItemIf
    } else if str_eq(val.as_str(), "else") {
        ItemType::ItemElse
    } else if str_eq(val.as_str(), "end") {
        ItemType::ItemEnd
    } else if str_eq(val.as_str(), "range") {
        ItemType::ItemRange
    } else if str_eq(val.as_str(), "with") {
        ItemType::ItemWith
    } else if str_eq(val.as_str(), "block") {
        ItemType::ItemBlock
    } else if str_eq(val.as_str(), "define") {
        ItemType::ItemDefine
    } else if str_eq(val.as_str(), "template") {
        ItemType::ItemTemplate
    } else if str_eq(val.as_str(), "nil") {
        ItemType::ItemNil
    } else if str_eq(val.as_str(), "true") || str_eq(val.as_str(), "false") {
        ItemType::ItemBool
    } else {
        ItemType::ItemIdentifier
    }
}

/// The token producer: the whole input is scanned up front and tokens are
/// then handed out one at a time.
pub struct Lexer {
    items: Vec<Item>,
    idx: usize,
}

impl Lexer {
    /// The cursor never runs past the scanned tokens.
    #[verifier::type_invariant]
    spec fn cursor_in_bounds(&self) -> bool {
        self.idx <= self.items@.len()
    }

    /// The tokens not yet handed out.
    pub closed spec fn remaining(&self) -> Seq<Item> {
        self.items@.skip(self.idx as int)
    }

    /// Scans the whole text into tokens. Text outside delimiters becomes
    /// single text tokens; inside an action each keyword, literal,
    /// operator and space run becomes its own token; the stream ends with
    /// an end-of-input token, or an error token where the action is
    /// malformed.
    pub fn new(text: String) -> (l: Lexer)
        ensures
            text@.len() < usize::MAX && !has_left_delim(text@) ==> literal_items(
                l.remaining(),
                text@,
            ),
            text@.len() < usize::MAX && action_word_text(text@) ==> action_word_items(
                l.remaining(),
                text@,
            ),
    {
        let chars = str_chars(text.as_str());
        if chars.len() == usize::MAX {
            // a text of the largest possible length cannot carry the final
            // end-of-input token's offset; refuse it outright
            let items = vec![
                Item {
                    typ: ItemType::ItemError,
                    pos: 0,
                    val: String::from_str("input too long"),
                    line: 1,
                },
            ];
            proof {
                assert(items@.skip(0) =~= items@);
            }
            return Lexer { items, idx: 0 };
        }
        let items = lex_all(&chars);
        proof {
            assert(items@.skip(0) =~= items@);
        }
        Lexer { items, idx: 0 }
    }

    /// Hands out the next token, if one is left.
    pub fn next(&mut self) -> (r: Option<Item>)
        ensures
            old(self).remaining().len() > 0 ==> r == Some(old(self).remaining()[0])
                && final(self).remaining() == old(self).remaining().skip(1),
            old(self).remaining().len() == 0 ==> r is None && final(self).remaining()
                == old(self).remaining(),
    {
        proof {
            use_type_invariant(&*self);
        }
        if self.idx < self.items.len() {
            let it = self.items[self.idx].clone();
            self.idx = self.idx + 1;
            proof {
                assert(old(self).remaining()[0] == old(self).items@[old(self).idx as int]);
                assert(old(self).remaining()[0] == it);
                assert(self.items@.skip(self.idx as int) =~= old(self).remaining().skip(
                    1,
                ));
            }
            Some(it)
        } else {
            None
        }
    }
}

/// Runs the scanner over the whole character sequence.
fn lex_all(chars: &Vec<char>) -> (items: Vec<Item>)
    requires
        chars@.len() < usize::MAX,
    ensures
        !has_left_delim(chars@) ==> literal_items(items@, chars@),
        action_word_text(chars@) ==> action_word_items(items@, chars@),
{
    let n = chars.len();
    let mut items: Vec<Item> = Vec::new();
    let mut pos: usize = 0;
    loop
        invariant
            pos <= n,
            n == chars@.len(),
            n < usize::MAX,
            pos == 0 ==> items@.len() == 0,
            pos > 0 ==> has_left_delim(chars@),
            action_word_text(chars@) ==> ((pos == 0 && items@.len() == 0) || (pos == n
                && items@.len() == 3 && items@[0].typ == ItemType::ItemLeftDelim
                && items@[0].pos == 0 && items@[1].typ == keyword_type(
                action_word(chars@),
            ) && items@[1].val@ == action_word(chars@) && items@[1].pos == 2
                && items@[2].typ == ItemType::ItemRightDelim && items@[2].pos == n
                - 2)),
        decreases n - pos,
    {
        match find_delim(chars, pos) {
            None => {
                let line = count_line(chars, n);
                if pos < n {
                    let val = string_range(chars, pos, n);
                    items.push(Item { typ: ItemType::ItemText, pos, val, line });
                }
                items.push(
                    Item { typ: ItemType::ItemEOF, pos: n, val: String::new(), line },
                );
                proof {
                    if !has_left_delim(chars@) {
                        assert(pos == 0);
                        if chars@.len() > 0 {
                            assert(chars@.subrange(0, n as int) =~= chars@);
                            assert(items@.len() == 2);
                        } else {
                            assert(line_of(chars@, 0) == 1) by {
                                assert(chars@.take(0) =~= Seq::<char>::empty());
                            }
                        }
                    }
                    if action_word_text(chars@) {
                        assert(delim_at(chars@, 0));
                        assert(pos == n);
                        assert(items@.len() == 4);
                    }
                }
                return items;
            },
            Some(d) => {
                proof {
                    assert(delim_at(chars@, d as int));
                    if action_word_text(chars@) && pos == 0 {
                        assert(delim_at(chars@, 0));
                        assert(d == 0);
                    }
                }
                if d > pos {
                    let val = string_range(chars, pos, d);
                    let line = count_line(chars, d);
                    items.push(Item { typ: ItemType::ItemText, pos, val, line });
                }
                let dval = string_range(chars, d, d + 2);
                let dline = count_line(chars, d + 2);
                items.push(
                    Item { typ: ItemType::ItemLeftDelim, pos: d, val: dval, line: dline },
                );
                pos = d + 2;
                let ghost action_start = pos;
                // inside the action: one token per keyword, literal or operator
                loop
                    invariant_except_break
                        action_start <= pos <= n,
                        n == chars@.len(),
                        n < usize::MAX,
                        has_left_delim(chars@),
                        action_start > 0,
                        action_word_text(chars@) ==> action_start == 2 && d == 0,
                        action_word_text(chars@) && action_start == 2 && d == 0 ==> ((pos
                            == 2 && items@.len() == 1 && items@[0].typ
                            == ItemType::ItemLeftDelim && items@[0].pos == 0) || (pos == n
                            - 2 && items@.len() == 2 && items@[0].typ
                            == ItemType::ItemLeftDelim && items@[0].pos == 0
                            && items@[1].typ == keyword_type(action_word(chars@))
                            && items@[1].val@ == action_word(chars@) && items@[1].pos
                            == 2)),
                    ensures
                        action_start <= pos <= n,
                        n == chars@.len(),
                        n < usize::MAX,
                        has_left_delim(chars@),
                        action_start > 0,
                        action_word_text(chars@) ==> action_start == 2 && d == 0,
                        action_word_text(chars@) && action_start == 2 && d == 0 ==> (pos
                            == n && items@.len() == 3 && items@[0].typ
                            == ItemType::ItemLeftDelim && items@[0].pos == 0
                            && items@[1].typ == keyword_type(action_word(chars@))
                            && items@[1].val@ == action_word(chars@) && items@[1].pos
                            == 2 && items@[2].typ == ItemType::ItemRightDelim
                            && items@[2].pos == n - 2),
                    decreases n - pos,
                {
                    if pos >= n {
                        let line = count_line(chars, n);
                        items.push(
                            Item {
                                typ: ItemType::ItemError,
                                pos: n,
                                val: String::from_str("unclosed action"),
                                line,
                            },
                        );
                        return items;
                    }
                    let c = chars[pos];
                    let start = pos;
                    if c == '}' && pos + 1 < n && chars[pos + 1] == '}' {
                        let val = string_range(chars, pos, pos + 2);
                        let line = count_line(chars, pos + 2);
                        items.push(
                            Item { typ: ItemType::ItemRightDelim, pos, val, line },
                        );
                        pos = pos + 2;
                        break;
                    } else if is_space_c(c) {
                        let mut e = pos + 1;
                        while e < n && is_space_c(chars[e])
                            invariant
                                pos < e <= n == chars@.len(),
                            decreases n - e,
                        {
                            e = e + 1;
                        }
                        let val = string_range(chars, pos, e);
                        let line = count_line(chars, e);
                        items.push(Item { typ: ItemType::ItemSpace, pos, val, line });
                        pos = e;
                    } else if c == ':' {
                        if pos + 1 < n && chars[pos + 1] == '=' {
                            let val = string_range(chars, pos, pos + 2);
                            let line = count_line(chars, pos + 2);
                            items.push(
                                Item { typ: ItemType::ItemColonEquals, pos, val, line },
                            );
                            pos = pos + 2;
                        } else {
                            let line = count_line(chars, pos + 1);
                            items.push(
                                Item {
                                    typ: ItemType::ItemError,
                                    pos,
                                    val: String::from_str("expected :="),
                                    line,
                                },
                            );
                            return items;
                        }
                    } else if c == '|' {
                        let val = string_range(chars, pos, pos + 1);
                        let line = count_line(chars, pos + 1);
                        items.push(Item { typ: ItemType::ItemPipe, pos, val, line });
                        pos = pos + 1;
                    } else if c == '(' {
                        let val = string_range(chars, pos, pos + 1);
                        let line = count_line(chars, pos + 1);
                        items.push(
                            Item { typ: ItemType::ItemLeftParen, pos, val, line },
                        );
                        pos = pos + 1;
                    } else if c == ')' {
                        let val = string_range(chars, pos, pos + 1);
                        let line = count_line(chars, pos + 1);
                        items.push(
                            Item { typ: ItemType::ItemRightParen, pos, val, line },
                        );
                        pos = pos + 1;
                    } else if c == '"' {
                        match scan_quoted(chars, pos, '"', true) {
                            Some(e) => {
                                let val = string_range(chars, pos, e);
                                let line = count_line(chars, e);
                                items.push(
                                    Item { typ: ItemType::ItemString, pos, val, line },
                                );
                                pos = e;
                            },
                            None => {
                                let line = count_line(chars, pos + 1);
                                items.push(
                                    Item {
                                        typ: ItemType::ItemError,
                                        pos,
                                        val: String::from_str(
                                            "unterminated quoted string",
                                        ),
                                        line,
                                    },
                                );
                                return items;
                            },
                        }
                    } else if c == '`' {
                        match scan_quoted(chars, pos, '`', false) {
                            Some(e) => {
                                let val = string_range(chars, pos, e);
                                let line = count_line(chars, e);
                                items.push(
                                    Item {
                                        typ: ItemType::ItemRawString,
                                        pos,
                                        val,
                                        line,
                                    },
                                );
                                pos = e;
                            },
                            None => {
                                let line = count_line(chars, pos + 1);
                                items.push(
                                    Item {
                                        typ: ItemType::ItemError,
                                        pos,
                                        val: String::from_str(
                                            "unterminated raw quoted string",
                                        ),
                                        line,
                                    },
                                );
                                return items;
                            },
                        }
                    } else if c == '\'' {
                        match scan_quoted(chars, pos, '\'', true) {
                            Some(e) => {
                                let val = string_range(chars, pos, e);
                                let line = count_line(chars, e);
                                items.push(
                                    Item {
                                        typ: ItemType::ItemCharConstant,
                                        pos,
                                        val,
                                        line,
                                    },
                                );
                                pos = e;
                            },
                            None => {
                                let line = count_line(chars, pos + 1);
                                items.push(
                                    Item {
                                        typ: ItemType::ItemError,
                                        pos,
                                        val: String::from_str(
                                            "unterminated character constant",
                                        ),
                                        line,
                                    },
                                );
                                return items;
                            },
                        }
                    } else if c == '$' {
                        let mut e = pos + 1;
                        while e < n && is_alnum_c(chars[e])
                            invariant
                                pos < e <= n == chars@.len(),
                            decreases n - e,
                        {
                            e = e + 1;
                        }
                        let val = string_range(chars, pos, e);
                        let line = count_line(chars, e);
                        items.push(
                            Item { typ: ItemType::ItemVariable, pos, val, line },
                        );
                        pos = e;
                    } else if c == '.' {
                        if pos + 1 < n && is_digit_c(chars[pos + 1]) {
                            let e = scan_number(chars, pos);
                            let val = string_range(chars, pos, e);
                            let line = count_line(chars, e);
                            items.push(
                                Item { typ: ItemType::ItemNumber, pos, val, line },
                            );
                            pos = e;
                        } else if pos + 1 < n && is_alpha_c(chars[pos + 1]) {
                            let mut e = pos + 1;
                            while e < n && is_alnum_c(chars[e])
                                invariant
                                    pos < e <= n == chars@.len(),
                                decreases n - e,
                            {
                                e = e + 1;
                            }
                            let val = string_range(chars, pos, e);
                            let line = count_line(chars, e);
                            items.push(
                                Item { typ: ItemType::ItemField, pos, val, line },
                            );
                            pos = e;
                        } else {
                            let val = string_range(chars, pos, pos + 1);
                            let line = count_line(chars, pos + 1);
                            items.push(Item { typ: ItemType::ItemDot, pos, val, line });
                            pos = pos + 1;
                        }
                    } else if is_digit_c(c) || c == '+' || c == '-' {
                        let e = scan_number(chars, pos);
                        let val = string_range(chars, pos, e);
                        let line = count_line(chars, e);
                        items.push(Item { typ: ItemType::ItemNumber, pos, val, line });
                        pos = e;
                    } else if is_alpha_c(c) {
                        let mut e = pos + 1;
                        while e < n && is_alnum_c(chars[e])
                            invariant
                                pos < e <= n == chars@.len(),
                                action_word_text(chars@) && pos == 2 ==> e <= n - 2,
                            decreases n - e,
                        {
                            proof {
                                if action_word_text(chars@) && pos == 2 && e == n - 2 {
                                    assert(chars@[e as int] == '}');
                                }
                            }
                            e = e + 1;
                        }
                        proof {
                            if action_word_text(chars@) && pos == 2 {
                                if e < n - 2 {
                                    assert(action_word(chars@)[e - 2]
                                        == chars@[e as int]);
                                    assert(false);
                                }
                                assert(e == n - 2);
                                assert(chars@.subrange(2, e as int) == action_word(
                                    chars@,
                                ));
                            }
                        }
                        let val = string_range(chars, pos, e);
                        let line = count_line(chars, e);
                        let typ = word_type(&val);
                        items.push(Item { typ, pos, val, line });
                        pos = e;
                    } else {
                        let val = string_range(chars, pos, pos + 1);
                        let line = count_line(chars, pos + 1);
                        items.push(Item { typ: ItemType::ItemChar, pos, val, line });
                        pos = pos + 1;
                    }
                    proof {
                        assert(pos > start);
                    }
                }
            },
        }
    }
}

/// The leading run of space tokens removed from a token stream.
pub open spec fn skip_spaces(s: Seq<Item>) -> Seq<Item>
    decreases s.len(),
{
    if s.len() == 0 {
        s
    } else if s[0].typ == ItemType::ItemSpace {
        skip_spaces(s.skip(1))
    } else {
        s
    }
}

proof fn lemma_skip_spaces_le_rec(s: Seq<Item>)
    ensures
        skip_spaces(s).len() <= s.len(),
    decreases s.len(),
{
    if s.len() > 0 && s[0].typ == ItemType::ItemSpace {
        lemma_skip_spaces_le_rec(s.skip(1));
    }
}

/// Dropping leading spaces never lengthens a stream.
pub broadcast proof fn lemma_skip_spaces_le(s: Seq<Item>)
    ensures
        (#[trigger] skip_spaces(s)).len() <= s.len(),
{
    lemma_skip_spaces_le_rec(s);
}

/// Dropping leading spaces twice is the same as dropping them once, and
/// what is left never starts with a space.
pub proof fn lemma_skip_spaces_fix(s: Seq<Item>)
    ensures
        skip_spaces(skip_spaces(s)) == skip_spaces(s),
        skip_spaces(s).len() > 0 ==> skip_spaces(s)[0].typ != ItemType::ItemSpace,
    decreases s.len(),
{
    if s.len() > 0 && s[0].typ == ItemType::ItemSpace {
        lemma_skip_spaces_fix(s.skip(1));
    }
}

} // verus!
