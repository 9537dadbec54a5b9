use vstd::prelude::*;

verus! {

use vstd::string::StrSliceExecFns;
use vstd::string::StringExecFns;

/// Relies on String::push: appends exactly the one character to the string.
#[verifier::external_body]
pub(crate) fn push_char(s: &mut String, c: char)
    ensures
        final(s)@ == old(s)@.push(c),
{
    s.push(c);
}

/// Builds an owned string out of a slice of a character vector.
pub(crate) fn string_range(chars: &Vec<char>, from: usize, to: usize) -> (r: String)
    requires
        from <= to <= chars@.len(),
    ensures
        r@ == chars@.subrange(from as int, to as int),
{
    let mut r = String::new();
    let mut i: usize = from;
    while i < to
        invariant
            from <= i <= to <= chars@.len(),
            r@ == chars@.subrange(from as int, i as int),
        decreases to - i,
    {
        push_char(&mut r, chars[i]);
        proof {
            assert(chars@.subrange(from as int, (i + 1) as int) == chars@.subrange(
                from as int,
                i as int,
            ).push(chars@[i as int]));
        }
        i = i + 1;
    }
    r
}

/// Copies a string into a vector of its characters.
pub(crate) fn str_chars(s: &str) -> (r: Vec<char>)
    ensures
        r@ == s@,
{
    let n = s.unicode_len();
    let mut r: Vec<char> = Vec::new();
    let mut i: usize = 0;
    while i < n
        invariant
            i <= n,
            n == s@.len(),
            r@ == s@.take(i as int),
        decreases n - i,
    {
        r.push(s.get_char(i));
        proof {
            assert(s@.take((i + 1) as int) == s@.take(i as int).push(s@[i as int]));
        }
        i = i + 1;
    }
    proof {
        assert(s@.take(n as int) == s@);
    }
    r
}

/// Whether two string slices hold the same characters.
pub(crate) fn str_eq(a: &str, b: &str) -> (r: bool)
    ensures
        r == (a@ == b@),
{
    let sa = String::from_str(a);
    let sb = String::from_str(b);
    sa == sb
}

/// The character for one decimal digit.
pub open spec fn digit_char(d: int) -> char {
    if d == 0 {
        '0'
    } else if d == 1 {
        '1'
    } else if d == 2 {
        '2'
    } else if d == 3 {
        '3'
    } else if d == 4 {
        '4'
    } else if d == 5 {
        '5'
    } else if d == 6 {
        '6'
    } else if d == 7 {
        '7'
    } else if d == 8 {
        '8'
    } else {
        '9'
    }
}

/// The decimal rendering of a natural number, most significant digit first.
pub open spec fn dec_chars(n: nat) -> Seq<char>
    decreases n,
{
    if n < 10 {
        seq![digit_char(n as int)]
    } else {
        dec_chars(n / 10) + seq![digit_char((n % 10) as int)]
    }
}

fn digit_exec(d: u64) -> (c: char)
    requires
        d < 10,
    ensures
        c == digit_char(d as int),
{
    if d == 0 {
        '0'
    } else if d == 1 {
        '1'
    } else if d == 2 {
        '2'
    } else if d == 3 {
        '3'
    } else if d == 4 {
        '4'
    } else if d == 5 {
        '5'
    } else if d == 6 {
        '6'
    } else if d == 7 {
        '7'
    } else if d == 8 {
        '8'
    } else {
        '9'
    }
}

/// Renders a number in decimal, for positions and line numbers in diagnostics.
pub fn usize_string(n: usize) -> (r: String)
    ensures
        r@ == dec_chars(n as nat),
{
    let mut digits: Vec<char> = Vec::new();
    let mut m: u64 = n as u64;
    proof {
        assert(dec_chars(n as nat) =~= dec_chars(m as nat) + digits@);
    }
    while m >= 10
        invariant
            dec_chars(n as nat) == dec_chars(m as nat) + digits@,
        decreases m,
    {
        let d = m % 10;
        let ghost pre = digits@;
        let c = digit_exec(d);
        digits.insert(0, c);
        proof {
            assert(dec_chars(m as nat) == dec_chars((m / 10) as nat) + seq![
                digit_char((m % 10) as int),
            ]);
            assert(dec_chars((m / 10) as nat) + digits@ =~= (dec_chars((m / 10) as nat)
                + seq![digit_char((m % 10) as int)]) + pre);
        }
        m = m / 10;
    }
    let last = digit_exec(m);
    digits.insert(0, last);
    proof {
        assert(dec_chars(m as nat) =~= seq![digit_char(m as int)]);
        assert(dec_chars(n as nat) =~= digits@);
    }
    let mut r = String::new();
    let mut i: usize = 0;
    let k = digits.len();
    while i < k
        invariant
            i <= k,
            k == digits@.len(),
            r@ == digits@.take(i as int),
        decreases k - i,
    {
        push_char(&mut r, digits[i]);
        proof {
            assert(digits@.take((i + 1) as int) == digits@.take(i as int).push(
                digits@[i as int],
            ));
        }
        i = i + 1;
    }
    proof {
        assert(digits@.take(k as int) == digits@);
    }
    r
}

/// Builds an owned string holding exactly the given characters.
pub(crate) fn chars_string(chars: &Vec<char>) -> (r: String)
    ensures
        r@ == chars@,
{
    let r = string_range(chars, 0, chars.len());
    proof {
        assert(chars@.subrange(0, chars@.len() as int) == chars@);
    }
    r
}

/// What a backslash escape stands for, or None if the escape is unknown.
pub open spec fn esc_char(c: char) -> Option<char> {
    if c == 'n' {
        Some('\n')
    } else if c == 't' {
        Some('\t')
    } else if c == 'r' {
        Some('\r')
    } else if c == '\\' {
        Some('\\')
    } else if c == '"' {
        Some('"')
    } else if c == '\'' {
        Some('\'')
    } else if c == '0' {
        Some('\0')
    } else {
        None
    }
}

/// The decoded form of quoted-string content: backslash escapes replaced,
/// or None where an escape is unknown or cut short.
pub open spec fn unescape(s: Seq<char>) -> Option<Seq<char>>
    decreases s.len(),
{
    if s.len() == 0 {
        Some(Seq::empty())
    } else if s[0] == '\\' {
        if s.len() < 2 {
            None
        } else {
            match esc_char(s[1]) {
                None => None,
                Some(c) => match unescape(s.skip(2)) {
                    None => None,
                    Some(t) => Some(seq![c] + t),
                },
            }
        }
    } else {
        match unescape(s.skip(1)) {
            None => None,
            Some(t) => Some(seq![s[0]] + t),
        }
    }
}

/// The decoded text of a quoted or raw-quoted literal, or None if the
/// literal is not properly quoted or holds a bad escape.
pub open spec fn unquote_spec(s: Seq<char>) -> Option<Seq<char>> {
    if s.len() >= 2 && s[0] == '"' && s[s.len() - 1] == '"' {
        unescape(s.subrange(1, s.len() - 1))
    } else if s.len() >= 2 && s[0] == '`' && s[s.len() - 1] == '`' {
        Some(s.subrange(1, s.len() - 1))
    } else {
        None
    }
}

fn esc_char_exec(c: char) -> (r: Option<char>)
    ensures
        r == esc_char(c),
{
    if c == 'n' {
        Some('\n')
    } else if c == 't' {
        Some('\t')
    } else if c == 'r' {
        Some('\r')
    } else if c == '\\' {
        Some('\\')
    } else if c == '"' {
        Some('"')
    } else if c == '\'' {
        Some('\'')
    } else if c == '0' {
        Some('\0')
    } else {
        None
    }
}

/// Decodes the content chars\[from..to\] as escaped string content.
pub(crate) fn unescape_range(chars: &Vec<char>, from: usize, to: usize) -> (r: Option<
    String,
>)
    requires
        from <= to <= chars@.len(),
    ensures
        match r {
            Some(t) => unescape(chars@.subrange(from as int, to as int)) == Some(t@),
            None => unescape(chars@.subrange(from as int, to as int)) is None,
        },
{
    let ghost content = chars@.subrange(from as int, to as int);
    let mut out: Vec<char> = Vec::new();
    let mut j: usize = from;
    proof {
        assert(content.skip(0) =~= content);
        match unescape(content) {
            Some(t) => {
                assert(Seq::<char>::empty() + t =~= t);
            },
            None => {},
        }
    }
    while j < to
        invariant
            from <= j <= to <= chars@.len(),
            content == chars@.subrange(from as int, to as int),
            match unescape(content.skip(j - from)) {
                None => unescape(content) is None,
                Some(t) => unescape(content) == Some(out@ + t),
            },
        decreases to - j,
    {
        let ghost tail = content.skip(j - from);
        proof {
            assert(tail.len() == to - j);
            assert(tail[0] == chars@[j as int]);
        }
        let c = chars[j];
        if c == '\\' {
            if j + 1 >= to {
                proof {
                    assert(unescape(tail) is None);
                }
                return None;
            }
            proof {
                assert(tail[1] == chars@[j + 1]);
            }
            match esc_char_exec(chars[j + 1]) {
                None => {
                    proof {
                        assert(unescape(tail) is None);
                    }
                    return None;
                },
                Some(e) => {
                    let ghost prev = out@;
                    out.push(e);
                    proof {
                        assert(tail.skip(2) =~= content.skip(j + 2 - from));
                        match unescape(content.skip(j + 2 - from)) {
                            Some(t) => {
                                assert(unescape(tail) == Some(seq![e] + t));
                                assert(prev + (seq![e] + t) =~= out@ + t);
                            },
                            None => {},
                        }
                    }
                    j = j + 2;
                },
            }
        } else {
            let ghost prev = out@;
            out.push(c);
            proof {
                assert(tail.skip(1) =~= content.skip(j + 1 - from));
                match unescape(content.skip(j + 1 - from)) {
                    Some(t) => {
                        assert(unescape(tail) == Some(seq![c] + t));
                        assert(prev + (seq![c] + t) =~= out@ + t);
                    },
                    None => {},
                }
            }
            j = j + 1;
        }
    }
    proof {
        assert(content.skip(to - from) =~= Seq::<char>::empty());
        assert(unescape(content) == Some(out@ + Seq::<char>::empty()));
        assert(out@ + Seq::<char>::empty() =~= out@);
    }
    Some(chars_string(&out))
}

/// Decodes a quoted or raw string literal, escapes and all; None where the
/// text is not a well-formed quoted literal.
pub fn unquote_str(s: &str) -> (r: Option<String>)
    ensures
        match r {
            Some(t) => unquote_spec(s@) == Some(t@),
            None => unquote_spec(s@) is None,
        },
{
    let chars = str_chars(s);
    let n = chars.len();
    if n < 2 {
        return None;
    }
    let first = chars[0];
    let last = chars[n - 1];
    if first == '"' && last == '"' {
        unescape_range(&chars, 1, n - 1)
    } else if first == '`' && last == '`' {
        Some(string_range(&chars, 1, n - 1))
    } else {
        None
    }
}

} // verus!
