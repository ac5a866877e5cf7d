//! Text helpers: characters of a string, decimal notation and positional
//! substitution of `{}` placeholders.

use vstd::prelude::*;

verus! {

/// `String::push` of the standard library: the string afterwards is the
/// string before with `ch` appended as its last character.
pub assume_specification[ std::string::String::push ](s: &mut std::string::String, ch: char)
    ensures
        final(s)@ == old(s)@.push(ch),
;

/// The characters of `s`, in order.
pub fn chars_of(s: &str) -> (chars: Vec<char>)
    ensures
        chars@ == s@,
{
    let mut chars: Vec<char> = Vec::new();
    for c in it: s.chars()
        invariant
            chars@ == it.seq().take(it.index() as int),
            it.seq() == s@,
    {
        chars.push(c);
    }
    chars
}

/// Appends the characters `chars[from..to]` to `s`.
pub fn push_chars(s: &mut String, chars: &Vec<char>, from: usize, to: usize)
    requires
        from <= to <= chars.len(),
    ensures
        final(s)@ == old(s)@ + chars@.subrange(from as int, to as int),
{
    let mut i: usize = from;
    while i < to
        invariant
            from <= i <= to <= chars.len(),
            s@ == old(s)@ + chars@.subrange(from as int, i as int),
        decreases to - i,
    {
        s.push(chars[i]);
        i += 1;
    }
}

/// The string made of the characters `chars[from..to]`.
pub fn string_of(chars: &Vec<char>, from: usize, to: usize) -> (s: String)
    requires
        from <= to <= chars.len(),
    ensures
        s@ == chars@.subrange(from as int, to as int),
{
    let mut s = String::new();
    push_chars(&mut s, chars, from, to);
    s
}

/// The decimal digit for `d`, which is below ten.
pub open spec fn digit(d: nat) -> char {
    if d == 0 {
        '0'
    } else if d == 1 {
        '1'
    } else if d == 2 {
        '2'
    } else if d == 3 {
        '3'
    } else if d == 4 {
        '4'
    } else if d == 5 {
        '5'
    } else if d == 6 {
        '6'
    } else if d == 7 {
        '7'
    } else if d == 8 {
        '8'
    } else {
        '9'
    }
}

/// Decimal notation of a natural number, without leading zeros.
pub open spec fn decimal(n: nat) -> Seq<char>
    decreases n,
{
    if n < 10 {
        seq![digit(n)]
    } else {
        decimal(n / 10).push(digit(n % 10))
    }
}

/// Decimal notation of an integer, with a minus sign where it is negative.
pub open spec fn signed_decimal(i: int) -> Seq<char> {
    if i < 0 {
        seq!['-'] + decimal((-i) as nat)
    } else {
        decimal(i as nat)
    }
}

/// The decimal digit for `d`.
fn digit_of(d: u64) -> (c: char)
    requires
        d < 10,
    ensures
        c == digit(d as nat),
{
    if d == 0 {
        '0'
    } else if d == 1 {
        '1'
    } else if d == 2 {
        '2'
    } else if d == 3 {
        '3'
    } else if d == 4 {
        '4'
    } else if d == 5 {
        '5'
    } else if d == 6 {
        '6'
    } else if d == 7 {
        '7'
    } else if d == 8 {
        '8'
    } else {
        '9'
    }
}

/// Appends the decimal notation of `n` to `s`.
pub fn push_decimal(s: &mut String, n: u64)
    ensures
        final(s)@ == old(s)@ + decimal(n as nat),
    decreases n,
{
    if n >= 10 {
        push_decimal(s, n / 10);
    }
    s.push(digit_of(n % 10));
}

/// Appends the decimal notation of `i` to `s`.
pub fn push_signed_decimal(s: &mut String, i: i64)
    ensures
        final(s)@ == old(s)@ + signed_decimal(i as int),
{
    if i < 0 {
        s.push('-');
        let magnitude: u64 = ((-(i + 1)) as u64) + 1;
        push_decimal(s, magnitude);
    } else {
        push_decimal(s, i as u64);
    }
}

/// Positional substitution: each `{}` of `format`, from the left, is replaced
/// by the next of `arguments`. Placeholders beyond the arguments stay as
/// written, and arguments beyond the placeholders are not used.
pub open spec fn substitute(format: Seq<char>, arguments: Seq<Seq<char>>) -> Seq<char>
    decreases format.len(),
{
    if format.len() == 0 {
        Seq::empty()
    } else if arguments.len() > 0 && format.len() >= 2 && format[0] == '{' && format[1] == '}' {
        arguments[0] + substitute(format.skip(2), arguments.skip(1))
    } else {
        seq![format[0]] + substitute(format.skip(1), arguments)
    }
}

/// The character sequences of a sequence of strings.
pub open spec fn texts(strings: Seq<String>) -> Seq<Seq<char>> {
    strings.map_values(|s: String| s@)
}

/// Substitutes `arguments` for the placeholders of `format`.
pub fn substitute_placeholders(format: &str, arguments: &Vec<String>) -> (out: String)
    ensures
        out@ == substitute(format@, texts(arguments@)),
{
    let chars = chars_of(format);
    let mut out = String::new();
    let mut i: usize = 0;
    let mut next: usize = 0;
    proof {
        assert(chars@.skip(0) == chars@);
        assert(texts(arguments@).skip(0) == texts(arguments@));
    }
    while i < chars.len()
        invariant
            i <= chars.len(),
            next <= arguments.len(),
            chars@ == format@,
            out@ + substitute(chars@.skip(i as int), texts(arguments@).skip(next as int))
                == substitute(format@, texts(arguments@)),
        decreases chars.len() - i,
    {
        let ghost rest = chars@.skip(i as int);
        let ghost args = texts(arguments@).skip(next as int);
        if next < arguments.len() && chars[i] == '{' && i + 1 < chars.len() && chars[i + 1]
            == '}' {
            out.append(arguments[next].as_str());
            proof {
                assert(rest.skip(2) == chars@.skip(i as int + 2));
                assert(args.skip(1) == texts(arguments@).skip(next as int + 1));
            }
            i += 2;
            next += 1;
        } else {
            out.push(chars[i]);
            proof {
                assert(rest.skip(1) == chars@.skip(i as int + 1));
            }
            i += 1;
        }
    }
    out
}

/// The character that an escape sequence stands for, given the character
/// after the backslash.
pub open spec fn escaped(c: char) -> char {
    if c == 'n' {
        '\n'
    } else if c == 't' {
        '\t'
    } else if c == 'r' {
        '\r'
    } else if c == '0' {
        '\0'
    } else {
        c
    }
}

/// Text with its escape sequences replaced: a backslash and the character
/// after it stand for one character. A backslash at the very end stays.
pub open spec fn unescape(s: Seq<char>) -> Seq<char>
    decreases s.len(),
{
    if s.len() == 0 {
        Seq::empty()
    } else if s[0] == '\\' && s.len() >= 2 {
        seq![escaped(s[1])] + unescape(s.skip(2))
    } else {
        seq![s[0]] + unescape(s.skip(1))
    }
}

/// The text that a string literal denotes: the literal without its
/// surrounding quotes, where it has them, and with its escape sequences
/// replaced.
pub open spec fn unquote(raw: Seq<char>) -> Seq<char> {
    if raw.len() >= 2 && raw[0] == '"' && raw[raw.len() - 1] == '"' {
        unescape(raw.subrange(1, raw.len() - 1))
    } else {
        unescape(raw)
    }
}

/// The character that an escape sequence stands for.
fn escaped_char(c: char) -> (r: char)
    ensures
        r == escaped(c),
{
    if c == 'n' {
        '\n'
    } else if c == 't' {
        '\t'
    } else if c == 'r' {
        '\r'
    } else if c == '0' {
        '\0'
    } else {
        c
    }
}

/// The text that the string literal `raw` denotes.
pub fn unquote_literal(raw: &str) -> (text: String)
    ensures
        text@ == unquote(raw@),
{
    let chars = chars_of(raw);
    let n = chars.len();
    let quoted = n >= 2 && chars[0] == '"' && chars[n - 1] == '"';
    let start: usize = if quoted {
        1
    } else {
        0
    };
    let end: usize = if quoted {
        n - 1
    } else {
        n
    };
    let ghost inner = chars@.subrange(start as int, end as int);
    let mut text = String::new();
    let mut i: usize = start;
    proof {
        assert(inner.skip(0) == inner);
        assert(chars@.subrange(0, n as int) == chars@);
    }
    while i < end
        invariant
            start <= i <= end <= n,
            n == chars.len(),
            inner == chars@.subrange(start as int, end as int),
            text@ + unescape(inner.skip(i - start)) == unescape(inner),
        decreases end - i,
    {
        let ghost rest = inner.skip(i - start);
        if chars[i] == '\\' && i + 1 < end {
            text.push(escaped_char(chars[i + 1]));
            proof {
                assert(rest.skip(2) == inner.skip(i - start + 2));
            }
            i += 2;
        } else {
            text.push(chars[i]);
            proof {
                assert(rest.skip(1) == inner.skip(i - start + 1));
            }
            i += 1;
        }
    }
    text
}

/// Whether `s` holds a placeholder `{}`.
pub open spec fn has_placeholder(s: Seq<char>) -> bool {
    exists|at: int| 0 <= at && at + 1 < s.len() && s[at] == '{' && #[trigger] s[at + 1] == '}'
}

/// Whether `s` holds a placeholder `{}`.
pub fn contains_placeholder(s: &str) -> (found: bool)
    ensures
        found == has_placeholder(s@),
{
    let chars = chars_of(s);
    let n = chars.len();
    if n < 2 {
        return false;
    }
    let mut i: usize = 0;
    while i < n - 1
        invariant
            chars@ == s@,
            n == chars.len(),
            n >= 2,
            i <= n - 1,
            forall|at: int| 0 <= at < i ==> !(chars@[at] == '{' && #[trigger] chars@[at + 1] == '}'),
        decreases n - i,
    {
        if chars[i] == '{' && chars[i + 1] == '}' {
            return true;
        }
        i += 1;
    }
    false
}

} // verus!
