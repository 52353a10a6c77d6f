use vstd::prelude::*;
use vstd::string::*;
use vstd::utf8::*;

verus! {

/// Whether two string slices hold the same characters.
pub fn str_eq(a: &str, b: &str) -> (r: bool)
    ensures
        r == (a@ == b@),
{
    let x = a.as_bytes();
    let y = b.as_bytes();
    proof {
        // The UTF-8 encoding is injective, so equal bytes mean equal characters.
        encode_utf8_decode_utf8(a@);
        encode_utf8_decode_utf8(b@);
    }
    if x.len() != y.len() {
        return false;
    }
    let mut i: usize = 0;
    while i < x.len()
        invariant
            i <= x@.len(),
            x@.len() == y@.len(),
            x@ == a.spec_bytes(),
            y@ == b.spec_bytes(),
            forall|j: int| 0 <= j < i ==> x@[j] == y@[j],
        decreases x@.len() - i,
    {
        if x[i] != y[i] {
            return false;
        }
        i += 1;
    }
    assert(x@ =~= y@);
    true
}

/// The character of the decimal digit `d`.
pub open spec fn digit_char(d: nat) -> char {
    if d == 0 {
        '0'
    } else if d == 1 {
        '1'
    } else if d == 2 {
        '2'
    } else if d == 3 {
        '3'
    } else if d == 4 {
        '4'
    } else if d == 5 {
        '5'
    } else if d == 6 {
        '6'
    } else if d == 7 {
        '7'
    } else if d == 8 {
        '8'
    } else {
        '9'
    }
}

/// The decimal digits of `n`, most significant first, without leading zeros.
pub open spec fn decimal(n: nat) -> Seq<char>
    decreases n,
{
    if n < 10 {
        seq![digit_char(n)]
    } else {
        decimal(n / 10).push(digit_char(n % 10))
    }
}

/// The decimal text of the integer `n`: a minus sign before the digits of a negative number.
pub open spec fn signed_decimal(n: int) -> Seq<char> {
    if n < 0 {
        seq!['-'] + decimal((-n) as nat)
    } else {
        decimal(n as nat)
    }
}

fn digit_str(d: usize) -> (r: &'static str)
    requires
        d < 10,
    ensures
        r@ == seq![digit_char(d as nat)],
{
    proof {
        reveal_strlit("0");
        reveal_strlit("1");
        reveal_strlit("2");
        reveal_strlit("3");
        reveal_strlit("4");
        reveal_strlit("5");
        reveal_strlit("6");
        reveal_strlit("7");
        reveal_strlit("8");
        reveal_strlit("9");
    }
    let r = if d == 0 {
        "0"
    } else if d == 1 {
        "1"
    } else if d == 2 {
        "2"
    } else if d == 3 {
        "3"
    } else if d == 4 {
        "4"
    } else if d == 5 {
        "5"
    } else if d == 6 {
        "6"
    } else if d == 7 {
        "7"
    } else if d == 8 {
        "8"
    } else {
        "9"
    };
    assert(r@ =~= seq![digit_char(d as nat)]);
    r
}

/// Appends the decimal digits of `n` to `out`.
pub fn push_decimal(out: &mut String, n: usize)
    ensures
        final(out)@ == old(out)@ + decimal(n as nat),
    decreases n,
{
    if n < 10 {
        out.append(digit_str(n));
    } else {
        push_decimal(out, n / 10);
        out.append(digit_str(n % 10));
        assert(out@ =~= old(out)@ + decimal(n as nat));
    }
}

/// The decimal text of `n`.
pub fn decimal_string(n: usize) -> (r: String)
    ensures
        r@ == decimal(n as nat),
{
    let mut out = String::new();
    push_decimal(&mut out, n);
    assert(out@ =~= decimal(n as nat));
    out
}

/// The index of the first `+` or `-` at or after `from`, or the length if there is none.
pub open spec fn separator_index(text: Seq<char>, from: int) -> int
    decreases text.len() - from,
{
    if from < 0 || from >= text.len() {
        text.len() as int
    } else if text[from] == '+' || text[from] == '-' {
        from
    } else {
        separator_index(text, from + 1)
    }
}

/// A name is composite if it joins registers with `+` or `-`, as `bx + si` does.
pub open spec fn is_composite(name: Seq<char>) -> bool {
    separator_index(name, 0) < name.len()
}

/// Finds the first `+` or `-` at or after `from`.
pub fn find_separator(text: &str, from: usize) -> (r: usize)
    requires
        from <= text@.len(),
    ensures
        r == separator_index(text@, from as int),
        from <= r <= text@.len(),
{
    let len = text.unicode_len();
    let mut i: usize = from;
    while i < len
        invariant
            from <= i <= len,
            len == text@.len(),
            separator_index(text@, from as int) == separator_index(text@, i as int),
        decreases len - i,
    {
        let c = text.get_char(i);
        if c == '+' || c == '-' {
            return i;
        }
        i += 1;
    }
    len
}

/// The white space that trimming removes: the characters with the Unicode property
/// `White_Space`.
pub open spec fn is_whitespace(c: char) -> bool {
    let code = c as u32;
    (0x09 <= code <= 0x0D) || code == 0x20 || code == 0x85 || code == 0xA0 || code == 0x1680 || (
    0x2000 <= code <= 0x200A) || code == 0x2028 || code == 0x2029 || code == 0x202F || code
        == 0x205F || code == 0x3000
}

fn char_is_whitespace(c: char) -> (r: bool)
    ensures
        r == is_whitespace(c),
{
    let code = c as u32;
    (0x09 <= code && code <= 0x0D) || code == 0x20 || code == 0x85 || code == 0xA0 || code
        == 0x1680 || (0x2000 <= code && code <= 0x200A) || code == 0x2028 || code == 0x2029
        || code == 0x202F || code == 0x205F || code == 0x3000
}

/// The index of the first character of `text[from..to]` that is no white space, or `to`.
pub open spec fn trim_start(text: Seq<char>, from: int, to: int) -> int
    decreases to - from,
{
    if from < to && is_whitespace(text[from]) {
        trim_start(text, from + 1, to)
    } else {
        from
    }
}

/// The index after the last character of `text[from..to]` that is no white space, or `from`.
pub open spec fn trim_end(text: Seq<char>, from: int, to: int) -> int
    decreases to - from,
{
    if from < to && is_whitespace(text[to - 1]) {
        trim_end(text, from, to - 1)
    } else {
        to
    }
}

/// The part `text[from..to]` without the white space at its two ends.
pub open spec fn trimmed(text: Seq<char>, from: int, to: int) -> Seq<char> {
    let start = trim_start(text, from, to);
    text.subrange(start, trim_end(text, start, to))
}

/// The part of `text` between `from` and `to`, without the white space at its two ends.
pub fn trimmed_part<'a>(text: &'a str, from: usize, to: usize) -> (r: &'a str)
    requires
        from <= to <= text@.len(),
    ensures
        r@ == trimmed(text@, from as int, to as int),
{
    let mut start: usize = from;
    while start < to && char_is_whitespace(text.get_char(start))
        invariant
            from <= start <= to <= text@.len(),
            trim_start(text@, from as int, to as int) == trim_start(text@, start as int, to as int),
        decreases to - start,
    {
        start += 1;
    }
    let mut end: usize = to;
    while start < end && char_is_whitespace(text.get_char(end - 1))
        invariant
            start <= end <= to <= text@.len(),
            trim_end(text@, start as int, to as int) == trim_end(text@, start as int, end as int),
        decreases end - start,
    {
        end -= 1;
    }
    text.substring_char(start, end)
}

/// Whether `text` holds the character `c`.
pub fn contains_char(text: &str, c: char) -> (r: bool)
    ensures
        r == text@.contains(c),
{
    let len = text.unicode_len();
    let mut i: usize = 0;
    while i < len
        invariant
            i <= len,
            len == text@.len(),
            forall|k: int| 0 <= k < i ==> text@[k] != c,
        decreases len - i,
    {
        if text.get_char(i) == c {
            return true;
        }
        i += 1;
    }
    false
}

} // verus!
