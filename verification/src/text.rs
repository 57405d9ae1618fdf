//! Characters and strings: whitespace, indentation, display width, decimal
//! numerals and page-title escaping.

use vstd::prelude::*;
use vstd::string::*;
use vstd::utf8::*;

verus! {

/// `String::push` of the standard library appends one character to the end
/// of the string and changes nothing else.
pub assume_specification[ String::push ](s: &mut String, c: char)
    ensures
        final(s)@ == old(s)@.push(c),
;

/// Whether `c` carries the Unicode `White_Space` property.
pub open spec fn is_whitespace(c: char) -> bool {
    let n = c as u32;
    ||| 0x09 <= n <= 0x0D
    ||| n == 0x20
    ||| n == 0x85
    ||| n == 0xA0
    ||| n == 0x1680
    ||| 0x2000 <= n <= 0x200A
    ||| n == 0x2028
    ||| n == 0x2029
    ||| n == 0x202F
    ||| n == 0x205F
    ||| n == 0x3000
}

/// Decides `is_whitespace` for one character.
pub fn char_is_whitespace(c: char) -> (r: bool)
    ensures
        r == is_whitespace(c),
{
    let n: u32 = c as u32;
    (0x09 <= n && n <= 0x0D) || n == 0x20 || n == 0x85 || n == 0xA0 || n == 0x1680 || (0x2000 <= n
        && n <= 0x200A) || n == 0x2028 || n == 0x2029 || n == 0x202F || n == 0x205F || n == 0x3000
}

/// Every character of `s` is whitespace; true of the empty sequence.
pub open spec fn all_whitespace(s: Seq<char>) -> bool {
    forall|i: int| 0 <= i < s.len() ==> is_whitespace(#[trigger] s[i])
}

/// `n` is the length of the whitespace run that `s` starts with.
pub open spec fn is_leading_run(s: Seq<char>, n: int) -> bool {
    &&& 0 <= n <= s.len()
    &&& forall|i: int| 0 <= i < n ==> is_whitespace(#[trigger] s[i])
    &&& n < s.len() ==> !is_whitespace(s[n])
}

/// `n` is the length of the whitespace run that `s` ends with.
pub open spec fn is_trailing_run(s: Seq<char>, n: int) -> bool {
    &&& 0 <= n <= s.len()
    &&& forall|i: int| s.len() - n <= i < s.len() ==> is_whitespace(#[trigger] s[i])
    &&& n < s.len() ==> !is_whitespace(s[s.len() - n - 1])
}

/// Length of the whitespace run that `s` starts with.
pub open spec fn leading_whitespace(s: Seq<char>) -> nat
    decreases s.len(),
{
    if s.len() > 0 && is_whitespace(s[0]) {
        1 + leading_whitespace(s.drop_first())
    } else {
        0
    }
}

/// Length of the whitespace run that `s` ends with.
pub open spec fn trailing_whitespace(s: Seq<char>) -> nat
    decreases s.len(),
{
    if s.len() > 0 && is_whitespace(s.last()) {
        1 + trailing_whitespace(s.drop_last())
    } else {
        0
    }
}

/// `leading_whitespace` is the one length that `is_leading_run` accepts.
pub proof fn lemma_leading_run(s: Seq<char>, n: int)
    requires
        is_leading_run(s, n),
    ensures
        leading_whitespace(s) == n,
    decreases s.len(),
{
    if n > 0 {
        let t = s.drop_first();
        assert forall|i: int| 0 <= i < n - 1 implies is_whitespace(#[trigger] t[i]) by {
            assert(t[i] == s[i + 1]);
        }
        if n - 1 < t.len() {
            assert(t[n - 1] == s[n]);
        }
        lemma_leading_run(t, n - 1);
    }
}

/// `trailing_whitespace` is the one length that `is_trailing_run` accepts.
pub proof fn lemma_trailing_run(s: Seq<char>, n: int)
    requires
        is_trailing_run(s, n),
    ensures
        trailing_whitespace(s) == n,
    decreases s.len(),
{
    if n > 0 {
        let t = s.drop_last();
        assert(is_whitespace(s[s.len() - 1]));
        assert forall|i: int| t.len() - (n - 1) <= i < t.len() implies is_whitespace(
            #[trigger] t[i],
        ) by {
            assert(t[i] == s[i]);
        }
        if n - 1 < t.len() {
            assert(t[t.len() - (n - 1) - 1] == s[s.len() - n - 1]);
        }
        lemma_trailing_run(t, n - 1);
    }
}

/// The characters of `s`, one by one.
pub fn chars_of(s: &str) -> (v: Vec<char>)
    ensures
        v@ == s@,
{
    let mut v: Vec<char> = Vec::new();
    for c in it: s.chars()
        invariant
            v@ == it.seq().take(it.index() as int),
            it.seq() == s@,
    {
        v.push(c);
    }
    v
}

/// The string made of `v[from..to]`.
pub fn string_of_range(v: &Vec<char>, from: usize, to: usize) -> (s: String)
    requires
        from <= to <= v.len(),
    ensures
        s@ == v@.subrange(from as int, to as int),
{
    let mut s = String::new();
    let mut i: usize = from;
    while i < to
        invariant
            from <= i <= to <= v.len(),
            s@ == v@.subrange(from as int, i as int),
        decreases to - i,
    {
        s.push(v[i]);
        assert(v@.subrange(from as int, i as int).push(v@[i as int]) == v@.subrange(
            from as int,
            i + 1,
        ));
        i = i + 1;
    }
    s
}

/// `n` copies of `c`.
pub open spec fn repeated(c: char, n: nat) -> Seq<char> {
    Seq::new(n, |i: int| c)
}

/// Builds `repeated(c, n)`.
pub fn repeat_char(c: char, n: usize) -> (s: String)
    ensures
        s@ == repeated(c, n as nat),
{
    let mut s = String::new();
    let mut i: usize = 0;
    while i < n
        invariant
            i <= n,
            s@ == repeated(c, i as nat),
        decreases n - i,
    {
        s.push(c);
        assert(repeated(c, i as nat).push(c) == repeated(c, (i + 1) as nat));
        i = i + 1;
    }
    s
}

/// Two spaces for each level of nesting.
pub open spec fn indent(depth: nat) -> Seq<char> {
    repeated(' ', 2 * depth)
}

/// One more level of nesting adds two spaces at the end.
pub proof fn lemma_indent_step(depth: nat)
    ensures
        indent(depth + 1) == indent(depth) + seq![' ', ' '],
        indent(depth + 1) == indent(depth) + "  "@,
        indent(0) == Seq::<char>::empty(),
{
    reveal_strlit("  ");
    assert("  "@ =~= seq![' ', ' ']);
    assert(indent(depth + 1) =~= indent(depth) + seq![' ', ' ']);
    assert(indent(0) =~= Seq::<char>::empty());
}

/// Builds `indent(depth)`.
pub fn indent_string(depth: usize) -> (s: String)
    ensures
        s@ == indent(depth as nat),
{
    let mut s = String::new();
    let mut i: usize = 0;
    proof {
        lemma_indent_step(0);
        reveal_strlit("  ");
    }
    while i < depth
        invariant
            i <= depth,
            s@ == indent(i as nat),
            "  "@ == seq![' ', ' '],
        decreases depth - i,
    {
        s.append("  ");
        proof {
            lemma_indent_step(i as nat);
        }
        i = i + 1;
    }
    s
}

/// Columns that `c` takes in a text grid: one if ASCII, two if not.
pub open spec fn char_width(c: char) -> nat {
    if (c as u32) < 0x80 {
        1
    } else {
        2
    }
}

/// Columns that `s` takes in a text grid.
pub open spec fn display_width(s: Seq<char>) -> nat
    decreases s.len(),
{
    if s.len() == 0 {
        0
    } else {
        char_width(s[0]) + display_width(s.drop_first())
    }
}

/// A string is never wider than its UTF-8 encoding is long.
pub proof fn lemma_width_within_encoding(s: Seq<char>)
    ensures
        display_width(s) <= encode_utf8(s).len(),
    decreases s.len(),
{
    if s.len() > 0 {
        lemma_width_within_encoding(s.drop_first());
        let c = s[0] as u32;
        assert(c < 0x80 ==> has_width_1_encoding(c));
        assert(encode_scalar(c).len() >= char_width(s[0]));
    }
}

/// A suffix is never wider than the whole.
pub proof fn lemma_width_of_suffix(s: Seq<char>, i: int)
    requires
        0 <= i <= s.len(),
    ensures
        display_width(s.skip(i)) <= display_width(s),
    decreases i,
{
    if i == 0 {
        assert(s.skip(0) == s);
    } else {
        lemma_width_of_suffix(s.drop_first(), i - 1);
        assert(s.drop_first().skip(i - 1) == s.skip(i));
    }
}

/// The width of two strings, one after the other, is the sum of their widths.
pub proof fn lemma_width_of_concat(a: Seq<char>, b: Seq<char>)
    ensures
        display_width(a + b) == display_width(a) + display_width(b),
    decreases a.len(),
{
    if a.len() == 0 {
        assert(a + b == b);
    } else {
        lemma_width_of_concat(a.drop_first(), b);
        assert((a + b).drop_first() == a.drop_first() + b);
    }
}

/// `n` ASCII characters are `n` columns wide.
pub proof fn lemma_width_of_repeated_ascii(c: char, n: nat)
    requires
        (c as u32) < 0x80,
    ensures
        display_width(repeated(c, n)) == n,
    decreases n,
{
    if n > 0 {
        lemma_width_of_repeated_ascii(c, (n - 1) as nat);
        assert(repeated(c, n).drop_first() == repeated(c, (n - 1) as nat));
    }
}

/// Computes `display_width`.
pub fn width_of(s: &str) -> (w: usize)
    ensures
        w == display_width(s@),
{
    let v = chars_of(s);
    let bytes = s.as_bytes();
    let limit: usize = bytes.len();
    proof {
        lemma_width_within_encoding(s@);
    }
    let mut w: usize = 0;
    let mut i: usize = v.len();
    while i > 0
        invariant
            i <= v.len(),
            v@ == s@,
            w == display_width(v@.skip(i as int)),
            display_width(s@) <= limit,
        decreases i,
    {
        proof {
            lemma_width_of_suffix(v@, i - 1);
            assert(v@.skip(i - 1).drop_first() == v@.skip(i as int));
        }
        let c: char = v[i - 1];
        if (c as u32) < 0x80 {
            w = w + 1;
        } else {
            w = w + 2;
        }
        i = i - 1;
    }
    assert(v@.skip(0) == v@);
    w
}

/// The character for one decimal digit.
pub open spec fn digit_char(d: nat) -> char {
    if d == 0 {
        '0'
    } else if d == 1 {
        '1'
    } else if d == 2 {
        '2'
    } else if d == 3 {
        '3'
    } else if d == 4 {
        '4'
    } else if d == 5 {
        '5'
    } else if d == 6 {
        '6'
    } else if d == 7 {
        '7'
    } else if d == 8 {
        '8'
    } else {
        '9'
    }
}

/// The decimal numeral of `n`, without leading zeros.
pub open spec fn decimal(n: nat) -> Seq<char>
    decreases n,
{
    if n < 10 {
        seq![digit_char(n)]
    } else {
        decimal(n / 10).push(digit_char(n % 10))
    }
}

fn digit_of(d: usize) -> (c: char)
    requires
        d < 10,
    ensures
        c == digit_char(d as nat),
{
    if d == 0 {
        '0'
    } else if d == 1 {
        '1'
    } else if d == 2 {
        '2'
    } else if d == 3 {
        '3'
    } else if d == 4 {
        '4'
    } else if d == 5 {
        '5'
    } else if d == 6 {
        '6'
    } else if d == 7 {
        '7'
    } else if d == 8 {
        '8'
    } else {
        '9'
    }
}

/// Writes `n` as a decimal numeral.
pub fn decimal_string(n: usize) -> (s: String)
    ensures
        s@ == decimal(n as nat),
    decreases n,
{
    if n < 10 {
        let mut s = String::new();
        s.push(digit_of(n));
        assert(Seq::<char>::empty().push(digit_char(n as nat)) == seq![digit_char(n as nat)]);
        s
    } else {
        let mut s = decimal_string(n / 10);
        s.push(digit_of(n % 10));
        s
    }
}

/// A page title with every whitespace character and every zero-width space
/// (U+200B) replaced by an underscore.
pub open spec fn escaped_title(title: Seq<char>) -> Seq<char> {
    Seq::new(
        title.len(),
        |i: int|
            if is_whitespace(title[i]) || title[i] == '\u{200B}' {
                '_'
            } else {
                title[i]
            },
    )
}

/// Makes a page title usable as a file name: see `escaped_title`.
pub fn escape_page_title(title: &str) -> (r: String)
    ensures
        r@ == escaped_title(title@),
{
    let v = chars_of(title);
    let mut r = String::new();
    let mut i: usize = 0;
    while i < v.len()
        invariant
            i <= v.len(),
            v@ == title@,
            r@ == escaped_title(title@).take(i as int),
        decreases v.len() - i,
    {
        let c: char = v[i];
        if char_is_whitespace(c) || c == '\u{200B}' {
            r.push('_');
        } else {
            r.push(c);
        }
        assert(escaped_title(title@).take(i as int).push(escaped_title(title@)[i as int])
            == escaped_title(title@).take(i + 1));
        i = i + 1;
    }
    assert(escaped_title(title@).take(v.len() as int) == escaped_title(title@));
    r
}

/// What an optional string holds.
pub open spec fn optional_text(o: Option<String>) -> Option<Seq<char>> {
    match o {
        Some(s) => Some(s@),
        None => None,
    }
}

/// Whether two strings hold the same characters.
pub fn text_eq(a: &str, b: &str) -> (r: bool)
    ensures
        r == (a@ == b@),
{
    let x = chars_of(a);
    let y = chars_of(b);
    if x.len() != y.len() {
        return false;
    }
    let mut i: usize = 0;
    while i < x.len()
        invariant
            i <= x.len() == y.len(),
            x@ == a@,
            y@ == b@,
            forall|k: int| 0 <= k < i ==> x@[k] == y@[k],
        decreases x.len() - i,
    {
        if x[i] != y[i] {
            return false;
        }
        i = i + 1;
    }
    assert(a@ =~= b@);
    true
}

/// The number that a decimal digit stands for.
pub open spec fn digit_value(c: char) -> Option<nat> {
    if c == '0' {
        Some(0)
    } else if c == '1' {
        Some(1)
    } else if c == '2' {
        Some(2)
    } else if c == '3' {
        Some(3)
    } else if c == '4' {
        Some(4)
    } else if c == '5' {
        Some(5)
    } else if c == '6' {
        Some(6)
    } else if c == '7' {
        Some(7)
    } else if c == '8' {
        Some(8)
    } else if c == '9' {
        Some(9)
    } else {
        None
    }
}

/// The number that a run of decimal digits stands for; `None` where there
/// is no digit or something that is no digit.
pub open spec fn decimal_value(s: Seq<char>) -> Option<nat>
    decreases s.len(),
{
    if s.len() == 0 {
        None
    } else if s.len() == 1 {
        digit_value(s[0])
    } else {
        match (decimal_value(s.drop_last()), digit_value(s.last())) {
            (Some(high), Some(low)) => Some(high * 10 + low),
            _ => None,
        }
    }
}

fn value_of_digit(c: char) -> (r: Option<usize>)
    ensures
        r is Some == digit_value(c) is Some,
        r is Some ==> r->0 == digit_value(c)->0 && r->0 < 10,
{
    if c == '0' {
        Some(0)
    } else if c == '1' {
        Some(1)
    } else if c == '2' {
        Some(2)
    } else if c == '3' {
        Some(3)
    } else if c == '4' {
        Some(4)
    } else if c == '5' {
        Some(5)
    } else if c == '6' {
        Some(6)
    } else if c == '7' {
        Some(7)
    } else if c == '8' {
        Some(8)
    } else if c == '9' {
        Some(9)
    } else {
        None
    }
}

proof fn lemma_decimal_value_grows(s: Seq<char>, n: int)
    requires
        0 < n <= s.len(),
        decimal_value(s) is Some,
    ensures
        decimal_value(s.take(n)) is Some,
        decimal_value(s.take(n))->0 <= decimal_value(s)->0,
    decreases s.len(),
{
    if n == s.len() {
        assert(s.take(n) == s);
    } else {
        assert(s.drop_last().take(n) == s.take(n));
        lemma_decimal_value_grows(s.drop_last(), n);
    }
}

proof fn lemma_decimal_value_fails(s: Seq<char>, n: int)
    requires
        0 < n <= s.len(),
        decimal_value(s.take(n)) is None,
    ensures
        decimal_value(s) is None,
{
    if decimal_value(s) is Some {
        lemma_decimal_value_grows(s, n);
    }
}

/// Reads a number written in decimal digits. `None` where the text is not
/// such a number, or the number is too large.
pub fn parse_decimal(text: &str) -> (r: Option<usize>)
    ensures
        match r {
            Some(n) => decimal_value(text@) == Some(n as nat),
            None => decimal_value(text@) is None || decimal_value(text@)->0 > usize::MAX,
        },
{
    let v = chars_of(text);
    if v.len() == 0 {
        return None;
    }
    let mut n: usize = 0;
    let mut i: usize = 0;
    while i < v.len()
        invariant
            i <= v.len(),
            v@ == text@,
            v.len() > 0,
            i > 0 ==> decimal_value(v@.take(i as int)) == Some(n as nat),
            i == 0 ==> n == 0,
        decreases v.len() - i,
    {
        proof {
            assert(v@.take(i + 1).drop_last() == v@.take(i as int));
            assert(v@.take(i + 1).last() == v@[i as int]);
        }
        match value_of_digit(v[i]) {
            None => {
                proof {
                    lemma_decimal_value_fails(v@, i + 1);
                }
                return None;
            },
            Some(d) => {
                if n > (usize::MAX - d) / 10 {
                    proof {
                        if decimal_value(v@) is Some {
                            lemma_decimal_value_grows(v@, i + 1);
                            assert(decimal_value(v@.take(i + 1))->0 == n * 10 + d);
                        }
                    }
                    return None;
                }
                n = n * 10 + d;
            },
        }
        i = i + 1;
    }
    assert(v@.take(v.len() as int) == v@);
    Some(n)
}

} // verus!
