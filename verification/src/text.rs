//! Character-level helpers over `&str`, `String` and `Vec<char>`: trimming,
//! prefixes, splitting and decimal numbers, each with its meaning as a
//! function on `Seq<char>`.

use vstd::prelude::*;

verus! {

/// `String::push` appends one character.
pub assume_specification[ String::push ](s: &mut String, c: char)
    ensures
        final(s)@ == old(s)@.push(c),
;

/// Unicode white space: the characters that `trim` and word splitting remove.
pub open spec fn is_space(c: char) -> bool {
    let n = c as u32;
    ||| 0x09 <= n <= 0x0D
    ||| n == 0x20
    ||| n == 0x85
    ||| n == 0xA0
    ||| n == 0x1680
    ||| 0x2000 <= n <= 0x200A
    ||| n == 0x2028
    ||| n == 0x2029
    ||| n == 0x202F
    ||| n == 0x205F
    ||| n == 0x3000
}

pub fn is_whitespace(c: char) -> (r: bool)
    ensures
        r == is_space(c),
{
    let n: u32 = c as u32;
    (0x09 <= n && n <= 0x0D) || n == 0x20 || n == 0x85 || n == 0xA0 || n == 0x1680 || (0x2000 <= n
        && n <= 0x200A) || n == 0x2028 || n == 0x2029 || n == 0x202F || n == 0x205F || n == 0x3000
}

/// The number of white-space characters at the start of `s`.
pub open spec fn leading_spaces(s: Seq<char>) -> nat
    decreases s.len(),
{
    if s.len() > 0 && is_space(s[0]) {
        1 + leading_spaces(s.skip(1))
    } else {
        0
    }
}

/// The number of white-space characters at the end of `s`.
pub open spec fn trailing_spaces(s: Seq<char>) -> nat
    decreases s.len(),
{
    if s.len() > 0 && is_space(s.last()) {
        1 + trailing_spaces(s.drop_last())
    } else {
        0
    }
}

/// `s` without its leading and trailing white space.
pub open spec fn trimmed(s: Seq<char>) -> Seq<char> {
    let rest = s.skip(leading_spaces(s) as int);
    rest.take(rest.len() - trailing_spaces(rest))
}

/// `s` is empty or white space only.
pub open spec fn is_blank(s: Seq<char>) -> bool {
    forall|i: int| 0 <= i < s.len() ==> is_space(#[trigger] s[i])
}

pub proof fn lemma_leading_spaces(s: Seq<char>, n: int)
    requires
        0 <= n <= s.len(),
        forall|i: int| 0 <= i < n ==> is_space(#[trigger] s[i]),
        n == s.len() || !is_space(s[n]),
    ensures
        leading_spaces(s) == n,
    decreases n,
{
    if n > 0 {
        let t = s.skip(1);
        assert forall|i: int| 0 <= i < n - 1 implies is_space(#[trigger] t[i]) by {
            assert(t[i] == s[i + 1]);
        }
        lemma_leading_spaces(t, n - 1);
    }
}

pub proof fn lemma_trailing_spaces(s: Seq<char>, n: int)
    requires
        0 <= n <= s.len(),
        forall|i: int| s.len() - n <= i < s.len() ==> is_space(#[trigger] s[i]),
        n == s.len() || !is_space(s[s.len() - n - 1]),
    ensures
        trailing_spaces(s) == n,
    decreases n,
{
    if n > 0 {
        let t = s.drop_last();
        assert forall|i: int| t.len() - (n - 1) <= i < t.len() implies is_space(
            #[trigger] t[i],
        ) by {
            assert(t[i] == s[i]);
        }
        lemma_trailing_spaces(t, n - 1);
    }
}

/// A blank text trims to nothing, and only a blank text does.
pub proof fn lemma_trimmed_empty(s: Seq<char>)
    ensures
        trimmed(s).len() == 0 <==> is_blank(s),
{
    lemma_trim_bounds(s);
    let a = leading_spaces(s) as int;
    let rest = s.skip(a);
    lemma_trim_bounds(rest);
    if is_blank(s) {
        if a < s.len() {
            assert(is_space(s[a]));
        }
    } else {
        let i = choose|i: int| 0 <= i < s.len() && !is_space(#[trigger] s[i]);
        if trimmed(s).len() == 0 {
            assert(i >= a);
            assert(rest[i - a] == s[i]);
        }
    }
}

/// Where the trimmed part of `s` lies: after the leading white space and
/// before the trailing white space, with no white space at either end.
pub proof fn lemma_trim_bounds(s: Seq<char>)
    ensures
        leading_spaces(s) <= s.len(),
        forall|i: int| 0 <= i < leading_spaces(s) ==> is_space(#[trigger] s[i]),
        leading_spaces(s) < s.len() ==> !is_space(s[leading_spaces(s) as int]),
        trailing_spaces(s) <= s.len(),
        forall|i: int| s.len() - trailing_spaces(s) <= i < s.len() ==> is_space(#[trigger] s[i]),
        trailing_spaces(s) < s.len() ==> !is_space(s[s.len() - trailing_spaces(s) - 1]),
    decreases s.len(),
{
    if s.len() > 0 {
        if is_space(s[0]) {
            let t = s.skip(1);
            lemma_trim_bounds(t);
            assert forall|i: int| 0 <= i < leading_spaces(s) implies is_space(#[trigger] s[i]) by {
                if i > 0 {
                    assert(s[i] == t[i - 1]);
                }
            }
            if leading_spaces(s) < s.len() {
                assert(s[leading_spaces(s) as int] == t[leading_spaces(t) as int]);
            }
        }
        if is_space(s.last()) {
            let t = s.drop_last();
            lemma_trim_bounds(t);
            assert forall|i: int| s.len() - trailing_spaces(s) <= i < s.len() implies is_space(
                #[trigger] s[i],
            ) by {
                if i < s.len() - 1 {
                    assert(s[i] == t[i]);
                }
            }
            if trailing_spaces(s) < s.len() {
                assert(s[s.len() - trailing_spaces(s) - 1] == t[t.len() - trailing_spaces(t) - 1]);
            }
        }
    }
}

/// The characters of `s`, in order.
pub fn to_chars(s: &str) -> (out: Vec<char>)
    ensures
        out@ == s@,
{
    let mut out: Vec<char> = Vec::new();
    for c in it: s.chars()
        invariant
            out@ == it.seq().take(it.index() as int),
            it.seq() == s@,
    {
        out.push(c);
    }
    out
}

/// The text made of `v[from..to]`.
pub fn from_chars(v: &Vec<char>, from: usize, to: usize) -> (out: String)
    requires
        from <= to <= v.len(),
    ensures
        out@ == v@.subrange(from as int, to as int),
{
    let mut out = String::new();
    let mut i: usize = from;
    while i < to
        invariant
            from <= i <= to <= v.len(),
            out@ == v@.subrange(from as int, i as int),
        decreases to - i,
    {
        out.push(v[i]);
        i += 1;
    }
    out
}

/// The bounds of the trimmed part of `v`.
pub fn trim_bounds(v: &Vec<char>) -> (r: (usize, usize))
    ensures
        r.0 <= r.1 <= v.len(),
        v@.subrange(r.0 as int, r.1 as int) == trimmed(v@),
{
    let mut start: usize = 0;
    while start < v.len() && is_whitespace(v[start])
        invariant
            start <= v.len(),
            forall|i: int| 0 <= i < start ==> is_space(#[trigger] v@[i]),
        decreases v.len() - start,
    {
        start += 1;
    }
    let mut end: usize = v.len();
    while end > start && is_whitespace(v[end - 1])
        invariant
            start <= end <= v.len(),
            forall|i: int| end <= i < v.len() ==> is_space(#[trigger] v@[i]),
        decreases end,
    {
        end -= 1;
    }
    proof {
        lemma_leading_spaces(v@, start as int);
        let rest = v@.skip(start as int);
        assert forall|i: int| rest.len() - (v.len() - end) <= i < rest.len() implies is_space(
            #[trigger] rest[i],
        ) by {
            assert(rest[i] == v@[i + start]);
        }
        if end > start {
            assert(rest[rest.len() - (v.len() - end) - 1] == v@[end - 1]);
        }
        lemma_trailing_spaces(rest, v.len() - end);
        assert(rest.take(rest.len() - (v.len() - end)) =~= v@.subrange(start as int, end as int));
    }
    (start, end)
}

/// `s` without its leading and trailing white space.
pub fn trim(s: &str) -> (out: String)
    ensures
        out@ == trimmed(s@),
{
    let v = to_chars(s);
    let (start, end) = trim_bounds(&v);
    from_chars(&v, start, end)
}

/// Whether two texts hold the same characters.
pub fn same_text(a: &str, b: &str) -> (r: bool)
    ensures
        r == (a@ == b@),
{
    let x = to_chars(a);
    let y = to_chars(b);
    same_chars(&x, &y)
}

pub fn same_chars(x: &Vec<char>, y: &Vec<char>) -> (r: bool)
    ensures
        r == (x@ == y@),
{
    if x.len() != y.len() {
        return false;
    }
    let mut i: usize = 0;
    while i < x.len()
        invariant
            i <= x.len() == y.len(),
            forall|k: int| 0 <= k < i ==> x@[k] == y@[k],
        decreases x.len() - i,
    {
        if x[i] != y[i] {
            return false;
        }
        i += 1;
    }
    assert(x@ =~= y@);
    true
}

/// Whether `text[at..]` begins with `prefix`.
pub fn has_prefix_at(text: &Vec<char>, at: usize, prefix: &Vec<char>) -> (r: bool)
    requires
        at <= text.len(),
    ensures
        r == prefix@.is_prefix_of(text@.skip(at as int)),
{
    if prefix.len() > text.len() - at {
        return false;
    }
    let mut i: usize = 0;
    while i < prefix.len()
        invariant
            i <= prefix.len() <= text.len() - at,
            at <= text.len(),
            forall|k: int| 0 <= k < i ==> prefix@[k] == text@[at + k],
        decreases prefix.len() - i,
    {
        if prefix[i] != text[at + i] {
            assert(text@.skip(at as int)[i as int] == text@[at + i]);
            return false;
        }
        i += 1;
    }
    assert(prefix@ =~= text@.skip(at as int).subrange(0, prefix.len() as int));
    true
}

/// Whether `s` begins with `prefix`.
pub fn starts_with(s: &str, prefix: &str) -> (r: bool)
    ensures
        r == prefix@.is_prefix_of(s@),
{
    let text = to_chars(s);
    let p = to_chars(prefix);
    assert(text@.skip(0) =~= text@);
    has_prefix_at(&text, 0, &p)
}

/// `s` without the carriage returns and line feeds at its end.
pub open spec fn without_line_ending(s: Seq<char>) -> Seq<char>
    decreases s.len(),
{
    if s.len() > 0 && (s.last() == '\r' || s.last() == '\n') {
        without_line_ending(s.drop_last())
    } else {
        s
    }
}

/// The length of `v` without the carriage returns and line feeds at its end.
pub fn line_end(v: &Vec<char>) -> (end: usize)
    ensures
        end <= v.len(),
        v@.take(end as int) == without_line_ending(v@),
{
    let mut end: usize = v.len();
    assert(v@.take(end as int) =~= v@);
    while end > 0 && (v[end - 1] == '\r' || v[end - 1] == '\n')
        invariant
            end <= v.len(),
            without_line_ending(v@.take(end as int)) == without_line_ending(v@),
        decreases end,
    {
        assert(v@.take(end as int).drop_last() =~= v@.take(end - 1));
        end -= 1;
    }
    end
}

/// The first index at which `c` stands in `s`, or the length of `s`.
pub open spec fn first_index(s: Seq<char>, c: char) -> int
    decreases s.len(),
{
    if s.len() == 0 || s[0] == c {
        0
    } else {
        1 + first_index(s.skip(1), c)
    }
}

pub proof fn lemma_first_index(s: Seq<char>, c: char, n: int)
    requires
        0 <= n <= s.len(),
        forall|i: int| 0 <= i < n ==> #[trigger] s[i] != c,
        n == s.len() || s[n] == c,
    ensures
        first_index(s, c) == n,
    decreases n,
{
    if n > 0 {
        let t = s.skip(1);
        assert forall|i: int| 0 <= i < n - 1 implies #[trigger] t[i] != c by {
            assert(t[i] == s[i + 1]);
        }
        lemma_first_index(t, c, n - 1);
    }
}

/// The fields of `s` between the occurrences of `sep`: one more than there
/// are separators.
pub open spec fn split(s: Seq<char>, sep: char) -> Seq<Seq<char>>
    decreases s.len(),
{
    let i = first_index(s, sep);
    if 0 <= i < s.len() {
        seq![s.take(i)] + split(s.skip(i + 1), sep)
    } else {
        seq![s]
    }
}

/// The fields of `v` between the occurrences of `sep`.
pub fn split_chars(v: &Vec<char>, sep: char) -> (out: Vec<Vec<char>>)
    ensures
        out.deep_view() == split(v@, sep),
{
    let mut out: Vec<Vec<char>> = Vec::new();
    let mut cur: Vec<char> = Vec::new();
    let mut i: usize = 0;
    let ghost start: int = 0;
    assert(v@.skip(0) =~= v@);
    assert(out.deep_view() =~= Seq::<Seq<char>>::empty());
    while i < v.len()
        invariant
            0 <= start <= i <= v.len(),
            cur@ == v@.subrange(start, i as int),
            forall|k: int| start <= k < i ==> #[trigger] v@[k] != sep,
            split(v@, sep) == out.deep_view() + split(v@.skip(start), sep),
        decreases v.len() - i,
    {
        if v[i] == sep {
            proof {
                let rest = v@.skip(start);
                assert forall|k: int| 0 <= k < i - start implies #[trigger] rest[k] != sep by {
                    assert(rest[k] == v@[start + k]);
                }
                lemma_first_index(rest, sep, i - start);
                assert(rest.take(i - start) =~= cur@);
                assert(rest.skip(i - start + 1) =~= v@.skip(i + 1));
                assert(out.deep_view().push(cur@) =~= out.deep_view() + seq![cur@]);
                assert(out@.push(cur).map_values(|x: Vec<char>| x.deep_view()) =~= out@.map_values(
                    |x: Vec<char>| x.deep_view(),
                ).push(cur.deep_view()));
                assert(cur.deep_view() =~= cur@);
                start = i + 1;
            }
            out.push(cur);
            cur = Vec::new();
        } else {
            cur.push(v[i]);
        }
        i += 1;
        assert(cur@ =~= v@.subrange(start, i as int));
    }
    proof {
        let rest = v@.skip(start);
        assert forall|k: int| 0 <= k < rest.len() implies #[trigger] rest[k] != sep by {
            assert(rest[k] == v@[start + k]);
        }
        lemma_first_index(rest, sep, rest.len() as int);
        assert(rest =~= cur@);
        assert(out@.push(cur).map_values(|x: Vec<char>| x.deep_view()) =~= out@.map_values(
            |x: Vec<char>| x.deep_view(),
        ).push(cur.deep_view()));
        assert(cur.deep_view() =~= cur@);
        assert(out.deep_view().push(cur@) =~= out.deep_view() + seq![cur@]);
    }
    out.push(cur);
    out
}

/// The character that writes the digit `d`.
pub open spec fn digit_char(d: nat) -> char {
    if d == 0 {
        '0'
    } else if d == 1 {
        '1'
    } else if d == 2 {
        '2'
    } else if d == 3 {
        '3'
    } else if d == 4 {
        '4'
    } else if d == 5 {
        '5'
    } else if d == 6 {
        '6'
    } else if d == 7 {
        '7'
    } else if d == 8 {
        '8'
    } else {
        '9'
    }
}

/// `n` written in decimal, without sign or leading zeros.
pub open spec fn decimal(n: nat) -> Seq<char>
    decreases n,
{
    if n < 10 {
        seq![digit_char(n)]
    } else {
        decimal(n / 10).push(digit_char(n % 10))
    }
}

pub open spec fn is_digit(c: char) -> bool {
    '0' <= c <= '9'
}

/// The digit that `c` writes.
pub open spec fn digit_value(c: char) -> nat
    recommends
        is_digit(c),
{
    (c as u32 - '0' as u32) as nat
}

pub open spec fn all_digits(s: Seq<char>) -> bool {
    forall|i: int| 0 <= i < s.len() ==> is_digit(#[trigger] s[i])
}

/// The number that the decimal digits `s` write.
pub open spec fn digits_value(s: Seq<char>) -> nat
    decreases s.len(),
{
    if s.len() == 0 {
        0
    } else {
        digits_value(s.drop_last()) * 10 + digit_value(s.last())
    }
}

/// `s` without the one `+` that may stand before the digits of a number.
pub open spec fn unsigned_body(s: Seq<char>) -> Seq<char> {
    if s.len() > 0 && s[0] == '+' {
        s.skip(1)
    } else {
        s
    }
}

/// What reading `s` as an unsigned decimal number gives: the digits may
/// follow one `+`, there is at least one digit, and the value is at most `max`.
pub open spec fn parse_unsigned(s: Seq<char>, max: nat) -> Option<nat> {
    let body = unsigned_body(s);
    if body.len() > 0 && all_digits(body) && digits_value(body) <= max {
        Some(digits_value(body))
    } else {
        None
    }
}

/// A number in decimal holds digits only, at least one.
pub proof fn lemma_decimal_digits(n: nat)
    ensures
        decimal(n).len() > 0,
        all_digits(decimal(n)),
    decreases n,
{
    if n >= 10 {
        lemma_decimal_digits(n / 10);
    }
}

/// Reading what was written gives the number back.
pub proof fn lemma_decimal_value(n: nat)
    ensures
        digits_value(decimal(n)) == n,
    decreases n,
{
    if n < 10 {
        assert(decimal(n).drop_last() =~= Seq::<char>::empty());
        assert(digits_value(decimal(n).drop_last()) == 0);
    } else {
        lemma_decimal_value(n / 10);
        assert(decimal(n).drop_last() =~= decimal(n / 10));
    }
}

/// Two numbers that are written alike are the same number.
pub proof fn lemma_decimal_injective(a: nat, b: nat)
    requires
        decimal(a) == decimal(b),
    ensures
        a == b,
{
    lemma_decimal_value(a);
    lemma_decimal_value(b);
}

proof fn lemma_digits_value_prefix(s: Seq<char>, k: int)
    requires
        0 <= k <= s.len(),
    ensures
        digits_value(s.take(k)) <= digits_value(s),
    decreases s.len() - k,
{
    if k < s.len() {
        lemma_digits_value_prefix(s, k + 1);
        assert(s.take(k + 1).drop_last() =~= s.take(k));
    } else {
        assert(s.take(k) =~= s);
    }
}

fn digit_of(d: u8) -> (c: char)
    requires
        d < 10,
    ensures
        c == digit_char(d as nat),
{
    if d == 0 {
        '0'
    } else if d == 1 {
        '1'
    } else if d == 2 {
        '2'
    } else if d == 3 {
        '3'
    } else if d == 4 {
        '4'
    } else if d == 5 {
        '5'
    } else if d == 6 {
        '6'
    } else if d == 7 {
        '7'
    } else if d == 8 {
        '8'
    } else {
        '9'
    }
}

/// Appends `n` in decimal to `out`.
pub fn push_decimal(out: &mut String, n: u128)
    ensures
        final(out)@ == old(out)@ + decimal(n as nat),
{
    let mut low: Vec<char> = Vec::new();
    let mut m: u128 = n / 10;
    low.push(digit_of((n % 10) as u8));
    while m > 0
        invariant
            decimal(n as nat) == (if m > 0 {
                decimal(m as nat)
            } else {
                Seq::<char>::empty()
            }) + low@.reverse(),
        decreases m,
    {
        let ghost before = low@;
        low.push(digit_of((m % 10) as u8));
        assert(low@.reverse() =~= seq![digit_char((m % 10) as nat)] + before.reverse());
        m = m / 10;
    }
    let mut i: usize = low.len();
    let ghost start = out@;
    assert(out@ =~= start + low@.reverse().take(0));
    while i > 0
        invariant
            i <= low.len(),
            out@ == start + low@.reverse().take(low.len() - i),
        decreases i,
    {
        i -= 1;
        out.push(low[i]);
        assert(low@.reverse().take(low.len() - i) =~= low@.reverse().take(low.len() - i - 1).push(
            low@[i as int],
        ));
    }
    assert(low@.reverse().take(low.len() as int) =~= low@.reverse());
}

/// `v[from..to]` read as an unsigned decimal number of at most `max`.
pub fn parse_number(v: &Vec<char>, from: usize, to: usize, max: u64) -> (r: Option<u64>)
    requires
        from <= to <= v.len(),
    ensures
        r is Some <==> parse_unsigned(v@.subrange(from as int, to as int), max as nat) is Some,
        r is Some ==> r->0 as nat == parse_unsigned(
            v@.subrange(from as int, to as int),
            max as nat,
        )->0,
{
    let ghost s = v@.subrange(from as int, to as int);
    let mut i: usize = from;
    if i < to && v[i] == '+' {
        i += 1;
    }
    let ghost body = v@.subrange(i as int, to as int);
    assert(body =~= unsigned_body(s));
    if i == to {
        return None;
    }
    let first: usize = i;
    let mut acc: u64 = 0;
    assert(body.take(0) =~= Seq::<char>::empty());
    while i < to
        invariant
            first <= i <= to <= v.len(),
            body == v@.subrange(first as int, to as int),
            body == unsigned_body(v@.subrange(from as int, to as int)),
            all_digits(body.take(i - first)),
            acc as nat == digits_value(body.take(i - first)),
            acc <= max,
        decreases to - i,
    {
        let c = v[i];
        assert(body[i - first] == c);
        if !('0' <= c && c <= '9') {
            return None;
        }
        let d: u64 = (c as u32 - '0' as u32) as u64;
        proof {
            assert(body.take(i - first + 1).drop_last() =~= body.take(i - first));
            assert(digits_value(body.take(i - first + 1)) == acc * 10 + d);
            lemma_digits_value_prefix(body, i - first + 1);
        }
        if d > max || acc > (max - d) / 10 {
            return None;
        }
        acc = acc * 10 + d;
        i += 1;
    }
    assert(body.take(i - first) =~= body);
    Some(acc)
}

/// The number of characters at the start of `s` that are not white space.
pub open spec fn word_len(s: Seq<char>) -> nat
    decreases s.len(),
{
    if s.len() > 0 && !is_space(s[0]) {
        1 + word_len(s.skip(1))
    } else {
        0
    }
}

/// The words of `s`: its longest runs of characters that are not white space.
pub open spec fn words(s: Seq<char>) -> Seq<Seq<char>>
    decreases s.len(),
{
    let skipped = leading_spaces(s) as int;
    let t = s.skip(skipped);
    let n = word_len(t) as int;
    if skipped <= s.len() && 0 < n <= t.len() {
        seq![t.take(n)] + words(t.skip(n))
    } else {
        Seq::empty()
    }
}

proof fn lemma_word_len(s: Seq<char>, n: int)
    requires
        0 <= n <= s.len(),
        forall|i: int| 0 <= i < n ==> !is_space(#[trigger] s[i]),
        n == s.len() || is_space(s[n]),
    ensures
        word_len(s) == n,
    decreases n,
{
    if n > 0 {
        let t = s.skip(1);
        assert forall|i: int| 0 <= i < n - 1 implies !is_space(#[trigger] t[i]) by {
            assert(t[i] == s[i + 1]);
        }
        lemma_word_len(t, n - 1);
    }
}

/// The words of `v`.
pub fn split_words(v: &Vec<char>) -> (out: Vec<Vec<char>>)
    ensures
        out.deep_view() == words(v@),
{
    let mut out: Vec<Vec<char>> = Vec::new();
    let mut i: usize = 0;
    assert(v@.skip(0) =~= v@);
    assert(out.deep_view() =~= Seq::<Seq<char>>::empty());
    loop
        invariant_except_break
            i <= v.len(),
            words(v@) == out.deep_view() + words(v@.skip(i as int)),
        ensures
            out.deep_view() == words(v@),
        decreases v.len() - i,
    {
        let from: usize = i;
        while i < v.len() && is_whitespace(v[i])
            invariant
                from <= i <= v.len(),
                forall|k: int| from <= k < i ==> is_space(#[trigger] v@[k]),
            decreases v.len() - i,
        {
            i += 1;
        }
        let start: usize = i;
        let mut word: Vec<char> = Vec::new();
        while i < v.len() && !is_whitespace(v[i])
            invariant
                start <= i <= v.len(),
                word@ == v@.subrange(start as int, i as int),
                forall|k: int| start <= k < i ==> !is_space(#[trigger] v@[k]),
            decreases v.len() - i,
        {
            word.push(v[i]);
            i += 1;
            assert(word@ =~= v@.subrange(start as int, i as int));
        }
        proof {
            let rest = v@.skip(from as int);
            assert forall|k: int| 0 <= k < start - from implies is_space(#[trigger] rest[k]) by {
                assert(rest[k] == v@[from + k]);
            }
            lemma_leading_spaces(rest, start - from);
            let t = rest.skip(start - from);
            assert(t =~= v@.skip(start as int));
            assert forall|k: int| 0 <= k < i - start implies !is_space(#[trigger] t[k]) by {
                assert(t[k] == v@[start + k]);
            }
            lemma_word_len(t, i - start);
            assert(t.take(i - start) =~= word@);
            assert(t.skip(i - start) =~= v@.skip(i as int));
        }
        if start == i {
            assert(out.deep_view() + Seq::<Seq<char>>::empty() =~= out.deep_view());
            break;
        }
        proof {
            assert(out@.push(word).map_values(|x: Vec<char>| x.deep_view()) =~= out@.map_values(
                |x: Vec<char>| x.deep_view(),
            ).push(word.deep_view()));
            assert(word.deep_view() =~= word@);
            assert(out.deep_view().push(word@) + words(v@.skip(i as int)) =~= out.deep_view() + (
            seq![word@] + words(v@.skip(i as int))));
        }
        out.push(word);
    }
    out
}

/// The first place at which `pat` stands in `s`.
pub open spec fn find(s: Seq<char>, pat: Seq<char>) -> Option<int>
    decreases s.len(),
{
    if pat.is_prefix_of(s) {
        Some(0)
    } else if s.len() == 0 {
        None
    } else {
        match find(s.skip(1), pat) {
            Some(i) => Some(i + 1),
            None => None,
        }
    }
}

/// `find` gives the least place at which `pat` stands, and nothing where it
/// stands at none.
pub proof fn lemma_find(s: Seq<char>, pat: Seq<char>)
    ensures
        match find(s, pat) {
            Some(i) => 0 <= i <= s.len() && pat.is_prefix_of(s.skip(i)) && forall|k: int|
                0 <= k < i ==> !pat.is_prefix_of(#[trigger] s.skip(k)),
            None => forall|k: int| 0 <= k <= s.len() ==> !pat.is_prefix_of(#[trigger] s.skip(k)),
        },
    decreases s.len(),
{
    assert(s.skip(0) =~= s);
    if !pat.is_prefix_of(s) && s.len() > 0 {
        let t = s.skip(1);
        lemma_find(t, pat);
        assert forall|k: int| 1 <= k <= s.len() implies #[trigger] s.skip(k) == t.skip(k - 1) by {
            assert(s.skip(k) =~= t.skip(k - 1));
        }
        match find(t, pat) {
            Some(i) => {
                assert(s.skip(i + 1) == t.skip(i));
                assert forall|k: int| 0 <= k < i + 1 implies !pat.is_prefix_of(
                    #[trigger] s.skip(k),
                ) by {
                    if k > 0 {
                        assert(s.skip(k) == t.skip(k - 1));
                    }
                }
            },
            None => {
                assert forall|k: int| 0 <= k <= s.len() implies !pat.is_prefix_of(
                    #[trigger] s.skip(k),
                ) by {
                    if k > 0 {
                        assert(s.skip(k) == t.skip(k - 1));
                    }
                }
            },
        }
    }
}

/// The first place at which `pat` stands in `v`.
pub fn find_chars(v: &Vec<char>, pat: &Vec<char>) -> (r: Option<usize>)
    ensures
        match r {
            Some(i) => find(v@, pat@) == Some(i as int) && i <= v.len(),
            None => find(v@, pat@) is None,
        },
{
    let mut i: usize = 0;
    proof {
        lemma_find(v@, pat@);
    }
    while i <= v.len()
        invariant
            i <= v.len() + 1,
            forall|k: int| 0 <= k < i ==> !pat@.is_prefix_of(#[trigger] v@.skip(k)),
        decreases v.len() + 1 - i,
    {
        if has_prefix_at(v, i, pat) {
            proof {
                lemma_find(v@, pat@);
            }
            return Some(i);
        }
        if i == v.len() {
            proof {
                lemma_find(v@, pat@);
            }
            return None;
        }
        i += 1;
    }
    proof {
        lemma_find(v@, pat@);
    }
    None
}

/// A copy of `s`.
pub fn copy_text(s: &str) -> (out: String)
    ensures
        out@ == s@,
{
    let v = to_chars(s);
    let out = from_chars(&v, 0, v.len());
    assert(v@.subrange(0, v.len() as int) =~= v@);
    out
}

/// The text made of all of `v`.
pub fn text_of(v: &Vec<char>) -> (out: String)
    ensures
        out@ == v@,
{
    let out = from_chars(v, 0, v.len());
    assert(v@.subrange(0, v.len() as int) =~= v@);
    out
}

/// The views of a list after one more item was pushed.
pub proof fn lemma_deep_push<T: DeepView>(before: Vec<T>, after: Vec<T>, item: T)
    requires
        after@ == before@.push(item),
    ensures
        after.deep_view() == before.deep_view().push(item.deep_view()),
{
    assert(after.deep_view() =~= before.deep_view().push(item.deep_view()));
}

/// The views of a list after another list was appended.
pub proof fn lemma_deep_append<T: DeepView>(before: Vec<T>, after: Vec<T>, more: Vec<T>)
    requires
        after@ == before@ + more@,
    ensures
        after.deep_view() == before.deep_view() + more.deep_view(),
{
    assert(after.deep_view() =~= before.deep_view() + more.deep_view());
}

/// `s` without the carriage return at its end, if there is one.
pub open spec fn without_return(s: Seq<char>) -> Seq<char> {
    if s.len() > 0 && s.last() == '\r' {
        s.drop_last()
    } else {
        s
    }
}

/// The lines of a text. A line ends with a line feed, and a carriage return
/// just before the line feed belongs to the ending. What follows the last
/// line feed is a line too, unless it is empty.
pub open spec fn lines_of(text: Seq<char>) -> Seq<Seq<char>> {
    let parts = split(text, '\n');
    let ended = Seq::new((parts.len() - 1) as nat, |i: int| without_return(parts[i]));
    if parts.last().len() > 0 {
        ended.push(parts.last())
    } else {
        ended
    }
}

/// The lines of a text.
pub fn text_lines(text: &str) -> (lines: Vec<String>)
    ensures
        lines.deep_view() == lines_of(text@),
{
    let v = to_chars(text);
    let parts = split_chars(&v, '\n');
    let ghost all = parts.deep_view();
    assert(all.len() == parts.len());
    assert(parts.len() >= 1);
    let mut lines: Vec<String> = Vec::new();
    let mut i: usize = 0;
    while i + 1 < parts.len()
        invariant
            i + 1 <= parts.len(),
            all == parts.deep_view(),
            lines.len() == i,
            forall|k: int| 0 <= k < i ==> lines@[k]@ == without_return(#[trigger] all[k]),
        decreases parts.len() - i,
    {
        let part = &parts[i];
        assert(all[i as int] == part@);
        let end: usize = if part.len() > 0 && part[part.len() - 1] == '\r' {
            part.len() - 1
        } else {
            part.len()
        };
        let line = from_chars(part, 0, end);
        assert(line@ =~= without_return(part@));
        lines.push(line);
        i += 1;
    }
    let last = &parts[parts.len() - 1];
    assert(all.last() == last@);
    if last.len() > 0 {
        lines.push(text_of(last));
    }
    assert(lines.deep_view() =~= lines_of(text@));
    lines
}

/// `text` after `prefix`, where it begins with it.
pub open spec fn after_prefix(text: Seq<char>, prefix: Seq<char>) -> Option<Seq<char>> {
    if prefix.is_prefix_of(text) {
        Some(text.skip(prefix.len() as int))
    } else {
        None
    }
}

/// `text[from..]` after `prefix`, where it begins with it.
pub fn strip_prefix_at(text: &Vec<char>, from: usize, prefix: &str) -> (r: Option<String>)
    requires
        from <= text.len(),
    ensures
        r.deep_view() == after_prefix(text@.skip(from as int), prefix@),
{
    let p = to_chars(prefix);
    if has_prefix_at(text, from, &p) {
        let r = from_chars(text, from + p.len(), text.len());
        assert(r@ =~= text@.skip(from as int).skip(prefix@.len() as int));
        Some(r)
    } else {
        None
    }
}

/// Where two texts are alike, each made of a part that does not end in a
/// digit and of digits after it, the parts are alike and so are the digits.
pub proof fn lemma_digits_split(a: Seq<char>, d: Seq<char>, b: Seq<char>, e: Seq<char>)
    requires
        all_digits(d),
        all_digits(e),
        a.len() > 0 && !is_digit(a.last()),
        b.len() > 0 && !is_digit(b.last()),
        a + d == b + e,
    ensures
        a == b,
        d == e,
{
    let whole = a + d;
    assert(whole.len() == a.len() + d.len());
    assert((b + e).len() == b.len() + e.len());
    if a.len() < b.len() {
        assert(whole[b.len() - 1] == d[b.len() - 1 - a.len()]);
        assert((b + e)[b.len() - 1] == b.last());
    }
    if b.len() < a.len() {
        assert((b + e)[a.len() - 1] == e[a.len() - 1 - b.len()]);
        assert(whole[a.len() - 1] == a.last());
    }
    assert(a =~= whole.take(a.len() as int));
    assert(b =~= (b + e).take(b.len() as int));
    assert(d =~= whole.skip(a.len() as int));
    assert(e =~= (b + e).skip(b.len() as int));
}

} // verus!
