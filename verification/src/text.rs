//! Text: characters of strings, trimming and splitting, decimal and hexadecimal
//! numbers.
use vstd::prelude::*;

verus! {

/// The characters of a string.
pub fn to_chars(s: &str) -> (r: Vec<char>)
    ensures
        r@ == s@,
{
    let mut out: Vec<char> = Vec::new();
    for c in it: s.chars()
        invariant
            out@.len() == it.index(),
            it.seq() == s@,
            forall|i: int| 0 <= i < out@.len() ==> out@[i] == s@[i],
    {
        out.push(c);
    }
    assert(out@ =~= s@);
    out
}

/// Whether two strings have the same characters.
pub fn same(a: &str, b: &str) -> (r: bool)
    ensures
        r == (a@ == b@),
{
    let x: Vec<char> = to_chars(a);
    let y: Vec<char> = to_chars(b);
    if x.len() != y.len() {
        return false;
    }
    let mut i: usize = 0;
    while i < x.len()
        invariant
            i <= x@.len(),
            x@ == a@,
            y@ == b@,
            x@.len() == y@.len(),
            forall|j: int| 0 <= j < i ==> x@[j] == y@[j],
        decreases x@.len() - i,
    {
        if x[i] != y[i] {
            assert(x@[i as int] != y@[i as int]);
            return false;
        }
        i += 1;
    }
    assert(x@ =~= y@);
    true
}

/// Unicode white space.
pub open spec fn white(c: char) -> bool {
    let u = c as u32;
    0x09 <= u <= 0x0D || u == 0x20 || u == 0x85 || u == 0xA0 || u == 0x1680 || 0x2000 <= u <= 0x200A
        || u == 0x2028 || u == 0x2029 || u == 0x202F || u == 0x205F || u == 0x3000
}

/// Unicode white space.
pub fn is_white(c: char) -> (r: bool)
    ensures
        r == white(c),
{
    let u: u32 = c as u32;
    (0x09 <= u && u <= 0x0D) || u == 0x20 || u == 0x85 || u == 0xA0 || u == 0x1680 || (0x2000 <= u
        && u <= 0x200A) || u == 0x2028 || u == 0x2029 || u == 0x202F || u == 0x205F || u == 0x3000
}

/// Without white space at either end.
pub open spec fn trimmed(s: Seq<char>) -> Seq<char>
    decreases s.len(),
{
    if s.len() == 0 {
        s
    } else if white(s[0]) {
        trimmed(s.skip(1))
    } else if white(s.last()) {
        trimmed(s.drop_last())
    } else {
        s
    }
}

/// Trimming leaves no white space at either end.
pub proof fn trimmed_text_has_no_white_ends(s: Seq<char>)
    ensures
        trimmed(s).len() <= s.len(),
        trimmed(s).len() > 0 ==> !white(trimmed(s)[0]) && !white(trimmed(s).last()),
    decreases s.len(),
{
    if s.len() > 0 {
        if white(s[0]) {
            trimmed_text_has_no_white_ends(s.skip(1));
        } else if white(s.last()) {
            trimmed_text_has_no_white_ends(s.drop_last());
        }
    }
}

/// Without white space at either end.
pub fn trim(s: &str) -> (r: &str)
    ensures
        r@ == trimmed(s@),
{
    let chars: Vec<char> = to_chars(s);
    let mut start: usize = 0;
    let mut end: usize = chars.len();
    assert(s@.subrange(0, end as int) =~= s@);
    while start < end && is_white(chars[start])
        invariant
            chars@ == s@,
            start <= end,
            end == chars@.len(),
            trimmed(s@) == trimmed(s@.subrange(start as int, end as int)),
        decreases end - start,
    {
        assert(s@.subrange(start as int, end as int).skip(1) =~= s@.subrange(
            start + 1,
            end as int,
        ));
        start += 1;
    }
    while start < end && is_white(chars[end - 1])
        invariant
            chars@ == s@,
            start <= end <= chars@.len(),
            start < end ==> !white(s@[start as int]),
            trimmed(s@) == trimmed(s@.subrange(start as int, end as int)),
        decreases end - start,
    {
        let ghost part = s@.subrange(start as int, end as int);
        assert(part.drop_last() =~= s@.subrange(start as int, end - 1));
        assert(part[0] == s@[start as int] && part.last() == s@[end - 1]);
        end -= 1;
    }
    let ghost part = s@.subrange(start as int, end as int);
    assert(part.len() > 0 ==> part[0] == s@[start as int] && part.last() == s@[end - 1]);
    s.substring_char(start, end)
}

/// The first place at or after `from` where `c` stands, the length if nowhere.
pub open spec fn first_of(s: Seq<char>, c: char, from: int) -> int
    decreases s.len() - from,
{
    if from >= s.len() {
        s.len() as int
    } else if s[from] == c {
        from
    } else {
        first_of(s, c, from + 1)
    }
}

/// The first place where `c` stands is the first.
pub proof fn lemma_first_of(s: Seq<char>, c: char, from: int)
    requires
        0 <= from <= s.len(),
    ensures
        from <= first_of(s, c, from) <= s.len(),
        first_of(s, c, from) < s.len() ==> s[first_of(s, c, from)] == c,
        forall|i: int| from <= i < first_of(s, c, from) ==> s[i] != c,
    decreases s.len() - from,
{
    if from < s.len() && s[from] != c {
        lemma_first_of(s, c, from + 1);
    }
}

fn find_char(s: &Vec<char>, c: char, from: usize) -> (r: usize)
    requires
        from <= s@.len(),
    ensures
        r == first_of(s@, c, from as int),
        from <= r <= s@.len(),
{
    let mut i: usize = from;
    while i < s.len() && s[i] != c
        invariant
            from <= i <= s@.len(),
            first_of(s@, c, from as int) == first_of(s@, c, i as int),
        decreases s@.len() - i,
    {
        i += 1;
    }
    i
}

/// The text before the first `c`, all of it where there is none.
pub open spec fn before(s: Seq<char>, c: char) -> Seq<char> {
    s.take(first_of(s, c, 0))
}

/// The text before the first `c`, all of it where there is none.
pub fn cut_at(s: &str, c: char) -> (r: &str)
    ensures
        r@ == before(s@, c),
{
    let chars: Vec<char> = to_chars(s);
    let at: usize = find_char(&chars, c, 0);
    assert(s@.subrange(0, at as int) =~= before(s@, c));
    s.substring_char(0, at)
}

/// The text before and after the first `c`, if there is one.
pub open spec fn halves(s: Seq<char>, c: char) -> Option<(Seq<char>, Seq<char>)> {
    let at = first_of(s, c, 0);
    if at < s.len() {
        Some((s.take(at), s.skip(at + 1)))
    } else {
        None
    }
}

/// The text before and after the first `c`, if there is one.
pub fn split_at_first(s: &str, c: char) -> (r: Option<(&str, &str)>)
    ensures
        match r {
            Some((a, b)) => halves(s@, c) == Some((a@, b@)),
            None => halves(s@, c) is None,
        },
{
    let chars: Vec<char> = to_chars(s);
    let at: usize = find_char(&chars, c, 0);
    if at < chars.len() {
        assert(s@.subrange(0, at as int) =~= s@.take(at as int));
        assert(s@.subrange(at + 1, s@.len() as int) =~= s@.skip(at + 1));
        Some((s.substring_char(0, at), s.substring_char(at + 1, chars.len())))
    } else {
        None
    }
}

/// The lines of a text: what stands between its newlines.
pub open spec fn lines_of(s: Seq<char>) -> Seq<Seq<char>>
    decreases s.len(),
{
    let at = first_of(s, '\n', 0);
    if 0 <= at < s.len() {
        seq![s.take(at)] + lines_of(s.skip(at + 1))
    } else {
        seq![s]
    }
}

/// The lines of a text: what stands between its newlines.
pub fn lines(s: &str) -> (r: Vec<String>)
    ensures
        r@.len() == lines_of(s@).len(),
        forall|i: int| 0 <= i < r@.len() ==> (#[trigger] r@[i])@ == lines_of(s@)[i],
{
    let chars: Vec<char> = to_chars(s);
    let mut out: Vec<String> = Vec::new();
    let mut start: usize = 0;
    let ghost all = lines_of(s@);
    assert(s@.skip(0) =~= s@);
    loop
        invariant_except_break
            chars@ == s@,
            start <= s@.len(),
            all == lines_of(s@),
            out@.len() + lines_of(s@.skip(start as int)).len() == all.len(),
            forall|i: int| 0 <= i < out@.len() ==> (#[trigger] out@[i])@ == all[i],
            forall|i: int|
                0 <= i < lines_of(s@.skip(start as int)).len() ==> #[trigger] lines_of(
                    s@.skip(start as int),
                )[i] == all[out@.len() + i],
        ensures
            out@.len() == all.len(),
            forall|i: int| 0 <= i < out@.len() ==> (#[trigger] out@[i])@ == all[i],
        decreases s@.len() - start,
    {
        let at: usize = find_char(&chars, '\n', start);
        let ghost rest = s@.skip(start as int);
        proof {
            lemma_first_shift(s@, '\n', start as int);
            lemma_first_of(rest, '\n', 0);
        }
        out.push(s.substring_char(start, at).to_owned());
        if at >= chars.len() {
            assert(s@.subrange(start as int, at as int) =~= rest);
            assert(lines_of(rest)[0] == rest);
            break;
        }
        assert(s@.subrange(start as int, at as int) =~= rest.take(at - start));
        assert(rest.skip(at - start + 1) =~= s@.skip(at + 1));
        assert(lines_of(rest) == seq![rest.take(at - start)] + lines_of(s@.skip(at + 1)));
        assert(lines_of(rest)[0] == rest.take(at - start));
        assert forall|i: int| 0 <= i < lines_of(s@.skip(at + 1)).len() implies #[trigger] lines_of(
            s@.skip(at + 1),
        )[i] == all[out@.len() + i] by {
            assert(lines_of(rest)[i + 1] == lines_of(s@.skip(at + 1))[i]);
        }
        start = at + 1;
    }
    out
}

/// Looking for a character from a place is looking in the rest of the text.
proof fn lemma_first_shift(s: Seq<char>, c: char, from: int)
    requires
        0 <= from <= s.len(),
    ensures
        first_of(s, c, from) == from + first_of(s.skip(from), c, 0),
{
    lemma_first_of(s, c, from);
    let t = s.skip(from);
    lemma_first_of(t, c, 0);
    let a = first_of(s, c, from);
    let b = first_of(t, c, 0);
    if a < from + b {
        assert(t[a - from] == s[a]);
    } else if from + b < a {
        assert(t[b] == s[from + b]);
    }
}

/// A decimal digit.
pub open spec fn digit(c: char) -> bool {
    '0' <= c <= '9'
}

/// The number that decimal digits stand for.
pub open spec fn digits_value(s: Seq<char>) -> nat
    decreases s.len(),
{
    if s.len() == 0 {
        0
    } else {
        digits_value(s.drop_last()) * 10 + (s.last() as u32 - 48) as nat
    }
}

/// Decimal digits only, at least one.
pub open spec fn all_digits(s: Seq<char>) -> bool {
    s.len() > 0 && forall|i: int| 0 <= i < s.len() ==> digit(#[trigger] s[i])
}

/// The text behind an optional plus sign.
pub open spec fn without_plus(s: Seq<char>) -> Seq<char> {
    if s.len() > 0 && s[0] == '+' {
        s.skip(1)
    } else {
        s
    }
}

/// The whole number that a text stands for: decimal digits, at least one, with
/// an optional plus sign before them, and no larger than `max`.
pub open spec fn whole_number(s: Seq<char>, max: nat) -> Option<nat> {
    let digits = without_plus(s);
    if all_digits(digits) && digits_value(digits) <= max {
        Some(digits_value(digits))
    } else {
        None
    }
}

/// A longer digit string stands for no smaller number.
proof fn lemma_digits_grow(s: Seq<char>, n: int)
    requires
        0 <= n <= s.len(),
        forall|i: int| 0 <= i < s.len() ==> digit(#[trigger] s[i]),
    ensures
        digits_value(s.take(n)) <= digits_value(s),
    decreases s.len(),
{
    if n == s.len() {
        assert(s.take(n) =~= s);
    } else {
        let shorter = s.drop_last();
        assert(shorter.take(n) =~= s.take(n));
        assert forall|i: int| 0 <= i < shorter.len() implies digit(#[trigger] shorter[i]) by {
            assert(shorter[i] == s[i]);
        }
        lemma_digits_grow(shorter, n);
        assert(digit(s[s.len() - 1]));
    }
}

/// Read a whole number.
pub fn parse_whole(s: &str, max: u64) -> (r: Option<u64>)
    ensures
        match r {
            Some(v) => whole_number(s@, max as nat) == Some(v as nat),
            None => whole_number(s@, max as nat) is None,
        },
{
    let chars: Vec<char> = to_chars(s);
    let start: usize = if chars.len() > 0 && chars[0] == '+' {
        1
    } else {
        0
    };
    let ghost digits = without_plus(s@);
    assert(digits =~= s@.skip(start as int));
    if start >= chars.len() {
        return None;
    }
    let mut value: u64 = 0;
    let mut i: usize = start;
    assert(digits.take(0) =~= Seq::<char>::empty());
    while i < chars.len()
        invariant
            chars@ == s@,
            start <= i <= chars@.len(),
            digits == without_plus(s@),
            digits == s@.skip(start as int),
            forall|k: int| 0 <= k < i - start ==> digit(#[trigger] digits[k]),
            value == digits_value(digits.take(i - start)),
            value <= max,
        decreases chars@.len() - i,
    {
        let c: char = chars[i];
        let ghost k = i - start;
        assert(digits[k] == c);
        if c < '0' || c > '9' {
            return None;
        }
        let d: u64 = c as u64 - 48;
        assert(digits.take(k + 1).drop_last() =~= digits.take(k));
        assert(digits.take(k + 1).last() == c);
        if d > max || value > (max - d) / 10 {
            proof {
                assert(digits_value(digits.take(k + 1)) > max);
                if all_digits(digits) {
                    lemma_digits_grow(digits, k + 1);
                }
            }
            return None;
        }
        value = value * 10 + d;
        i += 1;
    }
    assert(digits.take(digits.len() as int) =~= digits);
    Some(value)
}

/// The character of a digit, decimal or hexadecimal.
pub open spec fn digit_char(d: int) -> char {
    if d == 0 {
        '0'
    } else if d == 1 {
        '1'
    } else if d == 2 {
        '2'
    } else if d == 3 {
        '3'
    } else if d == 4 {
        '4'
    } else if d == 5 {
        '5'
    } else if d == 6 {
        '6'
    } else if d == 7 {
        '7'
    } else if d == 8 {
        '8'
    } else if d == 9 {
        '9'
    } else if d == 10 {
        'a'
    } else if d == 11 {
        'b'
    } else if d == 12 {
        'c'
    } else if d == 13 {
        'd'
    } else if d == 14 {
        'e'
    } else {
        'f'
    }
}

/// Dividing by a base makes a number smaller.
pub proof fn lemma_quotient_shrinks(n: nat, base: nat)
    requires
        2 <= base <= n,
    ensures
        n / base < n,
{
    assert(n / base < n) by (nonlinear_arith)
        requires
            2 <= base,
            n >= base,
    ;
}

/// A number written in a base, without leading zeros.
pub open spec fn numeral(n: nat, base: nat) -> Seq<char>
    decreases n,
{
    if base < 2 || n < base {
        seq![digit_char(n as int)]
    } else {
        proof {
            lemma_quotient_shrinks(n, base);
        }
        numeral(n / base, base).push(digit_char((n % base) as int))
    }
}

fn digit_text(d: u64) -> (r: &'static str)
    requires
        d < 16,
    ensures
        r@ == seq![digit_char(d as int)],
{
    proof {
        reveal_strlit("0");
        reveal_strlit("1");
        reveal_strlit("2");
        reveal_strlit("3");
        reveal_strlit("4");
        reveal_strlit("5");
        reveal_strlit("6");
        reveal_strlit("7");
        reveal_strlit("8");
        reveal_strlit("9");
        reveal_strlit("a");
        reveal_strlit("b");
        reveal_strlit("c");
        reveal_strlit("d");
        reveal_strlit("e");
        reveal_strlit("f");
    }
    let r: &'static str = if d == 0 {
        "0"
    } else if d == 1 {
        "1"
    } else if d == 2 {
        "2"
    } else if d == 3 {
        "3"
    } else if d == 4 {
        "4"
    } else if d == 5 {
        "5"
    } else if d == 6 {
        "6"
    } else if d == 7 {
        "7"
    } else if d == 8 {
        "8"
    } else if d == 9 {
        "9"
    } else if d == 10 {
        "a"
    } else if d == 11 {
        "b"
    } else if d == 12 {
        "c"
    } else if d == 13 {
        "d"
    } else if d == 14 {
        "e"
    } else {
        "f"
    };
    assert(r@ =~= seq![digit_char(d as int)]);
    r
}

fn in_base(n: u64, base: u64) -> (r: String)
    requires
        2 <= base <= 16,
    ensures
        r@ == numeral(n as nat, base as nat),
    decreases n,
{
    if n < base {
        digit_text(n).to_owned()
    } else {
        proof {
            lemma_quotient_shrinks(n as nat, base as nat);
        }
        let mut s: String = in_base(n / base, base);
        let ghost front = s@;
        s.append(digit_text(n % base));
        assert(s@ =~= front.push(digit_char((n % base) as int)));
        s
    }
}

/// A number in decimal.
pub fn decimal(n: u64) -> (r: String)
    ensures
        r@ == numeral(n as nat, 10),
{
    in_base(n, 10)
}

/// A number in hexadecimal, marked as such.
pub fn hexadecimal(n: u64) -> (r: String)
    ensures
        r@ == "0x"@ + numeral(n as nat, 16),
{
    let mut s: String = "0x".to_owned();
    s.append(in_base(n, 16).as_str());
    s
}

/// Two texts joined.
pub fn join(a: &str, b: &str) -> (r: String)
    ensures
        r@ == a@ + b@,
{
    let mut s: String = a.to_owned();
    s.append(b);
    s
}

} // verus!
