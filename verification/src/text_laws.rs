//! What trimming, lines and numbers come to.
use vstd::prelude::*;

use crate::text::{
    all_digits, digit, digit_char, digits_value, first_of, lemma_first_of, lemma_quotient_shrinks,
    lines_of, numeral, trimmed, white, whole_number, without_plus,
};

verus! {

/// White space before a text does not count.
pub proof fn lemma_trim_leading(a: Seq<char>, s: Seq<char>)
    requires
        forall|i: int| 0 <= i < a.len() ==> white(#[trigger] a[i]),
    ensures
        trimmed(a + s) == trimmed(s),
    decreases a.len(),
{
    if a.len() == 0 {
        assert(a + s =~= s);
    } else {
        assert(white(a[0]));
        assert((a + s)[0] == a[0]);
        assert((a + s).skip(1) =~= a.skip(1) + s);
        assert forall|i: int| 0 <= i < a.skip(1).len() implies white(#[trigger] a.skip(1)[i]) by {
            assert(white(a[i + 1]));
        }
        lemma_trim_leading(a.skip(1), s);
    }
}

/// White space behind a text does not count.
pub proof fn lemma_trim_trailing(s: Seq<char>, b: Seq<char>)
    requires
        s.len() > 0,
        !white(s[0]),
        forall|i: int| 0 <= i < b.len() ==> white(#[trigger] b[i]),
    ensures
        trimmed(s + b) == trimmed(s),
    decreases b.len(),
{
    if b.len() == 0 {
        assert(s + b =~= s);
    } else {
        assert(white(b[b.len() - 1]));
        assert((s + b).last() == b.last());
        assert((s + b)[0] == s[0]);
        assert((s + b).drop_last() =~= s + b.drop_last());
        assert forall|i: int| 0 <= i < b.drop_last().len() implies white(
            #[trigger] b.drop_last()[i],
        ) by {
            assert(white(b[i]));
        }
        lemma_trim_trailing(s, b.drop_last());
    }
}

/// Trimming gives back the text between white spaces: nothing of it is lost, and
/// nothing else stays.
pub proof fn lemma_trim_around(a: Seq<char>, s: Seq<char>, b: Seq<char>)
    requires
        s.len() > 0,
        !white(s[0]),
        !white(s.last()),
        forall|i: int| 0 <= i < a.len() ==> white(#[trigger] a[i]),
        forall|i: int| 0 <= i < b.len() ==> white(#[trigger] b[i]),
    ensures
        trimmed(a + s + b) == s,
{
    assert(a + s + b =~= a + (s + b));
    lemma_trim_leading(a, s + b);
    lemma_trim_trailing(s, b);
}

/// Lines put together again, with a newline between any two.
pub open spec fn joined(lines: Seq<Seq<char>>) -> Seq<char>
    decreases lines.len(),
{
    if lines.len() == 0 {
        Seq::empty()
    } else if lines.len() == 1 {
        lines[0]
    } else {
        lines[0] + seq!['\n'] + joined(lines.skip(1))
    }
}

/// The lines of a text hold no newline, and make the text again when they are
/// put together: none is lost, and none is cut.
pub proof fn lines_make_the_text(s: Seq<char>)
    ensures
        lines_of(s).len() >= 1,
        joined(lines_of(s)) == s,
        forall|i: int, j: int|
            0 <= i < lines_of(s).len() && 0 <= j < lines_of(s)[i].len()
                ==> #[trigger] lines_of(s)[i][j] != '\n',
    decreases s.len(),
{
    lemma_first_of(s, '\n', 0);
    let at = first_of(s, '\n', 0);
    if at < s.len() {
        let rest = s.skip(at + 1);
        lines_make_the_text(rest);
        let all = lines_of(s);
        assert(all == seq![s.take(at)] + lines_of(rest));
        assert(all[0] == s.take(at));
        assert(all.skip(1) =~= lines_of(rest));
        assert(s =~= s.take(at) + seq!['\n'] + rest);
        assert forall|i: int, j: int|
            0 <= i < all.len() && 0 <= j < all[i].len() implies #[trigger] all[i][j] != '\n' by {
            if i > 0 {
                assert(all[i] == lines_of(rest)[i - 1]);
                assert(lines_of(rest)[i - 1][j] != '\n');
            }
        }
    }
}

proof fn lemma_numeral(n: nat)
    ensures
        all_digits(numeral(n, 10)),
        digits_value(numeral(n, 10)) == n,
        numeral(n, 10)[0] != '+',
    decreases n,
{
    let s = numeral(n, 10);
    reveal_with_fuel(digits_value, 2);
    if n < 10 {
        assert(s == seq![digit_char(n as int)]);
        assert(s.drop_last() =~= Seq::<char>::empty());
        assert(s.last() == s[0]);
    } else {
        lemma_quotient_shrinks(n, 10);
        lemma_numeral(n / 10);
        let front = numeral(n / 10, 10);
        assert(s == front.push(digit_char((n % 10) as int)));
        assert(s.drop_last() =~= front);
        assert(s[0] == front[0]);
        assert forall|i: int| 0 <= i < s.len() implies digit(#[trigger] s[i]) by {
            if i < front.len() {
                assert(digit(front[i]));
            }
        }
    }
}

/// A number in decimal is read back as the number, up to the bound.
pub proof fn decimals_are_read_back(n: nat, max: nat)
    ensures
        n <= max ==> whole_number(numeral(n, 10), max) == Some(n),
        n > max ==> whole_number(numeral(n, 10), max) is None,
{
    lemma_numeral(n);
}

/// Only digits make a whole number, at least one, with a plus sign before them
/// or not; another digit behind them makes ten times the number and that digit.
pub proof fn whole_numbers_are_digits(s: Seq<char>, max: nat, d: char)
    requires
        '0' <= d <= '9',
    ensures
        s.len() == 0 ==> whole_number(s, max) is None,
        (exists|i: int| 0 < i < s.len() && !('0' <= #[trigger] s[i] <= '9')) ==> whole_number(
            s,
            max,
        ) is None,
        s.len() > 0 && s[0] != '+' && !('0' <= s[0] <= '9') ==> whole_number(s, max) is None,
        whole_number(s, max) matches Some(n) ==> {
            let next = n * 10 + (d as u32 - 48);
            whole_number(s.push(d), max) == if next <= max {
                Some(next as nat)
            } else {
                None
            }
        },
{
    let body = without_plus(s);
    if exists|i: int| 0 < i < s.len() && !('0' <= #[trigger] s[i] <= '9') {
        let i = choose|i: int| 0 < i < s.len() && !('0' <= #[trigger] s[i] <= '9');
        let k = if s[0] == '+' {
            i - 1
        } else {
            i
        };
        assert(body[k] == s[i]);
        assert(!digit(body[k]));
    }
    if s.len() > 0 && s[0] != '+' && !('0' <= s[0] <= '9') {
        assert(!digit(body[0]));
    }
    if whole_number(s, max) is Some {
        let longer = without_plus(s.push(d));
        assert(longer =~= body.push(d));
        assert(longer.drop_last() =~= body);
        assert forall|i: int| 0 <= i < longer.len() implies digit(#[trigger] longer[i]) by {
            if i < body.len() {
                assert(digit(body[i]));
            }
        }
    }
}

/// White space is what Unicode says it is.
pub proof fn white_space_is_unicodes(c: char)
    ensures
        ({
            let u = c as u32;
            &&& u == 0x20 || u == 0x09 || u == 0x0A || u == 0x0B || u == 0x0C || u == 0x0D ==> white(
                c,
            )
            &&& u < 0x80 && white(c) ==> u == 0x20 || 0x09 <= u <= 0x0D
            &&& u == 0x85 || u == 0xA0 || u == 0x1680 || u == 0x2028 || u == 0x2029 || u == 0x202F
                || u == 0x205F || u == 0x3000 ==> white(c)
            &&& 0x2000 <= u <= 0x200A ==> white(c)
            &&& u >= 0x80 && white(c) ==> u == 0x85 || u == 0xA0 || u == 0x1680 || 0x2000 <= u
                <= 0x200A || u == 0x2028 || u == 0x2029 || u == 0x202F || u == 0x205F || u == 0x3000
        }),
{
}

/// A number is written with its most significant digit first and no zeros in
/// front: another digit behind it multiplies it by the base. Digits beyond nine
/// are small letters.
pub proof fn numerals_are_positional(n: nat, d: nat, base: nat)
    requires
        2 <= base <= 16,
        d < base,
    ensures
        numeral(d, base).len() == 1,
        d < 10 ==> numeral(d, base)[0] as u32 == 48 + d,
        d >= 10 ==> numeral(d, base)[0] as u32 == 87 + d,
        n > 0 ==> numeral(n * base + d, base) == numeral(n, base) + numeral(d, base),
{
    if n > 0 {
        let m = n * base + d;
        vstd::arithmetic::div_mod::lemma_fundamental_div_mod_converse(
            m as int,
            base as int,
            n as int,
            d as int,
        );
        assert(n * base >= base) by (nonlinear_arith)
            requires
                n >= 1,
        ;
        assert(numeral(m, base) == numeral(n, base).push(digit_char(d as int)));
        assert(numeral(n, base) + numeral(d, base) =~= numeral(n, base).push(digit_char(d as int)));
    }
}

} // verus!
