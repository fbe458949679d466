//! Text primitives: identifier well-formedness and canonical decimal
//! rendering of instance ids.

use vstd::prelude::*;

verus! {

/// The character for one decimal digit (`d < 10`).
pub open spec fn digit_char(d: nat) -> char {
    if d == 0 {
        '0'
    } else if d == 1 {
        '1'
    } else if d == 2 {
        '2'
    } else if d == 3 {
        '3'
    } else if d == 4 {
        '4'
    } else if d == 5 {
        '5'
    } else if d == 6 {
        '6'
    } else if d == 7 {
        '7'
    } else if d == 8 {
        '8'
    } else {
        '9'
    }
}

/// Decimal digits of `n`, most significant first, without leading zeros.
pub open spec fn dec_digits(n: nat) -> Seq<char>
    decreases n,
{
    if n < 10 {
        seq![digit_char(n)]
    } else {
        dec_digits(n / 10) + seq![digit_char(n % 10)]
    }
}

/// Canonical decimal rendering of a signed integer: a minus sign for
/// negative values, then the digits without leading zeros.
pub open spec fn dec_string(i: int) -> Seq<char> {
    if i < 0 {
        seq!['-'] + dec_digits((-i) as nat)
    } else {
        dec_digits(i as nat)
    }
}

/// The digit rendering is at least one character long.
pub proof fn lemma_dec_digits_len(n: nat)
    ensures
        dec_digits(n).len() >= 1,
    decreases n,
{
    if n >= 10 {
        lemma_dec_digits_len(n / 10);
    }
}

/// The digit rendering starts with a decimal digit, never a minus sign.
pub proof fn lemma_dec_digits_first(n: nat)
    ensures
        '0' <= dec_digits(n)[0] <= '9',
    decreases n,
{
    if n < 10 {
        assert('0' <= digit_char(n) <= '9');
    } else {
        lemma_dec_digits_first(n / 10);
        lemma_dec_digits_len(n / 10);
        assert(dec_digits(n)[0] == dec_digits(n / 10)[0]);
    }
}

/// Distinct naturals render to distinct digit strings.
pub proof fn lemma_dec_digits_injective(a: nat, b: nat)
    requires
        dec_digits(a) == dec_digits(b),
    ensures
        a == b,
    decreases a + b,
{
    lemma_dec_digits_len(a);
    lemma_dec_digits_len(b);
    if a < 10 && b < 10 {
        assert(dec_digits(a)[0] == digit_char(a));
        assert(dec_digits(b)[0] == digit_char(b));
        assert(digit_char(a) == digit_char(b) ==> a == b);
    } else if a < 10 {
        lemma_dec_digits_len(b / 10);
        assert(dec_digits(b).len() >= 2);
    } else if b < 10 {
        lemma_dec_digits_len(a / 10);
        assert(dec_digits(a).len() >= 2);
    } else {
        let la = dec_digits(a).len();
        assert(dec_digits(a).last() == digit_char(a % 10));
        assert(dec_digits(b).last() == digit_char(b % 10));
        assert(a % 10 < 10 && b % 10 < 10) by (nonlinear_arith);
        assert(digit_char(a % 10) == digit_char(b % 10) ==> a % 10 == b % 10);
        assert(dec_digits(a).drop_last() =~= dec_digits(a / 10));
        assert(dec_digits(b).drop_last() =~= dec_digits(b / 10));
        assert(a / 10 + b / 10 < a + b) by (nonlinear_arith)
            requires
                a >= 10 && b >= 10,
        ;
        lemma_dec_digits_injective(a / 10, b / 10);
        assert(a == 10 * (a / 10) + a % 10) by (nonlinear_arith);
        assert(b == 10 * (b / 10) + b % 10) by (nonlinear_arith);
    }
}

/// Distinct integers render to distinct decimal strings.
pub proof fn lemma_dec_string_injective(a: int, b: int)
    requires
        dec_string(a) == dec_string(b),
    ensures
        a == b,
{
    if a < 0 && b < 0 {
        lemma_dec_digits_len((-a) as nat);
        lemma_dec_digits_len((-b) as nat);
        assert(dec_string(a).drop_first() =~= dec_digits((-a) as nat));
        assert(dec_string(b).drop_first() =~= dec_digits((-b) as nat));
        lemma_dec_digits_injective((-a) as nat, (-b) as nat);
    } else if a < 0 {
        lemma_dec_digits_first(b as nat);
        lemma_dec_digits_len((-a) as nat);
        assert(dec_string(a)[0] == '-');
        assert(false);
    } else if b < 0 {
        lemma_dec_digits_first(a as nat);
        lemma_dec_digits_len((-b) as nat);
        assert(dec_string(b)[0] == '-');
        assert(false);
    } else {
        lemma_dec_digits_injective(a as nat, b as nat);
    }
}

/// A character that may start an identifier.
pub open spec fn is_ident_start(c: char) -> bool {
    ('a' <= c && c <= 'z') || ('A' <= c && c <= 'Z') || c == '_'
}

/// A character that may continue an identifier.
pub open spec fn is_ident_char(c: char) -> bool {
    is_ident_start(c) || ('0' <= c && c <= '9')
}

/// All characters of `s` from position `i` on may continue an identifier.
pub open spec fn ident_chars_from(s: Seq<char>, i: int) -> bool
    decreases s.len() - i,
{
    if i < 0 || i >= s.len() {
        true
    } else {
        is_ident_char(s[i]) && ident_chars_from(s, i + 1)
    }
}

/// A well-formed identifier: nonempty, a letter or underscore first, then
/// letters, digits and underscores.
pub open spec fn is_ident(s: Seq<char>) -> bool {
    s.len() > 0 && is_ident_start(s[0]) && ident_chars_from(s, 1)
}

/// Decides identifier well-formedness of a string slice.
pub fn check_ident(s: &str) -> (r: bool)
    ensures
        r == is_ident(s@),
{
    let len = s.unicode_len();
    if len == 0 {
        return false;
    }
    if !check_ident_start(s.get_char(0)) {
        return false;
    }
    let mut i: usize = len;
    let mut ok: bool = true;
    while i > 1
        invariant
            1 <= i <= len,
            len == s@.len(),
            ok == ident_chars_from(s@, i as int),
        decreases i,
    {
        i = i - 1;
        ok = check_ident_char(s.get_char(i)) && ok;
    }
    ok
}

/// Decides whether `c` may start an identifier.
pub fn check_ident_start(c: char) -> (r: bool)
    ensures
        r == is_ident_start(c),
{
    ('a' <= c && c <= 'z') || ('A' <= c && c <= 'Z') || c == '_'
}

/// Decides whether `c` may continue an identifier.
pub fn check_ident_char(c: char) -> (r: bool)
    ensures
        r == is_ident_char(c),
{
    check_ident_start(c) || ('0' <= c && c <= '9')
}

/// The string slice holding one decimal digit (`d < 10`).
fn digit_str(d: u64) -> (r: &'static str)
    requires
        d < 10,
    ensures
        r@ == seq![digit_char(d as nat)],
{
    proof {
        reveal_strlit("0");
        reveal_strlit("1");
        reveal_strlit("2");
        reveal_strlit("3");
        reveal_strlit("4");
        reveal_strlit("5");
        reveal_strlit("6");
        reveal_strlit("7");
        reveal_strlit("8");
        reveal_strlit("9");
    }
    let r: &'static str = if d == 0 {
        "0"
    } else if d == 1 {
        "1"
    } else if d == 2 {
        "2"
    } else if d == 3 {
        "3"
    } else if d == 4 {
        "4"
    } else if d == 5 {
        "5"
    } else if d == 6 {
        "6"
    } else if d == 7 {
        "7"
    } else if d == 8 {
        "8"
    } else {
        "9"
    };
    proof {
        assert(r@ =~= seq![digit_char(d as nat)]);
    }
    r
}

/// Appends the decimal digits of `n` to `s`.
pub fn push_digits(s: &mut String, n: u64)
    ensures
        final(s)@ == old(s)@ + dec_digits(n as nat),
    decreases n,
{
    if n < 10 {
        s.append(digit_str(n));
        proof {
            assert(s@ =~= old(s)@ + dec_digits(n as nat));
        }
    } else {
        proof {
            assert(n / 10 < n && n / 10 >= 1) by (nonlinear_arith)
                requires
                    n >= 10,
            ;
        }
        push_digits(s, n / 10);
        s.append(digit_str(n % 10));
        proof {
            assert(s@ =~= old(s)@ + dec_digits(n as nat));
        }
    }
}

/// Builds the canonical decimal rendering of `i` as a fresh string.
pub fn render_i64(i: i64) -> (r: String)
    ensures
        r@ == dec_string(i as int),
{
    let mut s = String::new();
    if i < 0 {
        proof {
            reveal_strlit("-");
        }
        s.append("-");
        let n: u64 = (-(i as i128)) as u64;
        push_digits(&mut s, n);
        proof {
            assert(s@ =~= dec_string(i as int));
        }
    } else {
        let n: u64 = i as u64;
        push_digits(&mut s, n);
        proof {
            assert(s@ =~= dec_string(i as int));
        }
    }
    s
}

} // verus!
