//! Numbers as text: decimal and hexadecimal digits, read and written.

use crate::text::chars_of;
use vstd::prelude::*;

verus! {

/// The digit for `d`, in lower case where it is a letter.
pub open spec fn digit_char(d: nat) -> char {
    if d < 10 {
        ('0' as u32 + d) as char
    } else {
        ('a' as u32 + (d - 10)) as char
    }
}

/// The value of the digit `c`.
pub open spec fn digit_value(c: char) -> nat {
    if '0' <= c <= '9' {
        (c as u32 - '0' as u32) as nat
    } else {
        (c as u32 - 'a' as u32 + 10) as nat
    }
}

/// `n` written in `base`, without leading zeros.
pub open spec fn digits(n: nat, base: nat) -> Seq<char>
    decreases n,
{
    if base < 2 || n < base {
        seq![digit_char(n)]
    } else {
        proof {
            lemma_div_smaller(n, base);
        }
        digits(n / base, base).push(digit_char(n % base))
    }
}

/// The number that the digits `s` stand for in `base`.
pub open spec fn value(s: Seq<char>, base: nat) -> nat
    decreases s.len(),
{
    if s.len() == 0 {
        0
    } else {
        value(s.drop_last(), base) * base + digit_value(s.last())
    }
}

/// Whether every character of `s` is a decimal digit.
pub open spec fn all_decimal(s: Seq<char>) -> bool {
    forall|i: int| 0 <= i < s.len() ==> '0' <= #[trigger] s[i] <= '9'
}

/// The number that `s` stands for: one or more decimal digits, after a plus
/// sign or not, for a number of at most `max`; all else stands for none.
pub open spec fn parsed_number(s: Seq<char>, max: nat) -> Option<nat> {
    let body = if s.len() > 0 && s[0] == '+' {
        s.drop_first()
    } else {
        s
    };
    if body.len() > 0 && all_decimal(body) && value(body, 10) <= max {
        Some(value(body, 10))
    } else {
        None
    }
}

/// `n` as a window identifier: `0x` and at least eight hexadecimal digits.
pub open spec fn hex_id(n: nat) -> Seq<char> {
    "0x"@ + zeros(8 - digits(n, 16).len()) + digits(n, 16)
}

/// `n` zeros, none where `n` is negative.
pub open spec fn zeros(n: int) -> Seq<char> {
    Seq::new((if n > 0 { n } else { 0 }) as nat, |i: int| '0')
}

pub proof fn lemma_div_smaller(n: nat, base: nat)
    requires
        base >= 2,
        n >= base,
    ensures
        n / base < n,
        (n / base) * base + n % base == n,
        n % base < base,
{
    assert(n / base < n) by (nonlinear_arith)
        requires
            base >= 2,
            n >= base,
    ;
    assert((n / base) * base + n % base == n) by (nonlinear_arith)
        requires
            base >= 2,
    ;
    assert(n % base < base) by (nonlinear_arith)
        requires
            base >= 2,
    ;
}

/// Reading what was written gives the number back.
pub proof fn lemma_value_of_digits(n: nat, base: nat)
    requires
        2 <= base <= 16,
    ensures
        value(digits(n, base), base) == n,
        digits(n, base).len() > 0,
        base == 10 ==> all_decimal(digits(n, base)),
    decreases n,
{
    if n < base {
        let s = digits(n, base);
        assert(s.drop_last() =~= Seq::<char>::empty());
        assert(value(s.drop_last(), base) == 0);
        assert(0 * base == 0) by (nonlinear_arith);
        assert(digit_value(digit_char(n)) == n);
    } else {
        lemma_div_smaller(n, base);
        lemma_value_of_digits(n / base, base);
        let s = digits(n, base);
        assert(s.drop_last() =~= digits(n / base, base));
        assert(digit_value(digit_char(n % base)) == n % base);
    }
}

/// Leading zeros do not change a number.
proof fn lemma_leading_zeros(k: int, s: Seq<char>, base: nat)
    requires
        2 <= base,
    ensures
        value(zeros(k) + s, base) == value(s, base),
    decreases s.len(), zeros(k).len(),
{
    if s.len() > 0 {
        assert((zeros(k) + s).drop_last() =~= zeros(k) + s.drop_last());
        lemma_leading_zeros(k, s.drop_last(), base);
    } else if k > 0 {
        assert(zeros(k) + s =~= zeros(k));
        assert((zeros(k) + s).drop_last() =~= zeros(k - 1) + s);
        lemma_leading_zeros(k - 1, s, base);
        assert(value(zeros(k) + s, base) == 0 * base + 0);
        assert(0 * base == 0) by (nonlinear_arith);
    } else {
        assert(zeros(k) + s =~= s);
    }
}

/// A window identifier tells its number: two numbers with one identifier are
/// the same number.
pub proof fn law_hex_ids_differ(n: nat, m: nat)
    requires
        hex_id(n) == hex_id(m),
    ensures
        n == m,
{
    let a = zeros(8 - digits(n, 16).len()) + digits(n, 16);
    let b = zeros(8 - digits(m, 16).len()) + digits(m, 16);
    assert(hex_id(n) =~= "0x"@ + a);
    assert(hex_id(m) =~= "0x"@ + b);
    assert(a =~= hex_id(n).skip("0x"@.len() as int));
    assert(b =~= hex_id(m).skip("0x"@.len() as int));
    lemma_leading_zeros(8 - digits(n, 16).len(), digits(n, 16), 16);
    lemma_leading_zeros(8 - digits(m, 16).len(), digits(m, 16), 16);
    lemma_value_of_digits(n, 16);
    lemma_value_of_digits(m, 16);
}

/// A number written in decimal is read back as itself.
pub proof fn law_decimal_round_trip(n: nat, max: nat)
    requires
        n <= max,
    ensures
        parsed_number(digits(n, 10), max) == Some(n),
{
    lemma_value_of_digits(n, 10);
    let s = digits(n, 10);
    assert('0' <= s[0] <= '9');
}

/// Appends `n`, written in `base`, to `out`.
fn push_digits(n: u64, base: u64, out: &mut String)
    requires
        2 <= base <= 16,
    ensures
        final(out)@ == old(out)@ + digits(n as nat, base as nat),
    decreases n,
{
    if n >= base {
        proof {
            lemma_div_smaller(n as nat, base as nat);
        }
        push_digits(n / base, base, out);
    }
    let d: u64 = n % base;
    assert(d < base) by (nonlinear_arith)
        requires
            d == n % base,
            2 <= base,
    ;
    assert(n < base ==> d == n) by (nonlinear_arith)
        requires
            d == n % base,
            2 <= base,
    ;
    let c: char = if d < 10 {
        (48u8 + d as u8) as char
    } else {
        (97u8 + (d as u8 - 10)) as char
    };
    out.push(c);
    assert(out@ =~= old(out)@ + digits(n as nat, base as nat));
}

/// `n` in decimal.
pub fn to_decimal(n: u64) -> (r: String)
    ensures
        r@ == digits(n as nat, 10),
{
    let mut r = String::new();
    push_digits(n, 10, &mut r);
    assert(Seq::<char>::empty() + digits(n as nat, 10) =~= digits(n as nat, 10));
    r
}

/// `n` as a window identifier: `0x` and at least eight hexadecimal digits.
pub fn to_hex_id(n: u64) -> (r: String)
    ensures
        r@ == hex_id(n as nat),
{
    let mut body = String::new();
    push_digits(n, 16, &mut body);
    assert(body@ =~= digits(n as nat, 16));
    let written = chars_of(body.as_str());
    let mut r = "0x".to_owned();
    let mut width: usize = written.len();
    let ghost len = written@.len();
    assert(r@ =~= "0x"@ + zeros(width - len));
    while width < 8
        invariant
            len <= width,
            width <= 8 || width == len,
            r@ == "0x"@ + zeros(width - len),
        decreases 8 - width,
    {
        r.push('0');
        assert(("0x"@ + zeros(width - len)).push('0') =~= "0x"@ + zeros(width + 1 - len));
        width += 1;
    }
    r.append(body.as_str());
    assert(zeros(width - len) =~= zeros(8 - digits(n as nat, 16).len()));
    r
}

proof fn lemma_value_grows(s: Seq<char>, i: int, base: nat)
    requires
        0 <= i <= s.len(),
        base >= 1,
    ensures
        value(s.take(i), base) <= value(s, base),
    decreases s.len() - i,
{
    if i < s.len() {
        lemma_value_grows(s, i + 1, base);
        assert(s.take(i + 1).drop_last() =~= s.take(i));
        let v = value(s.take(i), base);
        assert(v <= v * base) by (nonlinear_arith)
            requires
                base >= 1,
        ;
    } else {
        assert(s.take(i) =~= s);
    }
}

/// The number that `s` stands for, where it is at most `max`.
pub fn parse_number(s: &str, max: u64) -> (r: Option<u64>)
    ensures
        match r {
            Some(n) => parsed_number(s@, max as nat) == Some(n as nat),
            None => parsed_number(s@, max as nat) is None,
        },
{
    let v = chars_of(s);
    let from: usize = if v.len() > 0 && v[0] == '+' {
        1
    } else {
        0
    };
    let ghost body = v@.skip(from as int);
    assert(body == if v@.len() > 0 && v@[0] == '+' {
        v@.drop_first()
    } else {
        v@
    });
    if from == v.len() {
        return None;
    }
    let mut n: u64 = 0;
    let mut i: usize = from;
    assert(body.take(0) =~= Seq::<char>::empty());
    while i < v.len()
        invariant
            from <= i <= v.len(),
            from < v.len(),
            s@ == v@,
            body == v@.skip(from as int),
            body == if v@.len() > 0 && v@[0] == '+' {
                v@.drop_first()
            } else {
                v@
            },
            n <= max,
            n == value(body.take(i - from), 10),
            all_decimal(body.take(i - from)),
        decreases v.len() - i,
    {
        let c: char = v[i];
        proof {
            assert(body[i - from] == c);
            assert(body.take(i + 1 - from).drop_last() =~= body.take(i - from));
            assert(body.take(i + 1 - from) =~= body.take(i - from).push(c));
            lemma_value_grows(body, i + 1 - from, 10);
        }
        if !('0' <= c && c <= '9') {
            return None;
        }
        let d: u64 = (c as u8 - 48u8) as u64;
        if n > (u64::MAX - d) / 10 {
            return None;
        }
        n = n * 10 + d;
        if n > max {
            return None;
        }
        i += 1;
    }
    assert(body.take(v.len() - from) =~= body);
    Some(n)
}

/// Numbers are written digit by digit: the last digit of a number stands for
/// what is left when it is divided by the base, and what comes before it is the
/// rest; a number below the base is one digit.
pub proof fn law_digits_stand_for_their_places(n: nat, d: nat, base: nat)
    requires
        2 <= base <= 16,
        d < base,
    ensures
        digits(d, base).len() == 1,
        d < 10 ==> digits(d, base)[0] as u32 == 48 + d,
        d >= 10 ==> digits(d, base)[0] as u32 == 97 + (d - 10),
        n > 0 ==> digits(n * base + d, base) == digits(n, base) + digits(d, base),
{
    if n > 0 {
        let m = n * base + d;
        assert(m >= base && m / base == n && m % base == d) by (nonlinear_arith)
            requires
                m == n * base + d,
                n > 0,
                d < base,
        ;
        assert(digits(m, base) =~= digits(n, base) + digits(d, base));
    }
}

/// A window identifier is `0x` and the number's hexadecimal digits, with zeros
/// before them where they are fewer than eight.
pub proof fn law_a_window_id_has_eight_digits(n: nat)
    ensures
        ({
            let id = hex_id(n);
            let d = digits(n, 16);
            &&& id.len() == if d.len() < 8 {
                10
            } else {
                2 + d.len()
            }
            &&& id[0] == '0' && id[1] == 'x'
            &&& id.skip(id.len() - d.len()) == d
            &&& forall|i: int| 2 <= i < id.len() - d.len() ==> #[trigger] id[i] == '0'
        }),
{
    reveal_strlit("0x");
    let id = hex_id(n);
    let d = digits(n, 16);
    assert(id.skip(id.len() - d.len()) =~= d);
}

/// Reading a number goes digit by digit, too: one digit more is ten times the
/// number and the digit's own worth, as long as that is not too much.
pub proof fn law_reading_one_digit_more(s: Seq<char>, c: char, max: nat)
    requires
        s.len() > 0,
        forall|i: int| 0 <= i < s.len() ==> '0' <= #[trigger] s[i] <= '9',
        '0' <= c <= '9',
    ensures
        ({
            let d = (c as u32 - 48) as nat;
            &&& parsed_number(seq![c], max) == if d <= max {
                Some(d)
            } else {
                None::<nat>
            }
            &&& parsed_number(s.push(c), max) == match parsed_number(s, max) {
                Some(n) => if 10 * n + d <= max {
                    Some(10 * n + d)
                } else {
                    None
                },
                None => None,
            }
        }),
{
    let d = (c as u32 - 48) as nat;
    let one = seq![c];
    assert(one.drop_last() =~= Seq::<char>::empty());
    assert(one.last() == c);
    assert(value(one.drop_last(), 10) == 0);
    assert(value(one, 10) == d);
    assert(all_decimal(one));
    let t = s.push(c);
    assert(t.drop_last() =~= s);
    assert(t[0] == s[0]);
    assert(all_decimal(s));
    assert(all_decimal(t)) by {
        assert forall|i: int| 0 <= i < t.len() implies '0' <= #[trigger] t[i] <= '9' by {
            if i < s.len() {
                assert(t[i] == s[i]);
                assert('0' <= s[i] <= '9');
            }
        }
    }
    assert('0' <= s[0] <= '9');
}

/// What is no number: nothing, a sign alone, and anything with a character in
/// it that is no digit, but for one plus sign at the start, which changes
/// nothing.
pub proof fn law_what_is_no_number(s: Seq<char>, max: nat)
    ensures
        s.len() == 0 ==> parsed_number(s, max) is None,
        parsed_number(seq!['+'], max) is None,
        (exists|i: int| 1 <= i < s.len() && !('0' <= #[trigger] s[i] <= '9'))
            ==> parsed_number(s, max) is None,
        s.len() > 0 && s[0] != '+' && !('0' <= s[0] <= '9') ==> parsed_number(s, max) is None,
        s.len() > 0 && s[0] != '+' ==> parsed_number(seq!['+'] + s, max) == parsed_number(s, max),
{
    assert(seq!['+'].drop_first() =~= Seq::<char>::empty());
    assert((seq!['+'] + s).drop_first() =~= s);
    if exists|i: int| 1 <= i < s.len() && !('0' <= #[trigger] s[i] <= '9') {
        let i = choose|i: int| 1 <= i < s.len() && !('0' <= #[trigger] s[i] <= '9');
        assert(s.drop_first()[i - 1] == s[i]);
        assert(!('0' <= s[i] <= '9'));
        assert(!all_decimal(s));
        assert(!all_decimal(s.drop_first()));
    }
    if s.len() > 0 && s[0] != '+' && !('0' <= s[0] <= '9') {
        assert(!('0' <= s[0] <= '9'));
        assert(!all_decimal(s));
    }
}

} // verus!
