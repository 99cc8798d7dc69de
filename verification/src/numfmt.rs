//! Decimal numbers as text: how integers are written (`to_string`), read
//! back (`str::parse` for unsigned integers), and which texts the standard
//! library reads as a floating-point number.

use vstd::prelude::*;

verus! {

pub open spec fn is_digit(c: char) -> bool {
    '0' <= c && c <= '9'
}

pub open spec fn digit_value(c: char) -> nat {
    (c as int - '0' as int) as nat
}

/// The character of a decimal digit `d < 10`.
pub open spec fn digit_char(d: nat) -> char {
    (d + '0' as nat) as char
}

/// The decimal text of `n`, without sign or leading zeros (`n.to_string()`).
pub open spec fn dec(n: nat) -> Seq<char>
    decreases n,
{
    if n < 10 {
        seq![digit_char(n)]
    } else {
        dec(n / 10).push(digit_char(n % 10))
    }
}

pub open spec fn all_digits(s: Seq<char>) -> bool {
    forall|i: int| 0 <= i < s.len() ==> is_digit(#[trigger] s[i])
}

/// The value of a string of decimal digits.
pub open spec fn digits_value(s: Seq<char>) -> nat
    decreases s.len(),
{
    if s.len() == 0 {
        0
    } else {
        digits_value(s.drop_last()) * 10 + digit_value(s.last())
    }
}

/// `s` without one leading `'+'`, if it has one.
pub open spec fn strip_plus(s: Seq<char>) -> Seq<char> {
    if s.len() > 0 && s[0] == '+' {
        s.drop_first()
    } else {
        s
    }
}

/// `str::parse` for an unsigned integer type whose largest value is `max`:
/// an optional `'+'`, then one or more ASCII digits, of value at most `max`.
pub open spec fn parse_unsigned(s: Seq<char>, max: nat) -> Option<nat> {
    let body = strip_plus(s);
    if body.len() > 0 && all_digits(body) && digits_value(body) <= max {
        Some(digits_value(body))
    } else {
        None
    }
}

fn digit_of(d: u64) -> (c: char)
    requires
        d < 10,
    ensures
        c == digit_char(d as nat),
{
    let b: u8 = (d as u8) + 48u8;
    b as char
}

/// `n.to_string()` for an unsigned integer.
pub fn dec_chars(n: u64) -> (r: Vec<char>)
    ensures
        r@ == dec(n as nat),
    decreases n,
{
    if n < 10 {
        let mut v: Vec<char> = Vec::new();
        v.push(digit_of(n));
        assert(v@ =~= seq![digit_char(n as nat)]);
        v
    } else {
        let mut v = dec_chars(n / 10);
        v.push(digit_of(n % 10));
        v
    }
}

proof fn lemma_dec_digits(n: nat)
    ensures
        dec(n).len() > 0,
        all_digits(dec(n)),
        digits_value(dec(n)) == n,
    decreases n,
{
    if n < 10 {
        assert(dec(n) =~= seq![digit_char(n)]);
        assert(dec(n).drop_last() =~= Seq::<char>::empty());
        assert(digit_value(digit_char(n)) == n);
        assert(digits_value(Seq::<char>::empty()) == 0);
        assert(digits_value(dec(n)) == digits_value(dec(n).drop_last()) * 10 + digit_value(
            dec(n).last(),
        ));
    } else {
        lemma_dec_digits(n / 10);
        assert(digit_value(digit_char(n % 10)) == n % 10);
        assert(n == (n / 10) * 10 + n % 10);
        let d = dec(n / 10).push(digit_char(n % 10));
        assert(d.drop_last() =~= dec(n / 10));
        assert(digits_value(d) == digits_value(d.drop_last()) * 10 + digit_value(d.last()));
        assert forall|i: int| 0 <= i < d.len() implies is_digit(#[trigger] d[i]) by {
            if i < d.len() - 1 {
                assert(d[i] == dec(n / 10)[i]);
            }
        }
    }
}

/// Reading back what `to_string` wrote gives the number again.
pub proof fn lemma_parse_dec(n: nat, max: nat)
    requires
        n <= max,
    ensures
        parse_unsigned(dec(n), max) == Some(n),
{
    lemma_dec_digits(n);
    assert(dec(n)[0] != '+');
}

proof fn lemma_digits_value_grows(s: Seq<char>, i: int)
    requires
        0 <= i <= s.len(),
    ensures
        digits_value(s.take(i)) <= digits_value(s),
    decreases s.len() - i,
{
    if i < s.len() {
        lemma_digits_value_grows(s, i + 1);
        assert(s.take(i + 1).drop_last() =~= s.take(i));
    } else {
        assert(s.take(i) =~= s);
    }
}

/// `str::parse::<u64>` on characters.
pub fn parse_u64_chars(s: &Vec<char>) -> (r: Option<u64>)
    ensures
        r == (match parse_unsigned(s@, u64::MAX as nat) {
            Some(v) => Some(v as u64),
            None => None,
        }),
{
    let start: usize = if s.len() > 0 && s[0] == '+' {
        1
    } else {
        0
    };
    let ghost body = strip_plus(s@);
    assert(body =~= s@.skip(start as int));
    if start == s.len() {
        return None;
    }
    let mut acc: u64 = 0;
    let mut i: usize = start;
    assert(body.take(0) =~= Seq::<char>::empty());
    while i < s.len()
        invariant
            start <= i <= s@.len(),
            body == s@.skip(start as int),
            body == strip_plus(s@),
            all_digits(body.take(i - start)),
            acc as nat == digits_value(body.take(i - start)),
        decreases s.len() - i,
    {
        let c = s[i];
        let ghost k = i - start;
        assert(body[k] == c);
        assert(body.take(k + 1).drop_last() =~= body.take(k));
        if c < '0' || c > '9' {
            assert(!is_digit(body[k]));
            assert(!all_digits(body));
            assert(parse_unsigned(s@, u64::MAX as nat) is None);
            return None;
        }
        let d: u64 = (c as u64) - 48;
        if acc > (u64::MAX - d) / 10 {
            proof {
                assert(digits_value(body.take(k + 1)) == acc * 10 + d);
                assert(acc * 10 + d > u64::MAX) by (nonlinear_arith)
                    requires
                        acc > (u64::MAX - d) / 10,
                        d < 10,
                ;
                lemma_digits_value_grows(body, k + 1);
                assert(parse_unsigned(s@, u64::MAX as nat) is None);
            }
            return None;
        }
        proof {
            assert(acc * 10 + d <= u64::MAX) by (nonlinear_arith)
                requires
                    acc <= (u64::MAX - d) / 10,
                    d < 10,
            ;
            assert forall|j: int| 0 <= j < k + 1 implies is_digit(#[trigger] body.take(k + 1)[j]) by {
                if j < k {
                    assert(body.take(k + 1)[j] == body.take(k)[j]);
                }
            }
        }
        acc = acc * 10 + d;
        i = i + 1;
    }
    assert(body.take(i - start) =~= body);
    Some(acc)
}

/// `str::parse::<u32>` on characters.
pub fn parse_u32_chars(s: &Vec<char>) -> (r: Option<u32>)
    ensures
        r == (match parse_unsigned(s@, u32::MAX as nat) {
            Some(v) => Some(v as u32),
            None => None,
        }),
{
    match parse_u64_chars(s) {
        Some(v) => {
            if v <= u32::MAX as u64 {
                Some(v as u32)
            } else {
                None
            }
        },
        None => None,
    }
}

/// `str::parse::<u8>` on characters.
pub fn parse_u8_chars(s: &Vec<char>) -> (r: Option<u8>)
    ensures
        r == (match parse_unsigned(s@, u8::MAX as nat) {
            Some(v) => Some(v as u8),
            None => None,
        }),
{
    match parse_u64_chars(s) {
        Some(v) => {
            if v <= u8::MAX as u64 {
                Some(v as u8)
            } else {
                None
            }
        },
        None => None,
    }
}


/// `s` without one leading sign character.
pub open spec fn strip_sign(s: Seq<char>) -> Seq<char> {
    if s.len() > 0 && (s[0] == '+' || s[0] == '-') {
        s.drop_first()
    } else {
        s
    }
}

pub open spec fn ascii_lower(c: char) -> char {
    if 'A' <= c && c <= 'Z' {
        (c as int + 32) as char
    } else {
        c
    }
}

/// `s` equals the lower-case word `w` when its ASCII letters are lowered.
pub open spec fn eq_ignore_case(s: Seq<char>, w: Seq<char>) -> bool {
    s.len() == w.len() && forall|i: int| 0 <= i < s.len() ==> ascii_lower(#[trigger] s[i]) == w[i]
}

pub open spec fn count_char(s: Seq<char>, c: char) -> nat
    decreases s.len(),
{
    if s.len() == 0 {
        0
    } else {
        count_char(s.drop_last(), c) + if s.last() == c {
            1nat
        } else {
            0nat
        }
    }
}

/// The position of the first `'e'` or `'E'` in `s`, or its length.
pub open spec fn exp_pos(s: Seq<char>) -> nat
    decreases s.len(),
{
    if s.len() == 0 {
        0
    } else if s[0] == 'e' || s[0] == 'E' {
        0
    } else {
        1 + exp_pos(s.drop_first())
    }
}

/// `Digit+ | Digit+ '.' Digit* | Digit* '.' Digit+`.
pub open spec fn is_mantissa(m: Seq<char>) -> bool {
    &&& forall|i: int| 0 <= i < m.len() ==> is_digit(#[trigger] m[i]) || m[i] == '.'
    &&& count_char(m, '.') <= 1
    &&& exists|i: int| 0 <= i < m.len() && is_digit(#[trigger] m[i])
}

/// `('e' | 'E') Sign? Digit+`.
pub open spec fn is_exponent(x: Seq<char>) -> bool {
    &&& x.len() > 0
    &&& (x[0] == 'e' || x[0] == 'E')
    &&& strip_sign(x.drop_first()).len() > 0
    &&& all_digits(strip_sign(x.drop_first()))
}

/// `Number ::= Mantissa Exp?`
pub open spec fn is_number(b: Seq<char>) -> bool {
    let k = exp_pos(b) as int;
    is_mantissa(b.take(k)) && (k == b.len() || is_exponent(b.skip(k)))
}

/// The texts that `str::parse::<f64>` accepts, as its documentation gives them:
/// `Sign? ('inf' | 'infinity' | 'nan' | Number)`, the words and `e` in any case.
pub open spec fn is_float_text(s: Seq<char>) -> bool {
    let b = strip_sign(s);
    ||| eq_ignore_case(b, seq!['i', 'n', 'f'])
    ||| eq_ignore_case(b, seq!['i', 'n', 'f', 'i', 'n', 'i', 't', 'y'])
    ||| eq_ignore_case(b, seq!['n', 'a', 'n'])
    ||| is_number(b)
}

fn lower_char(c: char) -> (r: char)
    ensures
        r == ascii_lower(c),
{
    if 'A' <= c && c <= 'Z' {
        let b: u8 = (c as u8) + 32u8;
        b as char
    } else {
        c
    }
}

fn eq_ignore_case_chars(s: &Vec<char>, from: usize, w: &Vec<char>) -> (r: bool)
    requires
        from <= s@.len(),
    ensures
        r == eq_ignore_case(s@.skip(from as int), w@),
{
    let ghost t = s@.skip(from as int);
    if s.len() - from != w.len() {
        return false;
    }
    let mut i: usize = 0;
    while i < w.len()
        invariant
            from <= s@.len(),
            t == s@.skip(from as int),
            t.len() == w@.len(),
            from + w@.len() == s@.len(),
            s@.len() <= usize::MAX,
            i <= w@.len(),
            forall|k: int| 0 <= k < i ==> ascii_lower(#[trigger] t[k]) == w@[k],
        decreases w.len() - i,
    {
        if lower_char(s[from + i]) != w[i] {
            assert(ascii_lower(t[i as int]) != w@[i as int]);
            return false;
        }
        i = i + 1;
    }
    true
}

proof fn lemma_exp_pos(s: Seq<char>, k: int)
    requires
        0 <= k <= s.len(),
        forall|i: int| 0 <= i < k ==> #[trigger] s[i] != 'e' && s[i] != 'E',
        k == s.len() || s[k] == 'e' || s[k] == 'E',
    ensures
        exp_pos(s) == k,
    decreases k,
{
    if k > 0 {
        assert(s[0] != 'e' && s[0] != 'E');
        lemma_exp_pos(s.drop_first(), k - 1);
    }
}

/// Whether `str::parse::<f64>` accepts the characters `s`.
pub fn is_float_chars(s: &Vec<char>) -> (r: bool)
    ensures
        r == is_float_text(s@),
{
    let start: usize = if s.len() > 0 && (s[0] == '+' || s[0] == '-') {
        1
    } else {
        0
    };
    let ghost b = strip_sign(s@);
    assert(b =~= s@.skip(start as int));
    let inf = crate::text::chars_of("inf");
    let infinity = crate::text::chars_of("infinity");
    let nan = crate::text::chars_of("nan");
    proof {
        reveal_strlit("inf");
        reveal_strlit("infinity");
        reveal_strlit("nan");
        assert(inf@ =~= seq!['i', 'n', 'f']);
        assert(infinity@ =~= seq!['i', 'n', 'f', 'i', 'n', 'i', 't', 'y']);
        assert(nan@ =~= seq!['n', 'a', 'n']);
    }
    if eq_ignore_case_chars(s, start, &inf) || eq_ignore_case_chars(s, start, &infinity)
        || eq_ignore_case_chars(s, start, &nan) {
        return true;
    }
    // the mantissa runs up to the first exponent mark
    let mut k: usize = start;
    let mut dots: usize = 0;
    let mut seen_digit = false;
    let mut only_mantissa_chars = true;
    assert(b.take(0) =~= Seq::<char>::empty());
    while k < s.len() && s[k] != 'e' && s[k] != 'E'
        invariant
            start <= k <= s@.len(),
            b == s@.skip(start as int),
            forall|i: int| 0 <= i < k - start ==> #[trigger] b[i] != 'e' && b[i] != 'E',
            dots as nat == count_char(b.take(k - start), '.'),
            dots <= k,
            seen_digit == exists|i: int| 0 <= i < k - start && is_digit(#[trigger] b[i]),
            only_mantissa_chars == forall|i: int|
                0 <= i < k - start ==> is_digit(#[trigger] b[i]) || b[i] == '.',
        decreases s.len() - k,
    {
        let c = s[k];
        let ghost j = k - start;
        assert(b[j] == c);
        assert(b.take(j + 1).drop_last() =~= b.take(j));
        if c == '.' {
            dots = dots + 1;
        } else if '0' <= c && c <= '9' {
            seen_digit = true;
        } else {
            only_mantissa_chars = false;
        }
        k = k + 1;
    }
    let ghost m = b.take(k - start);
    proof {
        lemma_exp_pos(b, k - start);
        assert forall|i: int| 0 <= i < m.len() implies m[i] == b[i] by {}
        assert((forall|i: int| 0 <= i < m.len() ==> is_digit(#[trigger] m[i]) || m[i] == '.')
            == only_mantissa_chars);
        assert((exists|i: int| 0 <= i < m.len() && is_digit(#[trigger] m[i])) == seen_digit) by {
            if seen_digit {
                let i = choose|i: int| 0 <= i < k - start && is_digit(#[trigger] b[i]);
                assert(is_digit(m[i]));
            }
        }
    }
    let mantissa_ok = only_mantissa_chars && dots <= 1 && seen_digit;
    assert(mantissa_ok == is_mantissa(m));
    if !mantissa_ok {
        return false;
    }
    if k == s.len() {
        return true;
    }
    // exponent: 'e' Sign? Digit+
    let ghost x = b.skip(k - start);
    assert(x =~= s@.skip(k as int));
    let mut e: usize = k + 1;
    if e < s.len() && (s[e] == '+' || s[e] == '-') {
        e = e + 1;
    }
    let ghost y = strip_sign(x.drop_first());
    assert(y =~= s@.skip(e as int));
    if e == s.len() {
        return false;
    }
    digits_from(s, e)
}

/// Whether `s[from..]` holds ASCII digits only.
fn digits_from(s: &Vec<char>, from: usize) -> (r: bool)
    requires
        from <= s@.len(),
    ensures
        r == all_digits(s@.skip(from as int)),
{
    let ghost y = s@.skip(from as int);
    let mut i: usize = from;
    while i < s.len()
        invariant
            from <= i <= s@.len(),
            y == s@.skip(from as int),
            forall|q: int| 0 <= q < i - from ==> is_digit(#[trigger] y[q]),
        decreases s.len() - i,
    {
        if s[i] < '0' || s[i] > '9' {
            assert(!is_digit(y[i - from]));
            return false;
        }
        i = i + 1;
    }
    true
}

} // verus!
