use vstd::prelude::*;

verus! {

/// The character for one decimal digit.
pub open spec fn dec_digit(d: nat) -> char {
    if d == 0 {
        '0'
    } else if d == 1 {
        '1'
    } else if d == 2 {
        '2'
    } else if d == 3 {
        '3'
    } else if d == 4 {
        '4'
    } else if d == 5 {
        '5'
    } else if d == 6 {
        '6'
    } else if d == 7 {
        '7'
    } else if d == 8 {
        '8'
    } else {
        '9'
    }
}

/// The decimal rendering of a natural number, without leading zeros.
pub open spec fn dec_of(n: nat) -> Seq<char>
    decreases n,
{
    if n < 10 {
        seq![dec_digit(n)]
    } else {
        dec_of(n / 10).push(dec_digit(n % 10))
    }
}

fn digit_char(d: u64) -> (c: char)
    requires
        d < 10,
    ensures
        c == dec_digit(d as nat),
{
    match d {
        0 => '0',
        1 => '1',
        2 => '2',
        3 => '3',
        4 => '4',
        5 => '5',
        6 => '6',
        7 => '7',
        8 => '8',
        _ => '9',
    }
}

/// Appends the decimal rendering of `n` to `out`.
pub fn push_dec_u64(out: &mut String, n: u64)
    ensures
        final(out)@ == old(out)@ + dec_of(n as nat),
    decreases n,
{
    if n < 10 {
        out.push(digit_char(n));
        proof {
            assert(old(out)@ + dec_of(n as nat) =~= old(out)@.push(dec_digit(n as nat)));
        }
    } else {
        push_dec_u64(out, n / 10);
        out.push(digit_char(n % 10));
        proof {
            assert(old(out)@ + dec_of(n as nat) =~= (old(out)@ + dec_of((n / 10) as nat)).push(
                dec_digit((n % 10) as nat),
            ));
        }
    }
}

/// Appends the decimal rendering of `n` to `out`.
pub fn push_dec_usize(out: &mut String, n: usize)
    ensures
        final(out)@ == old(out)@ + dec_of(n as nat),
    decreases n,
{
    if n < 10 {
        out.push(digit_char(n as u64));
        proof {
            assert(old(out)@ + dec_of(n as nat) =~= old(out)@.push(dec_digit(n as nat)));
        }
    } else {
        push_dec_usize(out, n / 10);
        out.push(digit_char((n % 10) as u64));
        proof {
            assert(old(out)@ + dec_of(n as nat) =~= (old(out)@ + dec_of((n / 10) as nat)).push(
                dec_digit((n % 10) as nat),
            ));
        }
    }
}

/// The decimal rendering of `n`, as a string.
pub fn u64_dec(n: u64) -> (r: String)
    ensures
        r@ == dec_of(n as nat),
{
    let mut r = String::new();
    push_dec_u64(&mut r, n);
    proof {
        assert(Seq::<char>::empty() + dec_of(n as nat) =~= dec_of(n as nat));
    }
    r
}

/// The decimal rendering of an integer: a leading minus sign where it is
/// negative.
pub open spec fn dec_int_of(n: int) -> Seq<char> {
    if n < 0 {
        seq!['-'] + dec_of((-n) as nat)
    } else {
        dec_of(n as nat)
    }
}

/// Appends the decimal rendering of `n`, signed, to `out`.
pub fn push_dec_i32(out: &mut String, n: i32)
    ensures
        final(out)@ == old(out)@ + dec_int_of(n as int),
{
    if n < 0 {
        out.push('-');
        let m: u64 = (-(n as i64)) as u64;
        push_dec_u64(out, m);
        proof {
            assert(old(out)@ + dec_int_of(n as int) =~= old(out)@.push('-') + dec_of(m as nat));
        }
    } else {
        push_dec_u64(out, n as u64);
    }
}

/// Whether a character is a decimal digit.
pub open spec fn is_dec_digit(c: char) -> bool {
    '0' <= c && c <= '9'
}

/// The value of one decimal digit character.
pub open spec fn digit_val(c: char) -> nat {
    (c as nat - '0' as nat) as nat
}

/// Whether a token is a non-empty run of decimal digits.
pub open spec fn is_dec_token(s: Seq<char>) -> bool {
    s.len() > 0 && forall|i: int| 0 <= i < s.len() ==> is_dec_digit(#[trigger] s[i])
}

/// The numeric value of a run of decimal digit characters.
pub open spec fn dec_val(s: Seq<char>) -> nat
    decreases s.len(),
{
    if s.len() == 0 {
        0
    } else {
        dec_val(s.drop_last()) * 10 + digit_val(s.last())
    }
}

/// A longer run of digits never has a smaller value.
proof fn lemma_dec_val_prefix(s: Seq<char>, i: int)
    requires
        0 <= i <= s.len(),
    ensures
        dec_val(s.take(i)) <= dec_val(s),
    decreases s.len() - i,
{
    if i < s.len() {
        lemma_dec_val_prefix(s, i + 1);
        assert(s.take(i + 1).drop_last() =~= s.take(i));
        assert(dec_val(s.take(i)) <= dec_val(s.take(i)) * 10 + digit_val(s[i]));
    } else {
        assert(s.take(i) =~= s);
    }
}

fn exec_digit_val(c: char) -> (v: usize)
    requires
        is_dec_digit(c),
    ensures
        v == digit_val(c),
        v < 10,
{
    (c as usize) - ('0' as usize)
}

/// Reads a token as a non-negative integer: the value of its digits where they
/// all are digits and the value fits in `usize`, and nothing otherwise.
pub fn parse_usize_token(t: &Vec<char>) -> (r: Option<usize>)
    ensures
        match r {
            Some(v) => is_dec_token(t@) && v == dec_val(t@),
            None => !is_dec_token(t@) || dec_val(t@) > usize::MAX,
        },
{
    if t.len() == 0 {
        return None;
    }
    let mut acc: usize = 0;
    let mut i: usize = 0;
    while i < t.len()
        invariant
            i <= t@.len(),
            forall|j: int| 0 <= j < i ==> is_dec_digit(#[trigger] t@[j]),
            acc == dec_val(t@.take(i as int)),
        decreases t@.len() - i,
    {
        let c = t[i];
        if !('0' <= c && c <= '9') {
            return None;
        }
        let d = exec_digit_val(c);
        let ghost prev = t@.take(i as int);
        proof {
            assert(t@.take(i + 1).drop_last() =~= prev);
            assert(dec_val(t@.take(i + 1)) == acc * 10 + d);
        }
        let shifted = match acc.checked_mul(10) {
            Some(s) => s,
            None => {
                proof {
                    lemma_dec_val_prefix(t@, i + 1);
                }
                return None;
            },
        };
        let next = match shifted.checked_add(d) {
            Some(s) => s,
            None => {
                proof {
                    lemma_dec_val_prefix(t@, i + 1);
                }
                return None;
            },
        };
        acc = next;
        i = i + 1;
    }
    proof {
        assert(t@.take(t@.len() as int) =~= t@);
    }
    Some(acc)
}

/// How many dots a run of characters holds.
pub open spec fn dot_count(s: Seq<char>) -> nat
    decreases s.len(),
{
    if s.len() == 0 {
        0
    } else {
        dot_count(s.drop_last()) + if s.last() == '.' {
            1nat
        } else {
            0nat
        }
    }
}

/// Whether a run of characters is all digits and dots with at most one dot and
/// at least one digit: the body of a decimal mantissa such as `1`, `1.5`,
/// `.5` or `2.`.
pub open spec fn is_mantissa(s: Seq<char>) -> bool {
    &&& s.len() > 0
    &&& forall|i: int| 0 <= i < s.len() ==> is_dec_digit(#[trigger] s[i]) || s[i] == '.'
    &&& dot_count(s) <= 1
    &&& exists|i: int| 0 <= i < s.len() && is_dec_digit(#[trigger] s[i])
}

/// Whether a run of characters is an exponent part: an optional sign and then
/// at least one digit.
pub open spec fn is_exponent(s: Seq<char>) -> bool {
    if s.len() > 0 && (s[0] == '+' || s[0] == '-') {
        is_dec_token(s.drop_first())
    } else {
        is_dec_token(s)
    }
}

/// Whether a run of characters is a mantissa with an optional exponent
/// introduced by `e` or `E`.
pub open spec fn is_mantissa_exponent(s: Seq<char>) -> bool {
    ||| is_mantissa(s)
    ||| exists|i: int|
        0 <= i < s.len() && (#[trigger] s[i] == 'e' || s[i] == 'E') && is_mantissa(s.take(i))
            && is_exponent(s.skip(i + 1))
}

/// Whether a token is a decimal floating-point number: an optional sign, a
/// mantissa, and an optional exponent.  This is the shape that std's
/// float parsing accepts for finite inputs, so every such token reads as a
/// floating-point value.
pub open spec fn is_float_token(s: Seq<char>) -> bool {
    if s.len() > 0 && (s[0] == '+' || s[0] == '-') {
        is_mantissa_exponent(s.drop_first())
    } else {
        is_mantissa_exponent(s)
    }
}

fn check_digits(t: &Vec<char>, from: usize, to: usize) -> (r: bool)
    requires
        from <= to <= t@.len(),
    ensures
        r == is_dec_token(t@.subrange(from as int, to as int)),
{
    let ghost s = t@.subrange(from as int, to as int);
    if from == to {
        return false;
    }
    let mut i: usize = from;
    while i < to
        invariant
            from <= i <= to <= t@.len(),
            s == t@.subrange(from as int, to as int),
            forall|j: int| 0 <= j < i - from ==> is_dec_digit(#[trigger] s[j]),
        decreases to - i,
    {
        let c = t[i];
        proof {
            assert(s[i - from] == t@[i as int]);
        }
        if !('0' <= c && c <= '9') {
            return false;
        }
        i = i + 1;
    }
    true
}

fn check_exponent(t: &Vec<char>, from: usize) -> (r: bool)
    requires
        from <= t@.len(),
    ensures
        r == is_exponent(t@.subrange(from as int, t@.len() as int)),
{
    let ghost s = t@.subrange(from as int, t@.len() as int);
    if from < t.len() && (t[from] == '+' || t[from] == '-') {
        proof {
            assert(s.drop_first() =~= t@.subrange(from + 1, t@.len() as int));
        }
        check_digits(t, from + 1, t.len())
    } else {
        check_digits(t, from, t.len())
    }
}

fn check_mantissa(t: &Vec<char>, from: usize, to: usize) -> (r: bool)
    requires
        from <= to <= t@.len(),
    ensures
        r == is_mantissa(t@.subrange(from as int, to as int)),
{
    let ghost s = t@.subrange(from as int, to as int);
    if from == to {
        return false;
    }
    let mut dots: usize = 0;
    let mut digits: usize = 0;
    let mut i: usize = from;
    while i < to
        invariant
            from <= i <= to <= t@.len(),
            s == t@.subrange(from as int, to as int),
            forall|j: int| 0 <= j < i - from ==> is_dec_digit(#[trigger] s[j]) || s[j] == '.',
            dots == dot_count(s.take(i - from)),
            dots <= i - from,
            digits > 0 <==> exists|j: int| 0 <= j < i - from && is_dec_digit(#[trigger] s[j]),
            digits <= i - from,
        decreases to - i,
    {
        let c = t[i];
        proof {
            assert(s[i - from] == t@[i as int]);
            assert(s.take(i - from + 1).drop_last() =~= s.take(i - from));
        }
        if c == '.' {
            dots = dots + 1;
        } else if '0' <= c && c <= '9' {
            digits = digits + 1;
        } else {
            return false;
        }
        i = i + 1;
    }
    proof {
        assert(s.take(to - from) =~= s);
    }
    dots <= 1 && digits > 0
}

/// Decides whether a token is a decimal floating-point number.
#[verifier::rlimit(50)]
pub fn float_token_ok(t: &Vec<char>) -> (r: bool)
    ensures
        r == is_float_token(t@),
{
    let start: usize = if t.len() > 0 && (t[0] == '+' || t[0] == '-') {
        1
    } else {
        0
    };
    let ghost body = if t@.len() > 0 && (t@[0] == '+' || t@[0] == '-') {
        t@.drop_first()
    } else {
        t@
    };
    proof {
        assert(body =~= t@.subrange(start as int, t@.len() as int));
    }
    // Find the first exponent marker, if any.
    let mut i: usize = start;
    while i < t.len() && !(t[i] == 'e' || t[i] == 'E')
        invariant
            start <= i <= t@.len(),
            forall|j: int| start <= j < i ==> !(#[trigger] t@[j] == 'e' || t@[j] == 'E'),
        decreases t@.len() - i,
    {
        i = i + 1;
    }
    let epos: usize = i;
    if epos == t.len() {
        proof {
            assert(forall|j: int|
                0 <= j < body.len() ==> !(#[trigger] body[j] == 'e' || body[j] == 'E'));
            if is_mantissa_exponent(body) && !is_mantissa(body) {
                let k = choose|k: int|
                    0 <= k < body.len() && (#[trigger] body[k] == 'e' || body[k] == 'E')
                        && is_mantissa(body.take(k)) && is_exponent(body.skip(k + 1));
                assert(false);
            }
        }
        let r = check_mantissa(t, start, t.len());
        proof {
            assert(t@.subrange(start as int, t@.len() as int) == body);
        }
        r
    } else {
        proof {
            assert(t@[epos as int] == 'e' || t@[epos as int] == 'E');
        }
        let m = check_mantissa(t, start, epos);
        let e = check_exponent(t, epos + 1);
        proof {
            let ghost ei = epos - start;
            assert(body[ei] == 'e' || body[ei] == 'E');
            assert(body.take(ei) =~= t@.subrange(start as int, epos as int));
            assert(body.skip(ei + 1) =~= t@.subrange(epos + 1, t@.len() as int));
            if m && e {
                assert(is_mantissa_exponent(body));
            }
            if is_mantissa_exponent(body) {
                // A mantissa holds no exponent marker, so the marker found is
                // the only possible split point.
                if is_mantissa(body) {
                    assert(is_dec_digit(body[ei]) || body[ei] == '.');
                    assert(false);
                }
                let k = choose|k: int|
                    0 <= k < body.len() && (#[trigger] body[k] == 'e' || body[k] == 'E')
                        && is_mantissa(body.take(k)) && is_exponent(body.skip(k + 1));
                if k < ei {
                    assert(body.skip(k + 1)[ei - k - 1] == body[ei]);
                    assert(is_exponent(body.skip(k + 1)));
                    let tail = body.skip(k + 1);
                    if tail.len() > 0 && (tail[0] == '+' || tail[0] == '-') {
                        assert(is_dec_digit(tail.drop_first()[ei - k - 2]));
                    } else {
                        assert(is_dec_digit(tail[ei - k - 1]));
                    }
                    assert(false);
                } else if k > ei {
                    assert(body.take(k)[ei] == body[ei]);
                    assert(is_dec_digit(body.take(k)[ei]) || body.take(k)[ei] == '.');
                    assert(false);
                }
                assert(m && e);
            }
        }
        m && e
    }
}

} // verus!
