//! Length-prefixed string framing used to serialize module configurations.
//!
//! A value is written as a sequence of fields; each field is the decimal
//! length of its text, a `:`, then the text itself. Numbers are written as
//! their decimal digits (with a leading `-` for negatives) inside a field.
//! Every encoder here has a decoder proved to invert it.

use vstd::prelude::*;

verus! {

/// Whether `c` is a decimal digit.
pub open spec fn is_digit(c: char) -> bool {
    '0' as int <= c as int && c as int <= '9' as int
}

/// The numeric value of a digit character.
pub open spec fn digit_val(c: char) -> int {
    c as int - '0' as int
}

/// The digit character for a value in 0..10.
pub open spec fn digit_char(d: int) -> char {
    if d == 0 { '0' }
    else if d == 1 { '1' }
    else if d == 2 { '2' }
    else if d == 3 { '3' }
    else if d == 4 { '4' }
    else if d == 5 { '5' }
    else if d == 6 { '6' }
    else if d == 7 { '7' }
    else if d == 8 { '8' }
    else { '9' }
}

/// The decimal digits of a nonnegative integer, most significant first.
pub open spec fn dec_digits(n: int) -> Seq<char>
    recommends
        n >= 0,
    decreases n,
{
    if n < 10 {
        seq![digit_char(n)]
    } else {
        dec_digits(n / 10).push(digit_char(n % 10))
    }
}

/// Whether every character of `s` is a decimal digit.
pub open spec fn all_digits(s: Seq<char>) -> bool {
    forall|i: int| 0 <= i < s.len() ==> is_digit(s[i])
}

/// The length of the longest digit prefix of `s`.
pub open spec fn digits_prefix_len(s: Seq<char>) -> int
    decreases s.len(),
{
    if s.len() == 0 || !is_digit(s[0]) {
        0
    } else {
        1 + digits_prefix_len(s.drop_first())
    }
}

/// The value of a digit string, read in base 10.
pub open spec fn val_of_digits(s: Seq<char>) -> int
    decreases s.len(),
{
    if s.len() == 0 {
        0
    } else {
        val_of_digits(s.drop_last()) * 10 + digit_val(s.last())
    }
}

/// Ten to the power `k`.
pub open spec fn pow10(k: nat) -> int
    decreases k,
{
    if k == 0 { 1 } else { 10 * pow10((k - 1) as nat) }
}

/// The concrete value of `pow10(30)`, by unfolding.
pub proof fn lemma_pow10_30()
    ensures
        pow10(30) == 1000000000000000000000000000000,
{
    assert(pow10(0) == 1);
    assert(pow10(1) == 10);
    assert(pow10(2) == 100);
    assert(pow10(3) == 1000);
    assert(pow10(4) == 10000);
    assert(pow10(5) == 100000);
    assert(pow10(6) == 1000000);
    assert(pow10(7) == 10000000);
    assert(pow10(8) == 100000000);
    assert(pow10(9) == 1000000000);
    assert(pow10(10) == 10000000000);
    assert(pow10(11) == 100000000000);
    assert(pow10(12) == 1000000000000);
    assert(pow10(13) == 10000000000000);
    assert(pow10(14) == 100000000000000);
    assert(pow10(15) == 1000000000000000);
    assert(pow10(16) == 10000000000000000);
    assert(pow10(17) == 100000000000000000);
    assert(pow10(18) == 1000000000000000000);
    assert(pow10(19) == 10000000000000000000);
    assert(pow10(20) == 100000000000000000000);
    assert(pow10(21) == 1000000000000000000000);
    assert(pow10(22) == 10000000000000000000000);
    assert(pow10(23) == 100000000000000000000000);
    assert(pow10(24) == 1000000000000000000000000);
    assert(pow10(25) == 10000000000000000000000000);
    assert(pow10(26) == 100000000000000000000000000);
    assert(pow10(27) == 1000000000000000000000000000);
    assert(pow10(28) == 10000000000000000000000000000);
    assert(pow10(29) == 100000000000000000000000000000);
    assert(pow10(30) == 1000000000000000000000000000000);
}

proof fn lemma_pow10_pos(k: nat)
    ensures
        pow10(k) >= 1,
    decreases k,
{
    if k > 0 {
        lemma_pow10_pos((k - 1) as nat);
    }
}

/// The digits of `n` are digits, read back to `n`, and there is at least one.
pub proof fn lemma_dec_digits(n: int)
    requires
        n >= 0,
    ensures
        all_digits(dec_digits(n)),
        dec_digits(n).len() >= 1,
        val_of_digits(dec_digits(n)) == n,
    decreases n,
{
    if n < 10 {
        let s = dec_digits(n);
        assert(s == seq![digit_char(n)]);
        assert(s.len() == 1);
        assert(s.last() == digit_char(n));
        assert(s.drop_last() =~= Seq::<char>::empty());
        assert(val_of_digits(Seq::<char>::empty()) == 0);
        assert(val_of_digits(s) == 0 * 10 + digit_val(digit_char(n)));
    } else {
        lemma_dec_digits(n / 10);
        let p = dec_digits(n / 10);
        let s = dec_digits(n);
        assert(s == p.push(digit_char(n % 10)));
        assert(s.drop_last() =~= p);
        assert(s.last() == digit_char(n % 10));
        assert(digit_val(digit_char(n % 10)) == n % 10);
        assert(val_of_digits(s) == (n / 10) * 10 + n % 10);
        assert((n / 10) * 10 + n % 10 == n) by (nonlinear_arith);
        assert(forall|i: int| 0 <= i < s.len() ==> is_digit(#[trigger] s[i]));
    }
}

/// Fewer than `pow10(k)` means at most `k` digits.
pub proof fn lemma_dec_digits_len(n: int, k: nat)
    requires
        0 <= n < pow10(k),
        k >= 1,
    ensures
        dec_digits(n).len() <= k,
    decreases n,
{
    if n < 10 {
    } else {
        assert(pow10(k) == 10 * pow10((k - 1) as nat));
        assert(n / 10 < pow10((k - 1) as nat)) by (nonlinear_arith)
            requires
                n >= 10 && n < 10 * pow10((k - 1) as nat),
        ;
        if k == 1 {
            lemma_pow10_pos(0);
            assert(false);
        }
        lemma_dec_digits_len(n / 10, (k - 1) as nat);
    }
}

/// A digit string of length at most `k` has value below `pow10(k)`.
pub proof fn lemma_val_of_digits_bound(s: Seq<char>)
    requires
        all_digits(s),
    ensures
        0 <= val_of_digits(s) < pow10(s.len()),
    decreases s.len(),
{
    if s.len() == 0 {
    } else {
        assert(forall|i: int| 0 <= i < s.drop_last().len() ==> is_digit(#[trigger] s.drop_last()[i]));
        lemma_val_of_digits_bound(s.drop_last());
        let v = val_of_digits(s.drop_last());
        let p = pow10(s.drop_last().len());
        assert(is_digit(s.last()));
        assert(v * 10 + digit_val(s.last()) < p * 10) by (nonlinear_arith)
            requires
                0 <= v < p && 0 <= digit_val(s.last()) < 10,
        ;
        assert(pow10(s.len()) == 10 * p);
        assert(v * 10 + digit_val(s.last()) >= 0) by (nonlinear_arith)
            requires
                v >= 0 && digit_val(s.last()) >= 0,
        ;
    }
}

/// The digit prefix of a digit string followed by a non-digit (or nothing)
/// is exactly that digit string.
pub proof fn lemma_digits_prefix(s: Seq<char>, m: int)
    requires
        0 <= m <= s.len(),
        forall|i: int| 0 <= i < m ==> is_digit(s[i]),
        m == s.len() || !is_digit(s[m]),
    ensures
        digits_prefix_len(s) == m,
    decreases m,
{
    if m == 0 {
    } else {
        assert(is_digit(s[0]));
        let t = s.drop_first();
        assert(forall|i: int| 0 <= i < m - 1 ==> s[i + 1] == #[trigger] t[i]);
        lemma_digits_prefix(t, m - 1);
    }
}

/// The digit prefix is at least `m` when the first `m` characters are digits.
pub proof fn lemma_digits_prefix_ge(s: Seq<char>, m: int)
    requires
        0 <= m <= s.len(),
        forall|i: int| 0 <= i < m ==> is_digit(s[i]),
    ensures
        digits_prefix_len(s) >= m,
    decreases m,
{
    if m > 0 {
        assert(is_digit(s[0]));
        let t = s.drop_first();
        assert(forall|i: int| 0 <= i < m - 1 ==> s[i + 1] == #[trigger] t[i]);
        lemma_digits_prefix_ge(t, m - 1);
        assert(digits_prefix_len(s) == 1 + digits_prefix_len(t));
    } else {
        lemma_digits_prefix_nonneg(s);
    }
}

/// The digit prefix length is never negative.
proof fn lemma_digits_prefix_nonneg(s: Seq<char>)
    ensures
        digits_prefix_len(s) >= 0,
    decreases s.len(),
{
    if !(s.len() == 0 || !is_digit(s[0])) {
        lemma_digits_prefix_nonneg(s.drop_first());
    }
}

/// A field: the decimal length of the text, a colon, then the text.
pub open spec fn spec_field(s: Seq<char>) -> Seq<char> {
    dec_digits(s.len() as int) + seq![':'] + s
}

/// Read one field off the front of `s`: the field's text and what follows.
pub open spec fn take_field(s: Seq<char>) -> Option<(Seq<char>, Seq<char>)> {
    let k = digits_prefix_len(s);
    if k == 0 || k > 30 {
        None
    } else {
        let v = val_of_digits(s.take(k));
        if v > usize::MAX as int {
            None
        } else if k >= s.len() || s[k] != ':' {
            None
        } else if s.len() - k - 1 < v {
            None
        } else {
            Some((s.subrange(k + 1, k + 1 + v), s.subrange(k + 1 + v, s.len() as int)))
        }
    }
}

/// Law: reading a field back off a framed text yields the text and the rest.
pub proof fn lemma_take_field(f: Seq<char>, rest: Seq<char>)
    requires
        f.len() <= usize::MAX,
    ensures
        take_field(spec_field(f) + rest) == Some((f, rest)),
{
    let d = dec_digits(f.len() as int);
    lemma_dec_digits(f.len() as int);
    lemma_pow10_30();
    lemma_dec_digits_len(f.len() as int, 30);
    let s = spec_field(f) + rest;
    let k = d.len() as int;
    assert(forall|i: int| 0 <= i < k ==> s[i] == #[trigger] d[i]);
    assert(s[k] == ':');
    assert(!is_digit(':'));
    lemma_digits_prefix(s, k);
    assert(s.take(k) =~= d);
    assert(val_of_digits(s.take(k)) == f.len());
    assert(s.len() - k - 1 == f.len() + rest.len());
    assert(s.subrange(k + 1, k + 1 + f.len() as int) =~= f);
    assert(s.subrange(k + 1 + f.len() as int, s.len() as int) =~= rest);
}

/// Whether `c` is a decimal digit, decided executably.
pub fn is_digit_exec(c: char) -> (b: bool)
    ensures
        b == is_digit(c),
{
    let v = c as u32;
    48 <= v && v <= 57
}

/// Append the single digit character for `d` to `out`.
fn append_digit(d: usize, out: &mut String)
    requires
        d < 10,
    ensures
        final(out)@ == old(out)@ + seq![digit_char(d as int)],
{
    proof {
        reveal_strlit("0");
        reveal_strlit("1");
        reveal_strlit("2");
        reveal_strlit("3");
        reveal_strlit("4");
        reveal_strlit("5");
        reveal_strlit("6");
        reveal_strlit("7");
        reveal_strlit("8");
        reveal_strlit("9");
    }
    if d == 0 {
        out.append("0");
        assert("0"@ =~= seq![digit_char(0)]);
    } else if d == 1 {
        out.append("1");
        assert("1"@ =~= seq![digit_char(1)]);
    } else if d == 2 {
        out.append("2");
        assert("2"@ =~= seq![digit_char(2)]);
    } else if d == 3 {
        out.append("3");
        assert("3"@ =~= seq![digit_char(3)]);
    } else if d == 4 {
        out.append("4");
        assert("4"@ =~= seq![digit_char(4)]);
    } else if d == 5 {
        out.append("5");
        assert("5"@ =~= seq![digit_char(5)]);
    } else if d == 6 {
        out.append("6");
        assert("6"@ =~= seq![digit_char(6)]);
    } else if d == 7 {
        out.append("7");
        assert("7"@ =~= seq![digit_char(7)]);
    } else if d == 8 {
        out.append("8");
        assert("8"@ =~= seq![digit_char(8)]);
    } else {
        out.append("9");
        assert("9"@ =~= seq![digit_char(9)]);
    }
}

/// Append the decimal digits of `n` to `out`.
pub fn push_usize_digits(n: usize, out: &mut String)
    ensures
        final(out)@ == old(out)@ + dec_digits(n as int),
    decreases n,
{
    if n < 10 {
        append_digit(n, out);
    } else {
        push_usize_digits(n / 10, out);
        append_digit(n % 10, out);
        proof {
            assert(dec_digits(n as int) =~= dec_digits(n as int / 10) + seq![
                digit_char(n as int % 10),
            ]);
            assert(old(out)@ + dec_digits(n as int / 10) + seq![digit_char(n as int % 10)] =~= old(
                out,
            )@ + dec_digits(n as int));
        }
    }
}

/// Append the framing of `s` (length, colon, text) to `out`.
pub fn push_field(s: &str, out: &mut String)
    ensures
        final(out)@ == old(out)@ + spec_field(s@),
{
    let n = s.unicode_len();
    push_usize_digits(n, out);
    out.append(":");
    out.append(s);
    proof {
        reveal_strlit(":");
        assert(":"@ =~= seq![':']);
        assert(old(out)@ + dec_digits(n as int) + ":"@ + s@ =~= old(out)@ + spec_field(s@));
    }
}

/// Read one field of `s` starting at character position `from`; on success
/// return the field's text and the position just past it.
pub fn take_field_str(s: &str, from: usize) -> (r: Option<(String, usize)>)
    requires
        from as int <= s@.len(),
    ensures
        match r {
            Some(p) => {
                &&& take_field(s@.skip(from as int)) == Some((p.0@, s@.skip(p.1 as int)))
                &&& from < p.1 <= s@.len()
            },
            None => take_field(s@.skip(from as int)) is None,
        },
{
    let n = s.unicode_len();
    let ghost t = s@.skip(from as int);
    proof {
        assert(forall|j: int| 0 <= j < t.len() ==> t[j] == s@[from as int + j]);
    }
    let mut i = from;
    let mut acc: u128 = 0;
    loop
        invariant
            from <= i <= n,
            n as int == s@.len(),
            from as int <= s@.len(),
            t == s@.skip(from as int),
            forall|j: int| from as int <= j < i as int ==> is_digit(s@[j]),
            acc as int == val_of_digits(s@.subrange(from as int, i as int)),
            i - from <= 30,
        ensures
            from <= i <= n,
            n as int == s@.len(),
            forall|j: int| from as int <= j < i as int ==> is_digit(s@[j]),
            acc as int == val_of_digits(s@.subrange(from as int, i as int)),
            i - from <= 30,
            i as int == s@.len() || !is_digit(s@[i as int]),
        decreases n - i,
    {
        if i == n {
            break ;
        }
        let c = s.get_char(i);
        if !is_digit_exec(c) {
            break ;
        }
        if i - from == 30 {
            proof {
                assert(forall|j: int| 0 <= j < 31 ==> t[j] == s@[from as int + j]);
                assert(forall|j: int| 0 <= j < 31 ==> is_digit(t[j]));
                lemma_digits_prefix_ge(t, 31);
            }
            return None;
        }
        let d = (c as u32 - 48) as u128;
        proof {
            let pre = s@.subrange(from as int, i as int);
            let cur = s@.subrange(from as int, i as int + 1);
            assert(cur.drop_last() =~= pre);
            assert(cur.last() == s@[i as int]);
            assert(forall|j: int| 0 <= j < pre.len() ==> is_digit(#[trigger] pre[j]));
            lemma_val_of_digits_bound(pre);
            lemma_pow10_30();
            lemma_pow10_mono(pre.len(), 30);
            assert(acc as int * 10 + digit_val(s@[i as int]) < pow10(30) * 10) by (nonlinear_arith)
                requires
                    (acc as int) < pow10(30) && 0 <= digit_val(s@[i as int]) < 10,
            ;
        }
        acc = acc * 10 + d;
        i = i + 1;
    }
    let k = i - from;
    proof {
        assert(forall|j: int| 0 <= j < k as int ==> t[j] == s@[from as int + j]);
        assert(forall|j: int| 0 <= j < k as int ==> is_digit(t[j]));
        if i == n {
            lemma_digits_prefix(t, k as int);
        } else {
            assert(t[k as int] == s@[i as int]);
            lemma_digits_prefix(t, k as int);
        }
        assert(t.take(k as int) =~= s@.subrange(from as int, i as int));
    }
    if k == 0 {
        return None;
    }
    if acc > usize::MAX as u128 {
        return None;
    }
    let v = acc as usize;
    if i == n {
        return None;
    }
    let c = s.get_char(i);
    if c != ':' {
        proof {
            assert(t[k as int] == s@[i as int]);
        }
        return None;
    }
    proof {
        assert(t[k as int] == ':');
    }
    if n - i - 1 < v {
        return None;
    }
    let fld = s.substring_char(i + 1, i + 1 + v);
    let next = i + 1 + v;
    let owned = fld.to_owned();
    proof {
        assert(owned@ =~= t.subrange(k as int + 1, k as int + 1 + v as int));
        assert(s@.skip(next as int) =~= t.subrange(k as int + 1 + v as int, t.len() as int));
    }
    Some((owned, next))
}

/// The value of an all-digit text, or nothing if it is empty, too long,
/// holds a non-digit, or exceeds `u64::MAX`.
pub open spec fn spec_parse_u64(s: Seq<char>) -> Option<u64> {
    if s.len() == 0 || s.len() > 30 || !all_digits(s) {
        None
    } else if val_of_digits(s) > u64::MAX as int {
        None
    } else {
        Some(val_of_digits(s) as u64)
    }
}

/// The decimal text of anything in `u64` range is short.
pub proof fn lemma_dec_digits_short(n: int)
    requires
        0 <= n <= u64::MAX,
    ensures
        dec_digits(n).len() <= 30,
{
    lemma_pow10_30();
    lemma_dec_digits_len(n, 30);
}

/// Law: the decimal text of an unsigned value parses back to it.
pub proof fn lemma_parse_u64_digits(n: u64)
    ensures
        spec_parse_u64(dec_digits(n as int)) == Some(n),
{
    lemma_dec_digits(n as int);
    lemma_pow10_30();
    lemma_dec_digits_len(n as int, 30);
}

/// Parse an all-digit text as a `u64`.
pub fn parse_u64_chars(f: &str) -> (r: Option<u64>)
    ensures
        r == spec_parse_u64(f@),
{
    let n = f.unicode_len();
    if n == 0 || n > 30 {
        return None;
    }
    let mut i: usize = 0;
    let mut acc: u128 = 0;
    loop
        invariant
            0 <= i <= n,
            n as int == f@.len(),
            1 <= n <= 30,
            forall|j: int| 0 <= j < i as int ==> is_digit(f@[j]),
            acc as int == val_of_digits(f@.subrange(0, i as int)),
        ensures
            i == n,
            forall|j: int| 0 <= j < i as int ==> is_digit(f@[j]),
            acc as int == val_of_digits(f@.subrange(0, i as int)),
        decreases n - i,
    {
        if i == n {
            break ;
        }
        let c = f.get_char(i);
        if !is_digit_exec(c) {
            proof {
                assert(!all_digits(f@));
            }
            return None;
        }
        let d = (c as u32 - 48) as u128;
        proof {
            let pre = f@.subrange(0, i as int);
            let cur = f@.subrange(0, i as int + 1);
            assert(cur.drop_last() =~= pre);
            assert(cur.last() == f@[i as int]);
            assert(forall|j: int| 0 <= j < pre.len() ==> is_digit(#[trigger] pre[j]));
            lemma_val_of_digits_bound(pre);
            lemma_pow10_30();
            lemma_pow10_mono(pre.len(), 30);
            assert((acc as int) * 10 + digit_val(f@[i as int]) < pow10(30) * 10) by (nonlinear_arith)
                requires
                    (acc as int) < pow10(30) && 0 <= digit_val(f@[i as int]) < 10,
            ;
        }
        acc = acc * 10 + d;
        i = i + 1;
    }
    proof {
        assert(f@.subrange(0, n as int) =~= f@);
    }
    if acc > u64::MAX as u128 {
        return None;
    }
    Some(acc as u64)
}

/// Append the decimal digits of `n` to `out`.
pub fn push_u64_digits(n: u64, out: &mut String)
    ensures
        final(out)@ == old(out)@ + dec_digits(n as int),
    decreases n,
{
    if n < 10 {
        append_digit(n as usize, out);
    } else {
        push_u64_digits(n / 10, out);
        append_digit((n % 10) as usize, out);
        proof {
            assert(dec_digits(n as int) =~= dec_digits(n as int / 10) + seq![
                digit_char(n as int % 10),
            ]);
            assert(old(out)@ + dec_digits(n as int / 10) + seq![digit_char(n as int % 10)] =~= old(
                out,
            )@ + dec_digits(n as int));
        }
    }
}

/// Append a field holding the decimal text of `v` to `out`.
pub fn push_u64_field(v: u64, out: &mut String)
    ensures
        final(out)@ == old(out)@ + spec_field(dec_digits(v as int)),
{
    let mut tmp = String::new();
    push_u64_digits(v, &mut tmp);
    push_field(tmp.as_str(), out);
}

/// Read one field and parse it as a `u64`.
pub open spec fn take_u64(s: Seq<char>) -> Option<(u64, Seq<char>)> {
    match take_field(s) {
        Some(p) => match spec_parse_u64(p.0) {
            Some(v) => Some((v, p.1)),
            None => None,
        },
        None => None,
    }
}

/// Law: a framed unsigned number reads back to itself.
pub proof fn lemma_take_u64(v: u64, rest: Seq<char>)
    ensures
        take_u64(spec_field(dec_digits(v as int)) + rest) == Some((v, rest)),
{
    lemma_dec_digits(v as int);
    lemma_pow10_30();
    lemma_dec_digits_len(v as int, 30);
    lemma_take_field(dec_digits(v as int), rest);
    lemma_parse_u64_digits(v);
}

/// Read one field and parse it as a `u64`, executably.
pub fn take_u64_field(s: &str, from: usize) -> (r: Option<(u64, usize)>)
    requires
        from as int <= s@.len(),
    ensures
        match r {
            Some(p) => {
                &&& take_u64(s@.skip(from as int)) == Some((p.0, s@.skip(p.1 as int)))
                &&& from < p.1 <= s@.len()
            },
            None => take_u64(s@.skip(from as int)) is None,
        },
{
    match take_field_str(s, from) {
        Some((f, next)) => match parse_u64_chars(f.as_str()) {
            Some(v) => Some((v, next)),
            None => None,
        },
        None => None,
    }
}

/// `pow10` is monotone in its exponent.
pub proof fn lemma_pow10_mono(a: nat, b: nat)
    requires
        a <= b,
    ensures
        pow10(a) <= pow10(b),
    decreases b,
{
    if a < b {
        lemma_pow10_mono(a, (b - 1) as nat);
        lemma_pow10_pos((b - 1) as nat);
    }
}

/// The views of a sequence of strings.
pub open spec fn strs_views(ss: Seq<String>) -> Seq<Seq<char>> {
    ss.map_values(|s: String| s@)
}

/// The concatenation of the framings of each text in `ss`.
pub open spec fn enc_strs(ss: Seq<Seq<char>>) -> Seq<char>
    decreases ss.len(),
{
    if ss.len() == 0 {
        Seq::empty()
    } else {
        spec_field(ss.first()) + enc_strs(ss.drop_first())
    }
}

/// A framed list of texts: their count, then each text as a field.
pub open spec fn spec_strlist(ss: Seq<Seq<char>>) -> Seq<char> {
    spec_field(dec_digits(ss.len() as int)) + enc_strs(ss)
}

/// Read `count` fields off the front of `s`.
pub open spec fn dec_strs(s: Seq<char>, count: int) -> Option<(Seq<Seq<char>>, Seq<char>)>
    decreases count,
{
    if count <= 0 {
        Some((Seq::empty(), s))
    } else {
        match take_field(s) {
            Some(p) => match dec_strs(p.1, count - 1) {
                Some(q) => Some((seq![p.0] + q.0, q.1)),
                None => None,
            },
            None => None,
        }
    }
}

/// Read a framed list of texts off the front of `s`.
pub open spec fn take_strlist(s: Seq<char>) -> Option<(Seq<Seq<char>>, Seq<char>)> {
    match take_u64(s) {
        Some(p) => if p.0 <= usize::MAX as u64 {
            dec_strs(p.1, p.0 as int)
        } else {
            None
        },
        None => None,
    }
}

/// Appending one more text to a list extends its encoding by one field.
pub proof fn lemma_enc_strs_push(ss: Seq<Seq<char>>, x: Seq<char>)
    ensures
        enc_strs(ss.push(x)) == enc_strs(ss) + spec_field(x),
    decreases ss.len(),
{
    if ss.len() == 0 {
        assert(ss.push(x).drop_first() =~= Seq::<Seq<char>>::empty());
        assert(ss.push(x).first() == x);
        assert(enc_strs(Seq::<Seq<char>>::empty()) == Seq::<char>::empty());
        assert(enc_strs(ss.push(x)) == spec_field(x) + Seq::<char>::empty());
        assert(spec_field(x) + Seq::<char>::empty() =~= enc_strs(ss) + spec_field(x));
    } else {
        assert(ss.push(x).first() == ss.first());
        assert(ss.push(x).drop_first() =~= ss.drop_first().push(x));
        lemma_enc_strs_push(ss.drop_first(), x);
        assert(enc_strs(ss.push(x)) == spec_field(ss.first()) + (enc_strs(ss.drop_first())
            + spec_field(x)));
        assert(spec_field(ss.first()) + (enc_strs(ss.drop_first()) + spec_field(x)) =~= (spec_field(
            ss.first(),
        ) + enc_strs(ss.drop_first())) + spec_field(x));
    }
}

/// Law: the fields of an encoded list read back to the list.
pub proof fn lemma_dec_strs(ss: Seq<Seq<char>>, rest: Seq<char>)
    requires
        forall|i: int| 0 <= i < ss.len() ==> #[trigger] ss[i].len() <= usize::MAX,
    ensures
        dec_strs(enc_strs(ss) + rest, ss.len() as int) == Some((ss, rest)),
    decreases ss.len(),
{
    if ss.len() == 0 {
        assert(enc_strs(ss) + rest =~= rest);
    } else {
        let tail = ss.drop_first();
        assert(forall|i: int| 0 <= i < tail.len() ==> tail[i] == ss[i + 1]);
        lemma_dec_strs(tail, rest);
        assert(enc_strs(ss) + rest =~= spec_field(ss.first()) + (enc_strs(tail) + rest));
        lemma_take_field(ss.first(), enc_strs(tail) + rest);
        assert(seq![ss.first()] + tail =~= ss);
    }
}

/// Law: a framed list of texts reads back to itself.
pub proof fn lemma_take_strlist(ss: Seq<Seq<char>>, rest: Seq<char>)
    requires
        ss.len() <= usize::MAX,
        forall|i: int| 0 <= i < ss.len() ==> #[trigger] ss[i].len() <= usize::MAX,
    ensures
        take_strlist(spec_strlist(ss) + rest) == Some((ss, rest)),
{
    let n = ss.len() as u64;
    assert(spec_strlist(ss) + rest =~= spec_field(dec_digits(n as int)) + (enc_strs(ss) + rest));
    lemma_take_u64(n, enc_strs(ss) + rest);
    lemma_dec_strs(ss, rest);
}

/// Append the framed list of texts `ss` to `out`.
pub fn push_strlist(ss: &Vec<String>, out: &mut String)
    ensures
        final(out)@ == old(out)@ + spec_strlist(strs_views(ss@)),
{
    push_u64_field(ss.len() as u64, out);
    let mut i: usize = 0;
    while i < ss.len()
        invariant
            i <= ss@.len(),
            out@ == old(out)@ + spec_field(dec_digits(ss@.len() as int)) + enc_strs(
                strs_views(ss@.take(i as int)),
            ),
        decreases ss@.len() - i,
    {
        push_field(ss[i].as_str(), out);
        proof {
            let pre = strs_views(ss@.take(i as int));
            let cur = strs_views(ss@.take(i as int + 1));
            assert(cur =~= pre.push(ss@[i as int]@));
            lemma_enc_strs_push(pre, ss@[i as int]@);
        }
        i = i + 1;
    }
    proof {
        assert(ss@.take(ss@.len() as int) =~= ss@);
        assert(old(out)@ + spec_field(dec_digits(ss@.len() as int)) + enc_strs(strs_views(ss@))
            =~= old(out)@ + spec_strlist(strs_views(ss@)));
    }
}

/// Read a framed list of texts out of `s` starting at position `from`.
pub fn take_strlist_str(s: &str, from: usize) -> (r: Option<(Vec<String>, usize)>)
    requires
        from as int <= s@.len(),
    ensures
        match r {
            Some(p) => {
                &&& take_strlist(s@.skip(from as int)) == Some((strs_views(p.0@), s@.skip(
                    p.1 as int,
                )))
                &&& from <= p.1 <= s@.len()
            },
            None => take_strlist(s@.skip(from as int)) is None,
        },
{
    let (count, mut pos) = match take_u64_field(s, from) {
        Some(p) => p,
        None => {
            return None;
        },
    };
    if count > usize::MAX as u64 {
        return None;
    }
    let count = count as usize;
    let ghost t0 = s@.skip(pos as int);
    let mut out: Vec<String> = Vec::new();
    proof {
        assert(out@ =~= Seq::<String>::empty());
        match dec_strs(t0, count as int) {
            Some(q) => {
                assert(strs_views(out@) + q.0 =~= q.0);
            },
            None => {},
        }
    }
    let mut i: usize = 0;
    while i < count
        invariant
            i <= count,
            out@.len() == i,
            from <= pos,
            pos as int <= s@.len(),
            take_strlist(s@.skip(from as int)) == dec_strs(t0, count as int),
            match dec_strs(s@.skip(pos as int), count - i) {
                Some(q) => dec_strs(t0, count as int) == Some(
                    (strs_views(out@) + q.0, q.1),
                ),
                None => dec_strs(t0, count as int) is None,
            },
        decreases count - i,
    {
        match take_field_str(s, pos) {
            Some((f, next)) => {
                proof {
                    let cur = s@.skip(pos as int);
                    assert(take_field(cur) == Some((f@, s@.skip(next as int))));
                }
                let ghost out0 = out@;
                out.push(f);
                proof {
                    assert(strs_views(out@) =~= strs_views(out0).push(out@[out0.len() as int]@));
                    assert(forall|q0: Seq<Seq<char>>|
                        strs_views(out0).push(out@[out0.len() as int]@) + q0 =~= strs_views(out0)
                            + (seq![out@[out0.len() as int]@] + q0));
                }
                pos = next;
            },
            None => {
                proof {
                    assert(take_field(s@.skip(pos as int)) is None);
                    assert(dec_strs(s@.skip(pos as int), count - i) is None);
                    assert(dec_strs(t0, count as int) is None);
                }
                return None;
            },
        }
        i = i + 1;
    }
    proof {
        assert(dec_strs(s@.skip(pos as int), 0) == Some(
            (Seq::<Seq<char>>::empty(), s@.skip(pos as int)),
        ));
        assert(strs_views(out@) + Seq::<Seq<char>>::empty() =~= strs_views(out@));
    }
    Some((out, pos))
}

} // verus!

verus! {

/// The length of the prefix of `s` holding no double quote.
pub open spec fn quote_idx(s: Seq<char>) -> int
    decreases s.len(),
{
    if s.len() == 0 || s[0] == '"' {
        0
    } else {
        1 + quote_idx(s.drop_first())
    }
}

/// The quote-free prefix ends exactly at the first quote (or the end).
pub proof fn lemma_quote_idx(s: Seq<char>, m: int)
    requires
        0 <= m <= s.len(),
        forall|i: int| 0 <= i < m ==> s[i] != '"',
        m == s.len() || s[m] == '"',
    ensures
        quote_idx(s) == m,
    decreases m,
{
    if m == 0 {
    } else {
        assert(s[0] != '"');
        let t = s.drop_first();
        assert(forall|i: int| 0 <= i < m - 1 ==> s[i + 1] == #[trigger] t[i]);
        lemma_quote_idx(t, m - 1);
    }
}

/// The position of the first double quote at or after `from` (the end of
/// the text if there is none).
pub fn find_quote(s: &str, from: usize) -> (r: usize)
    requires
        from as int <= s@.len(),
    ensures
        from <= r <= s@.len(),
        r - from == quote_idx(s@.skip(from as int)),
        r < s@.len() ==> s@[r as int] == '"',
{
    let n = s.unicode_len();
    let ghost t = s@.skip(from as int);
    proof {
        assert(forall|j: int| 0 <= j < t.len() ==> t[j] == s@[from as int + j]);
    }
    let mut i = from;
    while i < n
        invariant_except_break
            forall|j: int| from as int <= j < i as int ==> s@[j] != '"',
        invariant
            from <= i <= n,
            n as int == s@.len(),
            t == s@.skip(from as int),
        ensures
            from <= i <= n,
            forall|j: int| from as int <= j < i as int ==> s@[j] != '"',
            i as int == s@.len() || s@[i as int] == '"',
        decreases n - i,
    {
        if s.get_char(i) == '"' {
            break ;
        }
        i = i + 1;
    }
    proof {
        assert(forall|j: int| 0 <= j < i as int - from as int ==> t[j] != '"');
        if i < n {
            assert(t[i as int - from as int] == '"');
        }
        lemma_quote_idx(t, i as int - from as int);
    }
    i
}

/// Whether the text of `lit` stands in `s` at position `from`, decided
/// executably.
pub fn match_lit(s: &str, from: usize, lit: &str) -> (r: bool)
    requires
        from as int <= s@.len(),
    ensures
        r == (from as int + lit@.len() <= s@.len() && s@.subrange(
            from as int,
            from as int + lit@.len(),
        ) == lit@),
{
    let n = s.unicode_len();
    let m = lit.unicode_len();
    if m > n - from {
        return false;
    }
    let mut j: usize = 0;
    while j < m
        invariant
            0 <= j <= m,
            m as int == lit@.len(),
            n as int == s@.len(),
            from + m <= n,
            forall|k: int| 0 <= k < j as int ==> s@[from as int + k] == lit@[k],
        decreases m - j,
    {
        if s.get_char(from + j) != lit.get_char(j) {
            proof {
                let sub = s@.subrange(from as int, from as int + lit@.len());
                assert(sub[j as int] == s@[from as int + j as int]);
            }
            return false;
        }
        j = j + 1;
    }
    proof {
        assert(s@.subrange(from as int, from as int + lit@.len()) =~= lit@);
    }
    true
}

} // verus!
