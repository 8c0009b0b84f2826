//! Byte-level JSON building blocks: canonical encodings of integers,
//! booleans and escaped strings, together with parsers for them. Every
//! encoder has a specification-level definition, every parser a
//! specification-level mirror, and round-trip lemmas connect the two.

use vstd::prelude::*;

verus! {

/// The double-quote byte that delimits an encoded string.
pub const QUOTE: u8 = 34;

/// The backslash byte that starts an escape inside an encoded string.
pub const BACKSLASH: u8 = 92;

/// True of the ASCII digit bytes `'0'` through `'9'`.
pub open spec fn is_digit(b: u8) -> bool {
    '0' as u8 <= b <= '9' as u8
}

/// The ASCII byte of the decimal digit `d` (for `0 <= d <= 9`).
pub open spec fn digit_byte(d: int) -> u8 {
    ('0' as u8 + d) as u8
}

/// Decimal encoding of a nonnegative integer: most significant digit first,
/// no leading zeros.
pub open spec fn enc_nat(n: nat) -> Seq<u8>
    decreases n,
{
    if n <= 9 {
        seq![digit_byte(n as int)]
    } else {
        enc_nat(n / 10).push(digit_byte((n % 10) as int))
    }
}

/// Decimal encoding of an integer, with a leading minus sign when negative.
pub open spec fn enc_int(n: int) -> Seq<u8> {
    if n < 0 {
        seq!['-' as u8] + enc_nat((-n) as nat)
    } else {
        enc_nat(n as nat)
    }
}

pub open spec fn lit_true() -> Seq<u8> {
    seq!['t' as u8, 'r' as u8, 'u' as u8, 'e' as u8]
}

pub open spec fn lit_false() -> Seq<u8> {
    seq!['f' as u8, 'a' as u8, 'l' as u8, 's' as u8, 'e' as u8]
}

pub open spec fn lit_null() -> Seq<u8> {
    seq!['n' as u8, 'u' as u8, 'l' as u8, 'l' as u8]
}

/// Encoding of a boolean: the keyword `true` or `false`.
pub open spec fn enc_bool(b: bool) -> Seq<u8> {
    if b {
        lit_true()
    } else {
        lit_false()
    }
}

/// Escape of a single byte: quote and backslash get a backslash prefix,
/// every other byte stands for itself.
pub open spec fn esc_byte(b: u8) -> Seq<u8> {
    if b == QUOTE || b == BACKSLASH {
        seq![BACKSLASH, b]
    } else {
        seq![b]
    }
}

/// Escape of a byte string, byte by byte.
pub open spec fn esc(s: Seq<u8>) -> Seq<u8>
    decreases s.len(),
{
    if s.len() == 0 {
        Seq::empty()
    } else {
        esc_byte(s[0]) + esc(s.drop_first())
    }
}

/// Encoding of a byte string: the escaped bytes between double quotes.
pub open spec fn enc_str(s: Seq<u8>) -> Seq<u8> {
    seq![QUOTE] + esc(s) + seq![QUOTE]
}

/// Encoding of an optional byte string: the keyword `null` when absent.
pub open spec fn enc_opt_str(s: Option<Seq<u8>>) -> Seq<u8> {
    match s {
        None => lit_null(),
        Some(v) => enc_str(v),
    }
}

/// True when the bytes of `t` occur in `s` starting at position `i`.
pub open spec fn match_at(s: Seq<u8>, i: int, t: Seq<u8>) -> bool {
    &&& 0 <= i
    &&& i + t.len() <= s.len()
    &&& forall|k: int| #![trigger s[i + k]] 0 <= k < t.len() ==> s[i + k] == t[k]
}

/// Reads one byte out of a match: position `i + k` of `s` holds byte `k` of
/// `t`.
pub proof fn lemma_match_at_index(s: Seq<u8>, i: int, t: Seq<u8>, k: int)
    requires
        match_at(s, i, t),
        0 <= k < t.len(),
    ensures
        s[i + k] == t[k],
{
}

/// A match of a concatenation is a match of each part in turn.
pub proof fn lemma_match_at_concat(s: Seq<u8>, i: int, a: Seq<u8>, b: Seq<u8>)
    requires
        match_at(s, i, a + b),
    ensures
        match_at(s, i, a),
        match_at(s, i + a.len(), b),
{
    assert forall|k: int| 0 <= k < a.len() implies s[i + k] == a[k] by {
        assert(s[i + k] == (a + b)[k]);
    }
    assert forall|k: int| 0 <= k < b.len() implies s[i + a.len() + k] == b[k] by {
        assert(s[i + (a.len() + k)] == (a + b)[a.len() + k]);
    }
}

// ----------------------------------------------------------------------
// Specification-level parsers.
// ----------------------------------------------------------------------

/// The first position at or after `i` that does not hold a digit.
pub open spec fn digit_run_end(s: Seq<u8>, i: int) -> int
    decreases s.len() - i,
{
    if 0 <= i && i < s.len() && is_digit(s[i]) {
        digit_run_end(s, i + 1)
    } else {
        i
    }
}

/// The value of the decimal digits of `s` in `[i, j)`, read most significant
/// first.
pub open spec fn dec_value(s: Seq<u8>, i: int, j: int) -> int
    decreases j - i,
{
    if i >= j {
        0
    } else {
        dec_value(s, i, j - 1) * 10 + (s[j - 1] - '0' as u8)
    }
}

/// Parses a run of decimal digits at `i`: its value and the position after
/// it. Fails when no digit stands at `i`.
pub open spec fn parse_digits(s: Seq<u8>, i: int) -> Option<(int, int)> {
    let j = digit_run_end(s, i);
    if j == i {
        None
    } else {
        Some((dec_value(s, i, j), j))
    }
}

/// Parses a decimal number into a `u64`, rejecting values above `u64::MAX`.
pub open spec fn parse_u64(s: Seq<u8>, i: int) -> Option<(u64, int)> {
    match parse_digits(s, i) {
        None => None,
        Some((v, j)) => if v <= u64::MAX {
            Some((v as u64, j))
        } else {
            None
        },
    }
}

/// Parses a decimal number into a `usize`, rejecting values above
/// `usize::MAX`.
pub open spec fn parse_usize(s: Seq<u8>, i: int) -> Option<(usize, int)> {
    match parse_digits(s, i) {
        None => None,
        Some((v, j)) => if v <= usize::MAX {
            Some((v as usize, j))
        } else {
            None
        },
    }
}

/// Parses an optionally signed decimal number into an `i32`, rejecting
/// values outside the `i32` range.
pub open spec fn parse_i32(s: Seq<u8>, i: int) -> Option<(i32, int)> {
    if 0 <= i && i < s.len() && s[i] == '-' as u8 {
        match parse_digits(s, i + 1) {
            None => None,
            Some((v, j)) => if -v >= i32::MIN {
                Some(((-v) as i32, j))
            } else {
                None
            },
        }
    } else {
        match parse_digits(s, i) {
            None => None,
            Some((v, j)) => if v <= i32::MAX {
                Some((v as i32, j))
            } else {
                None
            },
        }
    }
}

/// Parses the keyword `true` or `false`.
pub open spec fn parse_bool(s: Seq<u8>, i: int) -> Option<(bool, int)> {
    if match_at(s, i, lit_true()) {
        Some((true, i + lit_true().len()))
    } else if match_at(s, i, lit_false()) {
        Some((false, i + lit_false().len()))
    } else {
        None
    }
}

/// Parses the remainder of a string after its opening quote: the unescaped
/// bytes up to the closing quote, and the position after that quote.
pub open spec fn parse_str_body(s: Seq<u8>, i: int) -> Option<(Seq<u8>, int)>
    decreases s.len() - i,
{
    if i < 0 || i >= s.len() {
        None
    } else if s[i] == QUOTE {
        Some((Seq::empty(), i + 1))
    } else if s[i] == BACKSLASH {
        if i + 1 < s.len() {
            match parse_str_body(s, i + 2) {
                Some((t, j)) => Some((seq![s[i + 1]] + t, j)),
                None => None,
            }
        } else {
            None
        }
    } else {
        match parse_str_body(s, i + 1) {
            Some((t, j)) => Some((seq![s[i]] + t, j)),
            None => None,
        }
    }
}

/// Parses a double-quoted string at `i`.
pub open spec fn parse_str(s: Seq<u8>, i: int) -> Option<(Seq<u8>, int)> {
    if 0 <= i && i < s.len() && s[i] == QUOTE {
        parse_str_body(s, i + 1)
    } else {
        None
    }
}

/// Parses a string or the keyword `null`.
pub open spec fn parse_opt_str(s: Seq<u8>, i: int) -> Option<(Option<Seq<u8>>, int)> {
    if match_at(s, i, lit_null()) {
        Some((None, i + lit_null().len()))
    } else {
        match parse_str(s, i) {
            Some((v, j)) => Some((Some(v), j)),
            None => None,
        }
    }
}

// ----------------------------------------------------------------------
// Round-trip lemmas: parsing a canonical encoding yields the encoded value
// and consumes exactly the encoding.
// ----------------------------------------------------------------------

/// A decimal encoding is a nonempty run of digits.
pub proof fn lemma_enc_nat_digits(n: nat)
    ensures
        enc_nat(n).len() >= 1,
        forall|k: int| 0 <= k < enc_nat(n).len() ==> is_digit(#[trigger] enc_nat(n)[k]),
    decreases n,
{
    if n > 9 {
        lemma_enc_nat_digits(n / 10);
    }
}

/// A digit run bounded by a non-digit (or the end of input) ends exactly at
/// that bound.
pub proof fn lemma_digit_run_end(s: Seq<u8>, i: int, j: int)
    requires
        0 <= i <= j <= s.len(),
        forall|k: int| i <= k < j ==> is_digit(#[trigger] s[k]),
        j == s.len() || !is_digit(s[j]),
    ensures
        digit_run_end(s, i) == j,
    decreases j - i,
{
    if i < j {
        lemma_digit_run_end(s, i + 1, j);
    }
}

/// The digits of `enc_nat(n)` evaluate back to `n`.
pub proof fn lemma_dec_value_enc(s: Seq<u8>, i: int, n: nat)
    requires
        match_at(s, i, enc_nat(n)),
    ensures
        dec_value(s, i, i + enc_nat(n).len()) == n,
    decreases n,
{
    if n <= 9 {
        lemma_match_at_index(s, i, enc_nat(n), 0);
        assert(s[i] == digit_byte(n as int));
        assert(dec_value(s, i, i) == 0);
        assert(dec_value(s, i, i + 1) == s[i] - '0' as u8);
    } else {
        let pre = enc_nat(n / 10);
        let d = digit_byte((n % 10) as int);
        assert(enc_nat(n) =~= pre + seq![d]);
        lemma_match_at_concat(s, i, pre, seq![d]);
        lemma_dec_value_enc(s, i, n / 10);
        lemma_match_at_index(s, i + pre.len(), seq![d], 0);
        assert(s[i + pre.len()] == d);
        assert(dec_value(s, i, i + pre.len() + 1) == dec_value(s, i, i + pre.len()) * 10 + (s[i
            + pre.len()] - '0' as u8));
        assert(dec_value(s, i, i + pre.len() + 1) == (n / 10) * 10 + n % 10);
    }
}

/// Every value of a digit run is nonnegative.
pub proof fn lemma_dec_value_nonneg(s: Seq<u8>, i: int, j: int)
    requires
        forall|k: int| i <= k < j ==> is_digit(#[trigger] s[k]),
    ensures
        dec_value(s, i, j) >= 0,
    decreases j - i,
{
    if i < j {
        lemma_dec_value_nonneg(s, i, j - 1);
    }
}

/// Extending a digit run to the right never decreases its value.
pub proof fn lemma_dec_value_monotone(s: Seq<u8>, i: int, j: int, j2: int)
    requires
        i <= j <= j2,
        forall|k: int| i <= k < j2 ==> is_digit(#[trigger] s[k]),
    ensures
        dec_value(s, i, j) <= dec_value(s, i, j2),
    decreases j2 - j,
{
    if j < j2 {
        lemma_dec_value_monotone(s, i, j, j2 - 1);
        lemma_dec_value_nonneg(s, i, j2 - 1);
    }
}

/// Parsing a canonical `enc_nat` encoding, bounded by a non-digit, yields
/// the encoded value.
pub proof fn lemma_parse_digits_enc(s: Seq<u8>, i: int, n: nat)
    requires
        match_at(s, i, enc_nat(n)),
        i + enc_nat(n).len() == s.len() || !is_digit(s[i + enc_nat(n).len()]),
    ensures
        parse_digits(s, i) == Some((n as int, i + enc_nat(n).len())),
{
    lemma_enc_nat_digits(n);
    let j = i + enc_nat(n).len();
    assert forall|k: int| i <= k < j implies is_digit(#[trigger] s[k]) by {
        assert(s[i + (k - i)] == enc_nat(n)[k - i]);
        assert(is_digit(enc_nat(n)[k - i]));
    }
    lemma_digit_run_end(s, i, j);
    lemma_dec_value_enc(s, i, n);
}

/// Round trip of a `usize` through `enc_nat` and `parse_usize`.
pub proof fn lemma_parse_usize_enc(s: Seq<u8>, i: int, n: usize)
    requires
        match_at(s, i, enc_nat(n as nat)),
        i + enc_nat(n as nat).len() == s.len() || !is_digit(s[i + enc_nat(n as nat).len()]),
    ensures
        parse_usize(s, i) == Some((n, i + enc_nat(n as nat).len())),
{
    lemma_parse_digits_enc(s, i, n as nat);
}

/// Round trip of an `i32` through `enc_int` and `parse_i32`.
pub proof fn lemma_parse_i32_enc(s: Seq<u8>, i: int, n: i32)
    requires
        match_at(s, i, enc_int(n as int)),
        i + enc_int(n as int).len() == s.len() || !is_digit(s[i + enc_int(n as int).len()]),
    ensures
        parse_i32(s, i) == Some((n, i + enc_int(n as int).len())),
{
    if n < 0 {
        let mag = (-(n as int)) as nat;
        assert(enc_int(n as int) =~= seq!['-' as u8] + enc_nat(mag));
        lemma_match_at_concat(s, i, seq!['-' as u8], enc_nat(mag));
        lemma_match_at_index(s, i, seq!['-' as u8], 0);
        assert(s[i] == '-' as u8);
        lemma_parse_digits_enc(s, i + 1, mag);
    } else {
        lemma_enc_nat_digits(n as nat);
        lemma_match_at_index(s, i, enc_nat(n as nat), 0);
        assert(s[i] == enc_nat(n as nat)[0]);
        assert(is_digit(s[i]));
        assert(s[i] != '-' as u8);
        lemma_parse_digits_enc(s, i, n as nat);
    }
}

/// Round trip of a boolean through `enc_bool` and `parse_bool`.
pub proof fn lemma_parse_bool_enc(s: Seq<u8>, i: int, b: bool)
    requires
        match_at(s, i, enc_bool(b)),
    ensures
        parse_bool(s, i) == Some((b, i + enc_bool(b).len())),
{
    if b {
        lemma_match_at_index(s, i, lit_true(), 0);
    } else {
        lemma_match_at_index(s, i, lit_false(), 0);
        if match_at(s, i, lit_true()) {
            lemma_match_at_index(s, i, lit_true(), 0);
            assert(false);
        }
    }
}

/// Escaping distributes over concatenation.
pub proof fn lemma_esc_concat(a: Seq<u8>, b: Seq<u8>)
    ensures
        esc(a + b) == esc(a) + esc(b),
    decreases a.len(),
{
    if a.len() == 0 {
        assert(a + b =~= b);
        assert(esc(a) + esc(b) =~= esc(b));
    } else {
        assert((a + b).drop_first() =~= a.drop_first() + b);
        lemma_esc_concat(a.drop_first(), b);
        assert((a + b)[0] == a[0]);
        assert(esc(a + b) =~= esc(a) + esc(b));
    }
}

/// Parsing the escaped bytes of `v` followed by a closing quote yields `v`.
pub proof fn lemma_parse_str_body_enc(s: Seq<u8>, i: int, v: Seq<u8>)
    requires
        match_at(s, i, esc(v) + seq![QUOTE]),
    ensures
        parse_str_body(s, i) == Some((v, i + esc(v).len() + 1)),
    decreases v.len(),
{
    if v.len() == 0 {
        lemma_match_at_index(s, i, esc(v) + seq![QUOTE], 0);
        assert(s[i] == QUOTE);
    } else {
        let b = v[0];
        let rest = v.drop_first();
        assert(esc(v) == esc_byte(b) + esc(rest));
        assert((esc_byte(b) + esc(rest)) + seq![QUOTE] =~= esc_byte(b) + (esc(rest) + seq![QUOTE]));
        lemma_match_at_concat(s, i, esc_byte(b), esc(rest) + seq![QUOTE]);
        if b == QUOTE || b == BACKSLASH {
            lemma_match_at_index(s, i, esc_byte(b), 0);
            lemma_match_at_index(s, i, esc_byte(b), 1);
            assert(s[i] == BACKSLASH);
            assert(s[i + 1] == b);
            lemma_parse_str_body_enc(s, i + 2, rest);
            assert(seq![s[i + 1]] + rest =~= v);
        } else {
            lemma_match_at_index(s, i, esc_byte(b), 0);
            assert(s[i] == b);
            lemma_parse_str_body_enc(s, i + 1, rest);
            assert(seq![s[i]] + rest =~= v);
        }
    }
}

/// Round trip of a byte string through `enc_str` and `parse_str`.
pub proof fn lemma_parse_str_enc(s: Seq<u8>, i: int, v: Seq<u8>)
    requires
        match_at(s, i, enc_str(v)),
    ensures
        parse_str(s, i) == Some((v, i + enc_str(v).len())),
{
    assert(enc_str(v) =~= seq![QUOTE] + (esc(v) + seq![QUOTE]));
    lemma_match_at_concat(s, i, seq![QUOTE], esc(v) + seq![QUOTE]);
    lemma_match_at_index(s, i, seq![QUOTE], 0);
    assert(s[i] == QUOTE);
    lemma_parse_str_body_enc(s, i + 1, v);
}

/// The escape of a one-byte string is the escape of that byte.
pub proof fn lemma_esc_singleton(b: u8)
    ensures
        esc(seq![b]) == esc_byte(b),
{
    let s = seq![b];
    assert(s.drop_first() =~= Seq::<u8>::empty());
    assert(esc(s.drop_first()) == Seq::<u8>::empty());
    assert(esc(s) == esc_byte(b) + Seq::<u8>::empty());
    assert(esc_byte(b) + Seq::<u8>::empty() =~= esc_byte(b));
}

/// Every position of a digit run up to its end holds a digit, and the end
/// stays within the input.
pub proof fn lemma_digit_run_digits(s: Seq<u8>, x: int)
    requires
        0 <= x <= s.len(),
    ensures
        x <= digit_run_end(s, x) <= s.len(),
        forall|k: int| x <= k < digit_run_end(s, x) ==> is_digit(#[trigger] s[k]),
    decreases s.len() - x,
{
    if x < s.len() && is_digit(s[x]) {
        lemma_digit_run_digits(s, x + 1);
    }
}

/// A successful digit parse yields a nonnegative value and advances, never
/// past the end of the input.
pub proof fn lemma_parse_digits_bounds(s: Seq<u8>, i: int)
    ensures
        parse_digits(s, i) matches Some((v, j)) ==> 0 <= v && i < j <= s.len(),
{
    if 0 <= i && i <= s.len() {
        lemma_digit_run_digits(s, i);
        lemma_dec_value_nonneg(s, i, digit_run_end(s, i));
    }
}

/// Round trip of an optional byte string through `enc_opt_str` and
/// `parse_opt_str`.
pub proof fn lemma_parse_opt_str_enc(s: Seq<u8>, i: int, v: Option<Seq<u8>>)
    requires
        match_at(s, i, enc_opt_str(v)),
    ensures
        parse_opt_str(s, i) == Some((v, i + enc_opt_str(v).len())),
{
    match v {
        None => {
            lemma_match_at_index(s, i, lit_null(), 0);
        }
        Some(t) => {
            lemma_match_at_index(s, i, enc_str(t), 0);
            assert(enc_str(t)[0] == QUOTE);
            if match_at(s, i, lit_null()) {
                lemma_match_at_index(s, i, lit_null(), 0);
                assert(false);
            }
            lemma_parse_str_enc(s, i, t);
        }
    }
}

// ----------------------------------------------------------------------
// Executable encoders.
// ----------------------------------------------------------------------

/// Appends the bytes of `lit` to `out`.
pub fn emit_lit(out: &mut Vec<u8>, lit: &[u8])
    ensures
        final(out)@ == old(out)@ + lit@,
{
    let mut k: usize = 0;
    while k < lit.len()
        invariant
            k <= lit@.len(),
            out@ == old(out)@ + lit@.subrange(0, k as int),
        decreases lit@.len() - k,
    {
        out.push(lit[k]);
        proof {
            assert(lit@.subrange(0, k as int + 1) =~= lit@.subrange(0, k as int).push(lit@[k as int]));
        }
        k += 1;
    }
    proof {
        assert(lit@.subrange(0, lit@.len() as int) =~= lit@);
    }
}

/// Appends the decimal digits of `n` to `out`.
pub fn emit_u64(out: &mut Vec<u8>, n: u64)
    ensures
        final(out)@ == old(out)@ + enc_nat(n as nat),
    decreases n,
{
    if n >= 10 {
        emit_u64(out, n / 10);
        out.push((n % 10) as u8 + '0' as u8);
        proof {
            assert((n % 10) as u8 + '0' as u8 == digit_byte((n as nat % 10) as int));
            assert(old(out)@ + enc_nat((n / 10) as nat).push(digit_byte((n as nat % 10) as int))
                =~= old(out)@ + enc_nat(n as nat));
        }
    } else {
        out.push(n as u8 + '0' as u8);
        proof {
            assert(n as u8 + '0' as u8 == digit_byte(n as int));
            assert(old(out)@.push(digit_byte(n as int)) =~= old(out)@ + enc_nat(n as nat));
        }
    }
}

/// Appends the decimal encoding of `n`, with a minus sign when negative.
pub fn emit_i32(out: &mut Vec<u8>, n: i32)
    ensures
        final(out)@ == old(out)@ + enc_int(n as int),
{
    if n < 0 {
        out.push('-' as u8);
        let ghost mid = out@;
        let mag: u64 = (-(n as i64)) as u64;
        emit_u64(out, mag);
        proof {
            assert(out@ =~= old(out)@ + (seq!['-' as u8] + enc_nat(mag as nat)));
        }
    } else {
        emit_u64(out, n as u64);
    }
}

/// Appends the decimal digits of `n` to `out`.
pub fn emit_usize(out: &mut Vec<u8>, n: usize)
    ensures
        final(out)@ == old(out)@ + enc_nat(n as nat),
{
    emit_u64(out, n as u64);
}

/// Appends the keyword `true` or `false` to `out`.
pub fn emit_bool(out: &mut Vec<u8>, b: bool)
    ensures
        final(out)@ == old(out)@ + enc_bool(b),
{
    if b {
        out.push('t' as u8);
        out.push('r' as u8);
        out.push('u' as u8);
        out.push('e' as u8);
        proof {
            assert(out@ =~= old(out)@ + lit_true());
        }
    } else {
        out.push('f' as u8);
        out.push('a' as u8);
        out.push('l' as u8);
        out.push('s' as u8);
        out.push('e' as u8);
        proof {
            assert(out@ =~= old(out)@ + lit_false());
        }
    }
}

/// Appends the keyword `null` to `out`.
pub fn emit_null(out: &mut Vec<u8>)
    ensures
        final(out)@ == old(out)@ + lit_null(),
{
    out.push('n' as u8);
    out.push('u' as u8);
    out.push('l' as u8);
    out.push('l' as u8);
    proof {
        assert(out@ =~= old(out)@ + lit_null());
    }
}

/// Appends the quoted, escaped encoding of the byte string `s` to `out`.
pub fn emit_str(out: &mut Vec<u8>, s: &[u8])
    ensures
        final(out)@ == old(out)@ + enc_str(s@),
{
    out.push(QUOTE);
    let mut k: usize = 0;
    while k < s.len()
        invariant
            k <= s@.len(),
            out@ == old(out)@ + seq![QUOTE] + esc(s@.subrange(0, k as int)),
        decreases s@.len() - k,
    {
        let b = s[k];
        let ghost pre = out@;
        if b == QUOTE || b == BACKSLASH {
            out.push(BACKSLASH);
        }
        out.push(b);
        proof {
            assert(out@ =~= pre + esc_byte(b));
            assert(s@.subrange(0, k as int + 1) =~= s@.subrange(0, k as int) + seq![b]);
            lemma_esc_concat(s@.subrange(0, k as int), seq![b]);
            lemma_esc_singleton(b);
            assert(out@ =~= old(out)@ + seq![QUOTE] + esc(s@.subrange(0, k as int + 1)));
        }
        k += 1;
    }
    out.push(QUOTE);
    proof {
        assert(s@.subrange(0, s@.len() as int) =~= s@);
        assert(out@ =~= old(out)@ + enc_str(s@));
    }
}

// ----------------------------------------------------------------------
// Executable parsers, each mirroring its specification-level parser.
// ----------------------------------------------------------------------

/// Checks that the bytes of `lit` occur in `s` at position `i`.
pub fn expect_lit(s: &[u8], i: usize, lit: &[u8]) -> (r: Option<usize>)
    ensures
        match r {
            Some(j) => match_at(s@, i as int, lit@) && j == i + lit@.len(),
            None => !match_at(s@, i as int, lit@),
        },
{
    if i > s.len() || s.len() - i < lit.len() {
        return None;
    }
    let mut k: usize = 0;
    while k < lit.len()
        invariant
            k <= lit@.len(),
            i + lit@.len() <= s@.len() <= usize::MAX,
            forall|m: int| #![trigger lit@[m]] 0 <= m < k ==> s@[i + m] == lit@[m],
        decreases lit@.len() - k,
    {
        if s[i + k] != lit[k] {
            proof {
                assert(!match_at(s@, i as int, lit@)) by {
                    if match_at(s@, i as int, lit@) {
                        lemma_match_at_index(s@, i as int, lit@, k as int);
                    }
                }
            }
            return None;
        }
        k += 1;
    }
    Some(i + lit.len())
}

/// Parses a run of decimal digits into a `u64`, mirroring [`parse_u64`].
pub fn p_u64(s: &[u8], i: usize) -> (r: Option<(u64, usize)>)
    ensures
        match r {
            Some((v, j)) => parse_u64(s@, i as int) == Some((v, j as int)),
            None => parse_u64(s@, i as int) is None,
        },
{
    let n = s.len();
    if i >= n || s[i] < '0' as u8 || s[i] > '9' as u8 {
        return None;
    }
    proof {
        lemma_digit_run_digits(s@, i as int + 1);
    }
    let mut j: usize = i;
    let mut acc: u64 = 0;
    while j < n && s[j] >= '0' as u8 && s[j] <= '9' as u8
        invariant
            i <= j <= n == s@.len(),
            i < n,
            is_digit(s@[i as int]),
            digit_run_end(s@, i as int) == digit_run_end(s@, j as int),
            i < digit_run_end(s@, i as int),
            forall|k: int| i <= k < j ==> is_digit(#[trigger] s@[k]),
            acc == dec_value(s@, i as int, j as int),
        decreases n - j,
    {
        let d: u64 = (s[j] - '0' as u8) as u64;
        let acc10 = match acc.checked_mul(10) {
            Some(t) => t,
            None => {
                proof {
                    overflow_case(s@, i as int, j as int, acc, d);
                }
                return None;
            },
        };
        let acc2 = match acc10.checked_add(d) {
            Some(t) => t,
            None => {
                proof {
                    overflow_case(s@, i as int, j as int, acc, d);
                }
                return None;
            },
        };
        acc = acc2;
        j += 1;
    }
    proof {
        assert(digit_run_end(s@, j as int) == j);
        assert(parse_digits(s@, i as int) == Some((acc as int, j as int)));
    }
    Some((acc, j))
}

/// In a digit run whose next step would overflow a `u64`, the full run's
/// value exceeds `u64::MAX`, so the parse fails.
proof fn overflow_case(s: Seq<u8>, i: int, j: int, acc: u64, d: u64)
    requires
        0 <= i <= j < s.len(),
        is_digit(s[j]),
        forall|k: int| i <= k < j ==> is_digit(#[trigger] s[k]),
        digit_run_end(s, i) == digit_run_end(s, j),
        acc == dec_value(s, i, j),
        d == s[j] - '0' as u8,
        acc * 10 + d > u64::MAX,
    ensures
        parse_u64(s, i) is None,
        digit_run_end(s, i) != i,
{
    let e = digit_run_end(s, i);
    lemma_digit_run_digits(s, j);
    assert(digit_run_end(s, j) == digit_run_end(s, j + 1));
    lemma_digit_run_digits(s, j + 1);
    assert(e >= j + 1);
    assert forall|k: int| i <= k < e implies is_digit(#[trigger] s[k]) by {
        if k >= j + 1 {
            assert(is_digit(s[k]));
        }
    }
    assert(dec_value(s, i, j + 1) == acc * 10 + d);
    lemma_dec_value_monotone(s, i, j + 1, e);
}

/// Parses a decimal number into a `usize`, mirroring [`parse_usize`].
pub fn p_usize(s: &[u8], i: usize) -> (r: Option<(usize, usize)>)
    ensures
        match r {
            Some((v, j)) => parse_usize(s@, i as int) == Some((v, j as int)),
            None => parse_usize(s@, i as int) is None,
        },
{
    proof {
        assert(usize::MAX <= u64::MAX);
        lemma_parse_digits_bounds(s@, i as int);
    }
    match p_u64(s, i) {
        Some((v, j)) => {
            if v <= usize::MAX as u64 {
                Some((v as usize, j))
            } else {
                None
            }
        },
        None => None,
    }
}

/// Parses an optionally signed decimal number into an `i32`, mirroring
/// [`parse_i32`].
pub fn p_i32(s: &[u8], i: usize) -> (r: Option<(i32, usize)>)
    ensures
        match r {
            Some((v, j)) => parse_i32(s@, i as int) == Some((v, j as int)),
            None => parse_i32(s@, i as int) is None,
        },
{
    proof {
        lemma_parse_digits_bounds(s@, i as int);
        lemma_parse_digits_bounds(s@, i as int + 1);
    }
    if i < s.len() && s[i] == '-' as u8 {
        match p_u64(s, i + 1) {
            Some((v, j)) => {
                if v <= 0x8000_0000u64 {
                    Some(((-(v as i64)) as i32, j))
                } else {
                    None
                }
            },
            None => None,
        }
    } else {
        match p_u64(s, i) {
            Some((v, j)) => {
                if v <= i32::MAX as u64 {
                    Some((v as i32, j))
                } else {
                    None
                }
            },
            None => None,
        }
    }
}

/// Parses the keyword `true` or `false`, mirroring [`parse_bool`].
pub fn p_bool(s: &[u8], i: usize) -> (r: Option<(bool, usize)>)
    ensures
        match r {
            Some((v, j)) => parse_bool(s@, i as int) == Some((v, j as int)),
            None => parse_bool(s@, i as int) is None,
        },
{
    let t: Vec<u8> = lit_true_v();
    match expect_lit(s, i, t.as_slice()) {
        Some(j) => Some((true, j)),
        None => {
            let f: Vec<u8> = lit_false_v();
            match expect_lit(s, i, f.as_slice()) {
                Some(j) => Some((false, j)),
                None => None,
            }
        },
    }
}

/// Parses a quoted string, mirroring [`parse_str`].
pub fn p_str(s: &[u8], i: usize) -> (r: Option<(Vec<u8>, usize)>)
    ensures
        match r {
            Some((v, j)) => parse_str(s@, i as int) == Some((v@, j as int)),
            None => parse_str(s@, i as int) is None,
        },
{
    let n = s.len();
    if i >= n || s[i] != QUOTE {
        return None;
    }
    let mut k: usize = i + 1;
    let mut acc: Vec<u8> = Vec::new();
    loop
        invariant
            i + 1 <= k <= n == s@.len(),
            i < n,
            s@[i as int] == QUOTE,
            (match parse_str_body(s@, k as int) {
                Some((t, j)) => parse_str_body(s@, i as int + 1) == Some((acc@ + t, j)),
                None => parse_str_body(s@, i as int + 1) is None,
            }),
        decreases s@.len() - k,
    {
        if k >= n {
            return None;
        }
        let b = s[k];
        if b == QUOTE {
            proof {
                assert(acc@ + Seq::<u8>::empty() =~= acc@);
            }
            return Some((acc, k + 1));
        } else if b == BACKSLASH {
            if k + 1 >= n {
                return None;
            }
            let c = s[k + 1];
            let ghost acc0 = acc@;
            acc.push(c);
            proof {
                match parse_str_body(s@, k as int + 2) {
                    Some((t, j)) => {
                        assert(acc0 + (seq![c] + t) =~= acc0.push(c) + t);
                    },
                    None => {},
                }
            }
            k += 2;
        } else {
            let ghost acc0 = acc@;
            acc.push(b);
            proof {
                match parse_str_body(s@, k as int + 1) {
                    Some((t, j)) => {
                        assert(acc0 + (seq![b] + t) =~= acc0.push(b) + t);
                    },
                    None => {},
                }
            }
            k += 1;
        }
    }
}

/// Parses a string or the keyword `null`, mirroring [`parse_opt_str`].
pub fn p_opt_str(s: &[u8], i: usize) -> (r: Option<(Option<Vec<u8>>, usize)>)
    ensures
        match r {
            Some((v, j)) => {
                &&& parse_opt_str(s@, i as int) matches Some((w, jj))
                &&& jj == j as int
                &&& match v {
                    Some(b) => w == Some(b@),
                    None => w is None,
                }
            },
            None => parse_opt_str(s@, i as int) is None,
        },
{
    let nl: Vec<u8> = lit_null_v();
    match expect_lit(s, i, nl.as_slice()) {
        Some(j) => Some((None, j)),
        None => {
            match p_str(s, i) {
                Some((v, j)) => Some((Some(v), j)),
                None => None,
            }
        },
    }
}

/// Builds the keyword `true` as bytes.
pub fn lit_true_v() -> (r: Vec<u8>)
    ensures
        r@ == lit_true(),
{
    let mut v: Vec<u8> = Vec::new();
    v.push('t' as u8);
    v.push('r' as u8);
    v.push('u' as u8);
    v.push('e' as u8);
    proof {
        assert(v@ =~= lit_true());
    }
    v
}

/// Builds the keyword `false` as bytes.
pub fn lit_false_v() -> (r: Vec<u8>)
    ensures
        r@ == lit_false(),
{
    let mut v: Vec<u8> = Vec::new();
    v.push('f' as u8);
    v.push('a' as u8);
    v.push('l' as u8);
    v.push('s' as u8);
    v.push('e' as u8);
    proof {
        assert(v@ =~= lit_false());
    }
    v
}

/// Builds the keyword `null` as bytes.
pub fn lit_null_v() -> (r: Vec<u8>)
    ensures
        r@ == lit_null(),
{
    let mut v: Vec<u8> = Vec::new();
    v.push('n' as u8);
    v.push('u' as u8);
    v.push('l' as u8);
    v.push('l' as u8);
    proof {
        assert(v@ =~= lit_null());
    }
    v
}

} // verus!
