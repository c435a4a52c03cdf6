//! Byte-level text primitives for the wire format: ASCII literals, decimal
//! numbers, and escaped string bodies. Writers append to a byte buffer and
//! are specified against spec-level byte sequences; parsers walk an input
//! with an index and are specified against spec-level parsing functions, so
//! the round-trip laws can be proved once over the specs.

use vstd::prelude::*;

verus! {

/// The bytes of an ASCII string literal, one byte per character.
pub open spec fn lit_bytes(t: &str) -> Seq<u8> {
    Seq::new(t@.len(), |i: int| t@[i] as u8)
}

/// Appends the bytes of the ASCII string `t` to `out`.
pub fn write_lit(out: &mut Vec<u8>, t: &str)
    requires
        vstd::utf8::is_ascii_chars(t@),
    ensures
        final(out)@ == old(out)@ + lit_bytes(t),
{
    let n = t.unicode_len();
    let mut k: usize = 0;
    while k < n
        invariant
            vstd::utf8::is_ascii_chars(t@),
            k <= n,
            n == t@.len(),
            out@ == old(out)@ + lit_bytes(t).take(k as int),
        decreases n - k,
    {
        let b = t.get_ascii(k);
        out.push(b);
        proof {
            assert(lit_bytes(t).take(k + 1) =~= lit_bytes(t).take(k as int).push(
                lit_bytes(t)[k as int],
            ));
        }
        k += 1;
    }
    proof {
        assert(lit_bytes(t).take(n as int) =~= lit_bytes(t));
    }
}

/// Whether `s` holds exactly the bytes of the ASCII string `t` at `i`.
pub open spec fn spec_lit_at(s: Seq<u8>, i: int, t: &str) -> bool {
    &&& 0 <= i
    &&& i + t@.len() <= s.len()
    &&& s.subrange(i, i + t@.len() as int) == lit_bytes(t)
}

/// Checks for the bytes of the ASCII string `t` at position `i` of `s`.
pub fn expect_lit(s: &[u8], i: usize, t: &str) -> (r: Option<usize>)
    requires
        vstd::utf8::is_ascii_chars(t@),
    ensures
        r matches Some(j) ==> spec_lit_at(s@, i as int, t) && j == i + t@.len(),
        r is None ==> !spec_lit_at(s@, i as int, t),
{
    let n = t.unicode_len();
    let slen = s.len();
    if i > slen || n > slen - i {
        proof {
            assert(!spec_lit_at(s@, i as int, t));
        }
        return None;
    }
    let mut k: usize = 0;
    while k < n
        invariant
            vstd::utf8::is_ascii_chars(t@),
            k <= n,
            n == t@.len(),
            slen == s@.len(),
            i + n <= slen,
            forall|m: int| 0 <= m < k ==> s@[i + m] == lit_bytes(t)[m],
        decreases n - k,
    {
        if s[i + k] != t.get_ascii(k) {
            proof {
                assert(s@.subrange(i as int, i + t@.len() as int)[k as int] != lit_bytes(
                    t,
                )[k as int]);
            }
            return None;
        }
        k += 1;
    }
    proof {
        assert(s@.subrange(i as int, i + t@.len() as int) =~= lit_bytes(t));
    }
    Some(i + n)
}

/// An ASCII decimal digit.
pub open spec fn is_digit(b: u8) -> bool {
    48 <= b <= 57
}

/// The decimal digits of `n`, most significant first, no sign and no
/// leading zero (a single `0` for zero).
pub open spec fn spec_dec_digits(n: nat) -> Seq<u8>
    decreases n,
{
    if n < 10 {
        seq![(48 + n) as u8]
    } else {
        spec_dec_digits(n / 10).push((48 + n % 10) as u8)
    }
}

/// Every byte of `spec_dec_digits` is a decimal digit.
pub proof fn lemma_dec_digits_are_digits(n: nat)
    ensures
        forall|i: int| 0 <= i < spec_dec_digits(n).len() ==> is_digit(
            #[trigger] spec_dec_digits(n)[i],
        ),
    decreases n,
{
    let d = spec_dec_digits(n);
    if n < 10 {
        assert(d[0] == (48 + n) as u8);
    } else {
        lemma_dec_digits_are_digits(n / 10);
        assert forall|i: int| 0 <= i < d.len() implies is_digit(#[trigger] d[i]) by {
            if i < d.len() - 1 {
                assert(d[i] == spec_dec_digits(n / 10)[i]);
            } else {
                assert(d[i] == (48 + n % 10) as u8);
            }
        }
    }
}

/// Appends the decimal digits of `n` to `out`.
pub fn write_u64(out: &mut Vec<u8>, n: u64)
    ensures
        final(out)@ == old(out)@ + spec_dec_digits(n as nat),
    decreases n,
{
    if n < 10 {
        out.push(48 + (n as u8));
    } else {
        write_u64(out, n / 10);
        out.push(48 + ((n % 10) as u8));
    }
}

/// The value of an all-digit byte sequence, most significant digit first.
pub open spec fn spec_digits_value(s: Seq<u8>) -> nat
    decreases s.len(),
{
    if s.len() == 0 {
        0
    } else {
        spec_digits_value(s.take(s.len() - 1)) * 10 + (s[s.len() - 1] - 48) as nat
    }
}

/// The end of the run of digits that starts at `i` in `s`.
pub open spec fn spec_digit_run_end(s: Seq<u8>, i: int) -> int
    decreases s.len() - i,
{
    if i < 0 || i >= s.len() || !is_digit(s[i]) {
        i
    } else {
        spec_digit_run_end(s, i + 1)
    }
}

pub proof fn lemma_digit_run_end_bounds(s: Seq<u8>, i: int)
    requires
        0 <= i <= s.len(),
    ensures
        i <= spec_digit_run_end(s, i) <= s.len(),
        forall|m: int| i <= m < spec_digit_run_end(s, i) ==> is_digit(#[trigger] s[m]),
        spec_digit_run_end(s, i) < s.len() ==> !is_digit(s[spec_digit_run_end(s, i)]),
    decreases s.len() - i,
{
    if i < s.len() && is_digit(s[i]) {
        lemma_digit_run_end_bounds(s, i + 1);
    }
}

/// The value and end position of the decimal number at `i`, or `None` when
/// no digit stands at `i` or the value exceeds `u64::MAX`.
pub open spec fn spec_parse_u64(s: Seq<u8>, i: int) -> Option<(u64, int)> {
    let j = spec_digit_run_end(s, i);
    if j == i {
        None
    } else {
        let v = spec_digits_value(s.subrange(i, j));
        if v > u64::MAX {
            None
        } else {
            Some((v as u64, j))
        }
    }
}

/// Extending a digit run cannot shrink its value.
proof fn lemma_digits_value_monotone(s: Seq<u8>, i: int, j: int, k: int)
    requires
        0 <= i <= j <= k <= s.len(),
    ensures
        spec_digits_value(s.subrange(i, j)) <= spec_digits_value(s.subrange(i, k)),
    decreases k - j,
{
    if j < k {
        lemma_digits_value_monotone(s, i, j, k - 1);
        assert(s.subrange(i, k).take(k - i - 1) =~= s.subrange(i, k - 1));
        assert(spec_digits_value(s.subrange(i, k)) == spec_digits_value(s.subrange(i, k - 1)) * 10
            + (s[k - 1] - 48) as nat);
    }
}

/// Reads the decimal number at `i`, as `spec_parse_u64` has it.
pub fn parse_u64(s: &[u8], i: usize) -> (r: Option<(u64, usize)>)
    requires
        i <= s@.len(),
    ensures
        match spec_parse_u64(s@, i as int) {
            Some((v, j)) => r matches Some(p) && p.0 == v && p.1 == j && i < j <= s@.len(),
            None => r is None,
        },
{
    proof {
        lemma_digit_run_end_bounds(s@, i as int);
    }
    let ghost end = spec_digit_run_end(s@, i as int);
    if i == s.len() || s[i] < 48 || s[i] > 57 {
        return None;
    }
    let mut j: usize = i;
    let mut acc: u64 = 0;
    while j < s.len() && s[j] >= 48 && s[j] <= 57
        invariant
            i <= j <= s@.len(),
            j <= end <= s@.len(),
            end == spec_digit_run_end(s@, i as int),
            forall|m: int| i <= m < end ==> is_digit(#[trigger] s@[m]),
            end < s@.len() ==> !is_digit(s@[end]),
            end == spec_digit_run_end(s@, j as int) || j == end,
            acc == spec_digits_value(s@.subrange(i as int, j as int)),
        decreases s@.len() - j,
    {
        let d: u8 = s[j] - 48;
        if acc > (u64::MAX - (d as u64)) / 10 {
            proof {
                lemma_digits_value_monotone(s@, i as int, j + 1, end);
                assert(s@.subrange(i as int, j + 1).take(j + 1 - i - 1) =~= s@.subrange(
                    i as int,
                    j as int,
                ));
                assert(spec_digits_value(s@.subrange(i as int, j + 1)) == acc * 10 + d);
            }
            return None;
        }
        acc = acc * 10 + (d as u64);
        proof {
            assert(s@.subrange(i as int, j + 1).take(j + 1 - i - 1) =~= s@.subrange(
                i as int,
                j as int,
            ));
            assert(spec_digits_value(s@.subrange(i as int, j + 1)) == spec_digits_value(
                s@.subrange(i as int, j as int),
            ) * 10 + (s@[j as int] - 48));
        }
        j += 1;
    }
    proof {
        assert(j == end);
    }
    Some((acc, j))
}

/// Digits followed by a non-digit parse back to the number they spell.
pub proof fn lemma_dec_digits_roundtrip(n: nat, s: Seq<u8>, i: int)
    requires
        n <= u64::MAX,
        0 <= i,
        i + spec_dec_digits(n).len() <= s.len(),
        s.subrange(i, i + spec_dec_digits(n).len() as int) == spec_dec_digits(n),
        i + spec_dec_digits(n).len() < s.len() ==> !is_digit(
            s[i + spec_dec_digits(n).len() as int],
        ),
    ensures
        spec_parse_u64(s, i) == Some((n as u64, i + spec_dec_digits(n).len() as int)),
{
    let d = spec_dec_digits(n);
    lemma_dec_digits_are_digits(n);
    assert forall|m: int| i <= m < i + d.len() implies is_digit(#[trigger] s[m]) by {
        assert(s[m] == s.subrange(i, i + d.len() as int)[m - i]);
    }
    lemma_digit_run_end_is(s, i, i + d.len());
    lemma_digits_value_of_dec_digits(n);
    assert(spec_digits_value(s.subrange(i, i + d.len() as int)) == n);
}

/// A digit run bounded by a non-digit (or the end) ends exactly there.
proof fn lemma_digit_run_end_is(s: Seq<u8>, i: int, j: int)
    requires
        0 <= i <= j <= s.len(),
        forall|m: int| i <= m < j ==> is_digit(#[trigger] s[m]),
        j < s.len() ==> !is_digit(s[j]),
    ensures
        spec_digit_run_end(s, i) == j,
    decreases j - i,
{
    if i < j {
        lemma_digit_run_end_is(s, i + 1, j);
    }
}

/// An ASCII hex digit (both cases accepted on the way in).
pub open spec fn is_hexdig(b: u8) -> bool {
    is_digit(b) || (97 <= b <= 102) || (65 <= b <= 70)
}

/// The lowercase hex digit for a value below sixteen.
pub open spec fn spec_hexdig(v: nat) -> u8 {
    if v < 10 {
        (48 + v) as u8
    } else {
        (87 + v) as u8
    }
}

/// The value of a hex digit byte.
pub open spec fn spec_hexval(b: u8) -> nat {
    if is_digit(b) {
        (b - 48) as nat
    } else if 97 <= b <= 102 {
        (b - 87) as nat
    } else if 65 <= b <= 70 {
        (b - 55) as nat
    } else {
        0
    }
}

/// The escape of one byte inside a quoted string: quote and backslash get a
/// backslash, the named control characters their short escapes, any other
/// control byte a `\u00XX` escape with lowercase hex, and everything else
/// passes through unchanged.
pub open spec fn spec_escape_byte(b: u8) -> Seq<u8> {
    if b == 34 {
        seq![92u8, 34u8]
    } else if b == 92 {
        seq![92u8, 92u8]
    } else if b == 8 {
        seq![92u8, 98u8]
    } else if b == 9 {
        seq![92u8, 116u8]
    } else if b == 10 {
        seq![92u8, 110u8]
    } else if b == 12 {
        seq![92u8, 102u8]
    } else if b == 13 {
        seq![92u8, 114u8]
    } else if b < 32 {
        seq![92u8, 117u8, 48u8, 48u8, spec_hexdig((b / 16) as nat), spec_hexdig((b % 16) as nat)]
    } else {
        seq![b]
    }
}

/// The body of a quoted string: every byte escaped, no quotes added.
pub open spec fn spec_escape(s: Seq<u8>) -> Seq<u8>
    decreases s.len(),
{
    if s.len() == 0 {
        Seq::empty()
    } else {
        spec_escape_byte(s[0]) + spec_escape(s.drop_first())
    }
}

/// Escaping distributes over appending one byte at the end.
proof fn lemma_escape_push(a: Seq<u8>, x: u8)
    ensures
        spec_escape(a.push(x)) == spec_escape(a) + spec_escape_byte(x),
    decreases a.len(),
{
    if a.len() == 0 {
        let p = a.push(x);
        assert(p.len() == 1);
        assert(p[0] == x);
        assert(p.drop_first() =~= Seq::<u8>::empty());
        assert(spec_escape(p) == spec_escape_byte(x) + spec_escape(p.drop_first()));
        assert(spec_escape(p.drop_first()) == Seq::<u8>::empty());
        assert(spec_escape(a) == Seq::<u8>::empty());
        assert(spec_escape(p) =~= spec_escape(a) + spec_escape_byte(x));
    } else {
        assert(a.push(x)[0] == a[0]);
        assert(a.push(x).drop_first() =~= a.drop_first().push(x));
        lemma_escape_push(a.drop_first(), x);
        assert(spec_escape(a.push(x)) =~= spec_escape(a) + spec_escape_byte(x));
    }
}

/// The lowercase hex digit for a value below sixteen.
fn hexdig(v: u8) -> (r: u8)
    requires
        v < 16,
    ensures
        r == spec_hexdig(v as nat),
{
    if v < 10 {
        48 + v
    } else {
        87 + v
    }
}

/// Appends the escaped body of `s` to `out` (no surrounding quotes).
pub fn write_jstring_body(out: &mut Vec<u8>, s: &[u8])
    ensures
        final(out)@ == old(out)@ + spec_escape(s@),
{
    let n = s.len();
    let mut k: usize = 0;
    proof {
        assert(s@.take(0) =~= Seq::<u8>::empty());
    }
    while k < n
        invariant
            k <= n,
            n == s@.len(),
            out@ == old(out)@ + spec_escape(s@.take(k as int)),
        decreases n - k,
    {
        let b = s[k];
        if b == 34 {
            out.push(92);
            out.push(34);
        } else if b == 92 {
            out.push(92);
            out.push(92);
        } else if b == 8 {
            out.push(92);
            out.push(98);
        } else if b == 9 {
            out.push(92);
            out.push(116);
        } else if b == 10 {
            out.push(92);
            out.push(110);
        } else if b == 12 {
            out.push(92);
            out.push(102);
        } else if b == 13 {
            out.push(92);
            out.push(114);
        } else if b < 32 {
            out.push(92);
            out.push(117);
            out.push(48);
            out.push(48);
            out.push(hexdig(b / 16));
            out.push(hexdig(b % 16));
        } else {
            out.push(b);
        }
        proof {
            lemma_escape_push(s@.take(k as int), s@[k as int]);
            assert(s@.take(k + 1) =~= s@.take(k as int).push(s@[k as int]));
            assert(out@ =~= old(out)@ + spec_escape(s@.take(k + 1)));
        }
        k += 1;
    }
    proof {
        assert(s@.take(n as int) =~= s@);
    }
}

/// Reads the body of a quoted string starting at `i` (the opening quote
/// already behind), unescaping as it goes, up to and including the closing
/// quote. `acc` carries what has been read so far.
pub open spec fn spec_parse_jstring_body(s: Seq<u8>, i: int, acc: Seq<u8>) -> Option<
    (Seq<u8>, int),
>
    decreases s.len() - i,
{
    if i < 0 || i >= s.len() {
        None
    } else if s[i] == 34 {
        Some((acc, i + 1))
    } else if s[i] == 92 {
        if i + 1 < s.len() && (s[i + 1] == 34 || s[i + 1] == 92) {
            spec_parse_jstring_body(s, i + 2, acc.push(s[i + 1]))
        } else if i + 1 < s.len() && s[i + 1] == 98 {
            spec_parse_jstring_body(s, i + 2, acc.push(8))
        } else if i + 1 < s.len() && s[i + 1] == 116 {
            spec_parse_jstring_body(s, i + 2, acc.push(9))
        } else if i + 1 < s.len() && s[i + 1] == 110 {
            spec_parse_jstring_body(s, i + 2, acc.push(10))
        } else if i + 1 < s.len() && s[i + 1] == 102 {
            spec_parse_jstring_body(s, i + 2, acc.push(12))
        } else if i + 1 < s.len() && s[i + 1] == 114 {
            spec_parse_jstring_body(s, i + 2, acc.push(13))
        } else if i + 5 < s.len() && s[i + 1] == 117 && s[i + 2] == 48 && s[i + 3] == 48
            && is_hexdig(s[i + 4]) && is_hexdig(s[i + 5]) {
            spec_parse_jstring_body(
                s,
                i + 6,
                acc.push((spec_hexval(s[i + 4]) * 16 + spec_hexval(s[i + 5])) as u8),
            )
        } else {
            None
        }
    } else {
        spec_parse_jstring_body(s, i + 1, acc.push(s[i]))
    }
}

/// Reads a quoted string body, as `spec_parse_jstring_body` has it.
pub fn parse_jstring_body(s: &[u8], i: usize) -> (r: Option<(Vec<u8>, usize)>)
    requires
        i <= s@.len(),
    ensures
        match spec_parse_jstring_body(s@, i as int, Seq::empty()) {
            Some((c, j)) => r matches Some(p) && p.0@ == c && p.1 == j && i < j <= s@.len(),
            None => r is None,
        },
{
    let slen = s.len();
    let mut j: usize = i;
    let mut out: Vec<u8> = Vec::new();
    loop
        invariant
            i <= j <= slen,
            slen == s@.len(),
            spec_parse_jstring_body(s@, i as int, Seq::empty()) == spec_parse_jstring_body(
                s@,
                j as int,
                out@,
            ),
        decreases slen - j,
    {
        if j == slen {
            return None;
        }
        let b = s[j];
        if b == 34 {
            return Some((out, j + 1));
        } else if b == 92 {
            if j + 1 >= slen {
                return None;
            }
            let e = s[j + 1];
            if e == 34 || e == 92 {
                out.push(e);
                j += 2;
            } else if e == 98 {
                out.push(8);
                j += 2;
            } else if e == 116 {
                out.push(9);
                j += 2;
            } else if e == 110 {
                out.push(10);
                j += 2;
            } else if e == 102 {
                out.push(12);
                j += 2;
            } else if e == 114 {
                out.push(13);
                j += 2;
            } else if e == 117 {
                if slen - j < 6 {
                    return None;
                }
                if s[j + 2] != 48 || s[j + 3] != 48 {
                    return None;
                }
                let h = s[j + 4];
                let l = s[j + 5];
                let hv: u8 = if h >= 48 && h <= 57 {
                    h - 48
                } else if h >= 97 && h <= 102 {
                    h - 87
                } else if h >= 65 && h <= 70 {
                    h - 55
                } else {
                    return None;
                };
                let lv: u8 = if l >= 48 && l <= 57 {
                    l - 48
                } else if l >= 97 && l <= 102 {
                    l - 87
                } else if l >= 65 && l <= 70 {
                    l - 55
                } else {
                    return None;
                };
                out.push(hv * 16 + lv);
                j += 6;
            } else {
                return None;
            }
        } else {
            out.push(b);
            j += 1;
        }
    }
}

/// An escaped body followed by a closing quote parses back to the body.
pub proof fn lemma_jstring_roundtrip(content: Seq<u8>, s: Seq<u8>, i: int, acc: Seq<u8>)
    requires
        0 <= i,
        i + spec_escape(content).len() + 1 <= s.len(),
        s.subrange(i, i + spec_escape(content).len() as int) == spec_escape(content),
        s[i + spec_escape(content).len() as int] == 34,
    ensures
        spec_parse_jstring_body(s, i, acc) == Some(
            (acc + content, i + spec_escape(content).len() + 1),
        ),
    decreases content.len(),
{
    let e = spec_escape(content);
    if content.len() == 0 {
        assert(s[i] == 34);
        assert(acc + content =~= acc);
    } else {
        let b = content[0];
        let eb = spec_escape_byte(b);
        let rest = content.drop_first();
        let er = spec_escape(rest);
        assert(e == eb + er);
        assert forall|m: int| 0 <= m < eb.len() implies s[i + m] == eb[m] by {
            assert(s[i + m] == s.subrange(i, i + e.len() as int)[m]);
            assert(e[m] == eb[m]);
        }
        assert(s[i + 0] == eb[0]);
        assert(s[i] == eb[0]);
        let k = eb.len() as int;
        assert forall|m: int| 0 <= m < er.len() implies s.subrange(
            i + k,
            i + k + er.len() as int,
        )[m] == er[m] by {
            assert(s[i + k + m] == s.subrange(i, i + e.len() as int)[k + m]);
            assert(e[k + m] == er[m]);
        }
        assert(s.subrange(i + k, i + k + er.len() as int) =~= er);
        lemma_jstring_roundtrip(rest, s, i + k, acc.push(b));
        assert(acc.push(b) + rest =~= acc + content);
        if b == 34 {
            assert(s[i] == 92 && s[i + 1] == 34);
        } else if b == 92 {
            assert(s[i] == 92 && s[i + 1] == 92);
        } else if b == 8 {
            assert(s[i] == 92 && s[i + 1] == 98);
        } else if b == 9 {
            assert(s[i] == 92 && s[i + 1] == 116);
        } else if b == 10 {
            assert(s[i] == 92 && s[i + 1] == 110);
        } else if b == 12 {
            assert(s[i] == 92 && s[i + 1] == 102);
        } else if b == 13 {
            assert(s[i] == 92 && s[i + 1] == 114);
        } else if b < 32 {
            assert(s[i] == 92 && s[i + 1] == 117 && s[i + 2] == 48 && s[i + 3] == 48);
            assert(s[i + 4] == spec_hexdig((b / 16) as nat));
            assert(s[i + 5] == spec_hexdig((b % 16) as nat));
            assert(is_hexdig(s[i + 4]) && is_hexdig(s[i + 5]));
            assert(spec_hexval(s[i + 4]) == b / 16 && spec_hexval(s[i + 5]) == b % 16);
            assert((spec_hexval(s[i + 4]) * 16 + spec_hexval(s[i + 5])) as u8 == b);
        } else {
            assert(s[i] == b && b != 34 && b != 92);
        }
    }
}

/// The digits of `n` spell `n`.
proof fn lemma_digits_value_of_dec_digits(n: nat)
    ensures
        spec_digits_value(spec_dec_digits(n)) == n,
    decreases n,
{
    let d = spec_dec_digits(n);
    if n < 10 {
        assert(d.take(0) =~= Seq::<u8>::empty());
        assert(d[0] == (48 + n) as u8);
        assert(spec_digits_value(d) == spec_digits_value(d.take(0)) * 10 + (d[0] - 48) as nat);
    } else {
        lemma_digits_value_of_dec_digits(n / 10);
        assert(d.take(d.len() - 1) =~= spec_dec_digits(n / 10));
        assert(d[d.len() - 1] == (48 + n % 10) as u8);
        assert(spec_digits_value(d) == spec_digits_value(spec_dec_digits(n / 10)) * 10 + (d[d.len()
            - 1] - 48) as nat);
        assert(spec_digits_value(d) == (n / 10) * 10 + n % 10);
    }
}

} // verus!
