//! Naive textual parameter substitution: each `?` placeholder is rewritten,
//! left to right, with the matching parameter surrounded by single quotes —
//! unless the parameter already begins with one, in which case it is inserted
//! verbatim. This is textual substitution, not parameter binding: it does not
//! escape quote characters inside an unquoted parameter and is therefore
//! unsuitable for untrusted input. The behaviour is kept exactly as stated
//! for compatibility.

use vstd::prelude::*;

verus! {

/// The index of the first `?` in `q`, if any.
pub open spec fn spec_find_qmark(q: Seq<char>) -> Option<int>
    decreases q.len(),
{
    if q.len() == 0 {
        None
    } else if q[0] == '?' {
        Some(0)
    } else {
        match spec_find_qmark(q.drop_first()) {
            Some(i) => Some(i + 1),
            None => None,
        }
    }
}

/// A parameter as it is inserted into the query text: surrounded by single
/// quotes unless it already begins with one.
pub open spec fn spec_quote_param(p: Seq<char>) -> Seq<char> {
    if p.len() > 0 && p[0] == '\'' {
        p
    } else {
        seq!['\''] + p + seq!['\'']
    }
}

/// `q` with its first `?` replaced by `rep`; `q` unchanged when it holds no
/// `?`. The replacement text itself is scanned again by later rounds, as a
/// left-to-right first-occurrence rewrite naturally does.
pub open spec fn spec_replace_first(q: Seq<char>, rep: Seq<char>) -> Seq<char> {
    match spec_find_qmark(q) {
        Some(i) => q.take(i) + rep + q.skip(i + 1),
        None => q,
    }
}

/// The query after substituting the parameters one by one: each round
/// rewrites the first remaining `?` of the current text. Extra placeholders
/// stay literal `?`; extra parameters go unused only in the sense that a
/// round without a `?` leaves the text unchanged.
pub open spec fn spec_substitute(q: Seq<char>, params: Seq<Seq<char>>) -> Seq<char>
    decreases params.len(),
{
    if params.len() == 0 {
        q
    } else {
        spec_substitute(spec_replace_first(q, spec_quote_param(params[0])), params.drop_first())
    }
}

/// Relies on String::push: appends exactly the one given character.
#[verifier::external_body]
fn push_char(s: &mut String, c: char)
    ensures
        final(s)@ == old(s)@.push(c),
{
    s.push(c);
}

/// Appends `s[from..to]` (in characters) to `out`.
fn push_char_range(out: &mut String, s: &str, from: usize, to: usize)
    requires
        from <= to <= s@.len(),
    ensures
        final(out)@ == old(out)@ + s@.subrange(from as int, to as int),
{
    let mut i: usize = from;
    while i < to
        invariant
            from <= i <= to <= s@.len(),
            out@ == old(out)@ + s@.subrange(from as int, i as int),
        decreases to - i,
    {
        let c = s.get_char(i);
        push_char(out, c);
        proof {
            assert(s@.subrange(from as int, i + 1) =~= s@.subrange(from as int, i as int).push(
                s@[i as int],
            ));
        }
        i += 1;
    }
    proof {
        assert(out@ =~= old(out)@ + s@.subrange(from as int, to as int));
    }
}

/// The index of the first `?` in `s`, if any.
fn find_qmark(s: &str) -> (r: Option<usize>)
    ensures
        match spec_find_qmark(s@) {
            Some(i) => r matches Some(j) && j == i && i < s@.len(),
            None => r is None,
        },
{
    let n = s.unicode_len();
    let mut i: usize = 0;
    proof {
        assert(s@.skip(0) =~= s@);
    }
    while i < n
        invariant
            i <= n,
            n == s@.len(),
            spec_find_qmark(s@) == match spec_find_qmark(s@.skip(i as int)) {
                Some(k) => Some(k + i),
                None => None::<int>,
            },
        decreases n - i,
    {
        proof {
            assert(s@.skip(i as int).drop_first() =~= s@.skip(i + 1));
            assert(s@.skip(i as int)[0] == s@[i as int]);
        }
        if s.get_char(i) == '?' {
            return Some(i);
        }
        i += 1;
    }
    proof {
        assert(s@.skip(n as int).len() == 0);
    }
    None
}

/// `q` with its first `?` replaced by the quoted form of `param`.
fn replace_first_with_param(q: &str, param: &str) -> (r: String)
    ensures
        r@ == spec_replace_first(q@, spec_quote_param(param@)),
{
    match find_qmark(q) {
        None => q.to_owned(),
        Some(i) => {
            let n = q.unicode_len();
            let mut out = String::new();
            push_char_range(&mut out, q, 0, i);
            let verbatim = param.unicode_len() > 0 && param.get_char(0) == '\'';
            if verbatim {
                push_char_range(&mut out, param, 0, param.unicode_len());
            } else {
                push_char(&mut out, '\'');
                push_char_range(&mut out, param, 0, param.unicode_len());
                push_char(&mut out, '\'');
            }
            push_char_range(&mut out, q, i + 1, n);
            proof {
                assert(q@.subrange(0, i as int) =~= q@.take(i as int));
                assert(q@.subrange(i + 1, n as int) =~= q@.skip(i + 1));
                assert(param@.subrange(0, param@.len() as int) =~= param@);
                if verbatim {
                    assert(out@ =~= q@.take(i as int) + spec_quote_param(param@) + q@.skip(
                        i + 1,
                    ));
                } else {
                    assert(seq!['\''] + param@ + seq!['\''] =~= Seq::<char>::empty().push(
                        '\'',
                    ) + param@ + Seq::<char>::empty().push('\''));
                    assert(out@ =~= q@.take(i as int) + spec_quote_param(param@) + q@.skip(
                        i + 1,
                    ));
                }
            }
            out
        },
    }
}

/// The query text after substituting every parameter, leftmost `?` first.
pub fn substitute_params(query: &str, params: &[&str]) -> (r: String)
    ensures
        r@ == spec_substitute(query@, params.deep_view()),
{
    let mut cur: String = query.to_owned();
    let n = params.len();
    let mut j: usize = 0;
    proof {
        assert(params.deep_view().skip(0) =~= params.deep_view());
    }
    while j < n
        invariant
            j <= n,
            n == params.deep_view().len(),
            spec_substitute(query@, params.deep_view()) == spec_substitute(
                cur@,
                params.deep_view().skip(j as int),
            ),
        decreases n - j,
    {
        proof {
            assert(params.deep_view().skip(j as int).drop_first() =~= params.deep_view().skip(
                j + 1,
            ));
            assert(params.deep_view().skip(j as int)[0] == params.deep_view()[j as int]);
        }
        let param: &str = params[j];
        cur = replace_first_with_param(cur.as_str(), param);
        j += 1;
    }
    proof {
        assert(params.deep_view().skip(n as int).len() == 0);
    }
    cur
}

} // verus!
