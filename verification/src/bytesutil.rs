//! Byte-level text utilities: ASCII trimming, splitting on a delimiter, and
//! decimal parsing, each with an exact sequence-level specification.

use vstd::prelude::*;

verus! {

/// ASCII whitespace: space, tab, line feed, carriage return.
pub open spec fn is_space(b: u8) -> bool {
    b == 32 || b == 9 || b == 10 || b == 13
}

/// `s` with all leading and trailing ASCII whitespace removed.
pub open spec fn trimmed(s: Seq<u8>) -> Seq<u8>
    decreases s.len(),
{
    if s.len() > 0 && is_space(s[0]) {
        trimmed(s.skip(1))
    } else if s.len() > 0 && is_space(s[s.len() - 1]) {
        trimmed(s.take(s.len() - 1))
    } else {
        s
    }
}

/// The views of a sequence of byte vectors.
pub open spec fn views_of(vs: Seq<Vec<u8>>) -> Seq<Seq<u8>> {
    vs.map_values(|v: Vec<u8>| v@)
}

/// The pieces of `s` between occurrences of the delimiter `d`, in order.
/// The empty sequence splits into one empty piece, and every delimiter
/// separates two pieces, so the result always has one piece more than `s`
/// has delimiters.
pub open spec fn split_at(s: Seq<u8>, d: u8) -> Seq<Seq<u8>>
    decreases s.len(),
{
    if s.len() == 0 {
        seq![Seq::<u8>::empty()]
    } else if s[0] == d {
        seq![Seq::<u8>::empty()] + split_at(s.skip(1), d)
    } else {
        let rest = split_at(s.skip(1), d);
        seq![seq![s[0]] + rest[0]] + rest.skip(1)
    }
}

/// Splitting always yields at least one piece.
pub proof fn lemma_split_at_nonempty(s: Seq<u8>, d: u8)
    ensures
        split_at(s, d).len() >= 1,
    decreases s.len(),
{
    if s.len() > 0 {
        lemma_split_at_nonempty(s.skip(1), d);
    }
}

/// ASCII decimal digit.
pub open spec fn is_digit(b: u8) -> bool {
    48 <= b <= 57
}

/// `s` is one or more ASCII decimal digits and nothing else.
pub open spec fn all_digits(s: Seq<u8>) -> bool {
    s.len() > 0 && forall|i: int| 0 <= i < s.len() ==> is_digit(#[trigger] s[i])
}

/// The value of `s` read as a base-10 numeral.
pub open spec fn dec_value(s: Seq<u8>) -> int
    decreases s.len(),
{
    if s.len() == 0 {
        0
    } else {
        dec_value(s.drop_last()) * 10 + (s.last() - 48)
    }
}

/// A numeral made of digits has a non-negative value.
pub proof fn lemma_dec_value_nonneg(s: Seq<u8>)
    requires
        forall|i: int| 0 <= i < s.len() ==> is_digit(#[trigger] s[i]),
    ensures
        dec_value(s) >= 0,
    decreases s.len(),
{
    if s.len() > 0 {
        lemma_dec_value_nonneg(s.drop_last());
    }
}

/// Reading one more digit multiplies the prefix value by ten and adds it,
/// so a numeral is worth at least any of its prefixes.
pub proof fn lemma_dec_value_prefix(s: Seq<u8>, j: int)
    requires
        0 <= j <= s.len(),
        forall|i: int| 0 <= i < s.len() ==> is_digit(#[trigger] s[i]),
    ensures
        dec_value(s.take(j)) <= dec_value(s),
    decreases s.len() - j,
{
    if j == s.len() {
        assert(s.take(j) =~= s);
    } else {
        lemma_dec_value_prefix(s, j + 1);
        assert(s.take(j + 1).drop_last() =~= s.take(j));
        assert(s.take(j + 1).last() == s[j]);
        lemma_dec_value_nonneg(s.take(j));
    }
}

/// Whether `b` is ASCII whitespace.
pub fn is_space_byte(b: u8) -> (r: bool)
    ensures
        r == is_space(b),
{
    b == 32 || b == 9 || b == 10 || b == 13
}

/// `v` with leading and trailing ASCII whitespace removed.
pub fn trim_bytes(v: &Vec<u8>) -> (r: Vec<u8>)
    ensures
        r@ == trimmed(v@),
{
    let mut lo: usize = 0;
    let mut hi: usize = v.len();
    proof {
        assert(v@.subrange(0, v@.len() as int) =~= v@);
    }
    while lo < hi && is_space_byte(v[lo])
        invariant
            0 <= lo <= hi <= v@.len(),
            trimmed(v@) == trimmed(v@.subrange(lo as int, hi as int)),
        decreases hi - lo,
    {
        proof {
            let s = v@.subrange(lo as int, hi as int);
            assert(s.skip(1) =~= v@.subrange(lo as int + 1, hi as int));
        }
        lo = lo + 1;
    }
    while lo < hi && is_space_byte(v[hi - 1])
        invariant
            0 <= lo <= hi <= v@.len(),
            trimmed(v@) == trimmed(v@.subrange(lo as int, hi as int)),
            lo < hi ==> !is_space(v@[lo as int]),
        decreases hi - lo,
    {
        proof {
            let s = v@.subrange(lo as int, hi as int);
            assert(s.take(s.len() - 1) =~= v@.subrange(lo as int, hi as int - 1));
        }
        hi = hi - 1;
    }
    let mut r: Vec<u8> = Vec::new();
    let mut i: usize = lo;
    while i < hi
        invariant
            lo <= i <= hi <= v@.len(),
            r@ == v@.subrange(lo as int, i as int),
        decreases hi - i,
    {
        r.push(v[i]);
        proof {
            assert(v@.subrange(lo as int, i + 1) =~= v@.subrange(lo as int, i as int).push(
                v@[i as int],
            ));
        }
        i = i + 1;
    }
    proof {
        let s = v@.subrange(lo as int, hi as int);
        assert(r@ =~= s);
        if lo < hi {
            assert(s[0] == v@[lo as int]);
            assert(s[s.len() - 1] == v@[hi as int - 1]);
        }
    }
    r
}

/// Splits `v` into the pieces that stand between occurrences of `d`.
pub fn split_bytes(v: &Vec<u8>, d: u8) -> (r: Vec<Vec<u8>>)
    ensures
        views_of(r@) == split_at(v@, d),
        r@.len() >= 1,
{
    let ghost whole = v@;
    let mut done: Vec<Vec<u8>> = Vec::new();
    let mut cur: Vec<u8> = Vec::new();
    let mut i: usize = 0;
    proof {
        lemma_split_at_nonempty(whole, d);
        assert(whole.skip(0) =~= whole);
        let parts = split_at(whole, d);
        assert(views_of(done@) =~= Seq::<Seq<u8>>::empty());
        assert(cur@ + parts[0] =~= parts[0]);
        assert(views_of(done@) + seq![parts[0]] + parts.skip(1) =~= parts);
    }
    while i < v.len()
        invariant
            0 <= i <= v@.len(),
            v@ == whole,
            split_at(whole, d) == views_of(done@) + seq![
                cur@ + split_at(whole.skip(i as int), d)[0],
            ] + split_at(whole.skip(i as int), d).skip(1),
            split_at(whole.skip(i as int), d).len() >= 1,
        decreases v@.len() - i,
    {
        let b = v[i];
        proof {
            let rest = whole.skip(i as int);
            assert(rest[0] == whole[i as int]);
            assert(rest.skip(1) =~= whole.skip(i + 1));
            lemma_split_at_nonempty(whole.skip(i + 1), d);
        }
        if b == d {
            proof {
                let rest = whole.skip(i as int);
                let next = split_at(whole.skip(i + 1), d);
                assert(split_at(rest, d) == seq![Seq::<u8>::empty()] + next);
                assert(split_at(rest, d)[0] =~= Seq::<u8>::empty());
                assert(cur@ + split_at(rest, d)[0] =~= cur@);
                assert(split_at(rest, d).skip(1) =~= next);
                assert(views_of(done@.push(cur)) =~= views_of(done@).push(cur@));
                assert(views_of(done@.push(cur)) + seq![
                    Seq::<u8>::empty() + next[0],
                ] + next.skip(1) =~= views_of(done@) + seq![cur@ + split_at(rest, d)[0]]
                    + split_at(rest, d).skip(1));
                assert(Seq::<u8>::empty() + next[0] =~= next[0]);
                assert(seq![Seq::<u8>::empty() + next[0]] =~= seq![next[0]]);
            }
            done.push(cur);
            cur = Vec::new();
        } else {
            proof {
                let rest = whole.skip(i as int);
                let next = split_at(whole.skip(i + 1), d);
                assert(split_at(rest, d) == seq![seq![rest[0]] + next[0]] + next.skip(1));
                assert(split_at(rest, d)[0] == seq![rest[0]] + next[0]);
                assert(split_at(rest, d).skip(1) =~= next.skip(1));
                assert(cur@ + (seq![rest[0]] + next[0]) =~= cur@.push(b) + next[0]);
            }
            cur.push(b);
        }
        i = i + 1;
    }
    proof {
        let rest = whole.skip(i as int);
        assert(rest =~= Seq::<u8>::empty());
        assert(split_at(rest, d) == seq![Seq::<u8>::empty()]);
        assert(cur@ + split_at(rest, d)[0] =~= cur@);
        assert(split_at(rest, d).skip(1) =~= Seq::<Seq<u8>>::empty());
        assert(views_of(done@.push(cur)) =~= views_of(done@).push(cur@));
        assert(views_of(done@) + seq![cur@] + Seq::<Seq<u8>>::empty() =~= views_of(
            done@.push(cur),
        ));
    }
    done.push(cur);
    done
}

/// Parses `v` as a non-negative base-10 numeral. Returns `Err` exactly when
/// `v` is empty, holds a non-digit byte, or names a value above `usize::MAX`.
pub fn parse_decimal(v: &Vec<u8>) -> (r: Result<usize, ()>)
    ensures
        match r {
            Ok(n) => all_digits(v@) && n == dec_value(v@),
            Err(_) => !all_digits(v@) || dec_value(v@) > usize::MAX,
        },
{
    if v.len() == 0 {
        return Err(());
    }
    let mut acc: usize = 0;
    let mut i: usize = 0;
    while i < v.len()
        invariant
            0 <= i <= v@.len(),
            forall|j: int| 0 <= j < i ==> is_digit(#[trigger] v@[j]),
            acc == dec_value(v@.take(i as int)),
        decreases v@.len() - i,
    {
        let b = v[i];
        if !(48 <= b && b <= 57) {
            proof {
                assert(!is_digit(v@[i as int]));
            }
            return Err(());
        }
        let d: usize = (b - 48) as usize;
        proof {
            assert(v@.take(i + 1).drop_last() =~= v@.take(i as int));
            assert(v@.take(i + 1).last() == v@[i as int]);
        }
        if acc > (usize::MAX - d) / 10 {
            proof {
                vstd::arithmetic::div_mod::lemma_fundamental_div_mod(
                    (usize::MAX - d) as int,
                    10,
                );
                assert(acc * 10 + d > usize::MAX);
                if all_digits(v@) {
                    lemma_dec_value_prefix(v@, i + 1);
                }
            }
            return Err(());
        }
        proof {
            vstd::arithmetic::div_mod::lemma_fundamental_div_mod((usize::MAX - d) as int, 10);
            assert(acc * 10 + d <= usize::MAX);
        }
        acc = acc * 10 + d;
        i = i + 1;
    }
    proof {
        assert(v@.take(i as int) =~= v@);
    }
    Ok(acc)
}

} // verus!
