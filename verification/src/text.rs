//! Splitting text on a separator and reading decimal numbers, byte-wise on
//! UTF-8 text (the separators are ASCII, so they never occur inside a
//! multi-byte character).

use vstd::prelude::*;

verus! {

/// The pieces of `b` between occurrences of `sep`, as `str::split` yields
/// them: one piece for text without `sep`, an empty piece at either end
/// when `sep` starts or ends the text.
pub open spec fn split_on(b: Seq<u8>, sep: u8) -> Seq<Seq<u8>>
    decreases b.len(),
{
    if b.len() == 0 {
        seq![Seq::<u8>::empty()]
    } else {
        let p = split_on(b.drop_last(), sep);
        if b.last() == sep {
            p.push(Seq::<u8>::empty())
        } else {
            p.update(p.len() - 1, p.last().push(b.last()))
        }
    }
}

/// Whether `c` is an ASCII decimal digit.
pub open spec fn is_digit(c: u8) -> bool {
    48 <= c <= 57
}

/// The value of a string of decimal digits.
pub open spec fn digits_value(d: Seq<u8>) -> nat
    decreases d.len(),
{
    if d.len() == 0 {
        0
    } else {
        digits_value(d.drop_last()) * 10 + (d.last() - 48) as nat
    }
}

/// Whether every byte of `d` is a decimal digit.
pub open spec fn all_digits(d: Seq<u8>) -> bool {
    forall|i: int| 0 <= i < d.len() ==> is_digit(#[trigger] d[i])
}

/// The digits of an unsigned number: the text without a leading `+`.
pub open spec fn unsigned_digits(b: Seq<u8>) -> Seq<u8> {
    if b.len() > 0 && b[0] == 43 {
        b.drop_first()
    } else {
        b
    }
}

/// What `usize::from_str` accepts: an optional `+`, then one or more decimal
/// digits whose value fits in a `usize`.
pub open spec fn parse_usize_spec(b: Seq<u8>) -> Option<nat> {
    if b.len() == 0 || (b.len() == 1 && (b[0] == 43 || b[0] == 45)) {
        None
    } else {
        let d = unsigned_digits(b);
        if all_digits(d) && digits_value(d) <= usize::MAX {
            Some(digits_value(d))
        } else {
            None
        }
    }
}

/// Splitting always yields at least one piece.
pub proof fn lemma_split_nonempty(b: Seq<u8>, sep: u8)
    ensures
        split_on(b, sep).len() >= 1,
    decreases b.len(),
{
    if b.len() > 0 {
        lemma_split_nonempty(b.drop_last(), sep);
    }
}

/// Text without the separator is one piece, followed text without the
/// separator extends the last piece.
pub proof fn lemma_split_append(p: Seq<u8>, y: Seq<u8>, sep: u8)
    requires
        forall|i: int| 0 <= i < y.len() ==> y[i] != sep,
    ensures
        split_on(p + y, sep) == split_on(p, sep).update(
            split_on(p, sep).len() - 1,
            split_on(p, sep).last() + y,
        ),
    decreases y.len(),
{
    lemma_split_nonempty(p, sep);
    if y.len() == 0 {
        assert(p + y =~= p);
        assert(split_on(p, sep).last() + y =~= split_on(p, sep).last());
        assert(split_on(p, sep).update(split_on(p, sep).len() - 1, split_on(p, sep).last())
            =~= split_on(p, sep));
    } else {
        let y0 = y.drop_last();
        lemma_split_append(p, y0, sep);
        assert((p + y).drop_last() =~= p + y0);
        assert((p + y).last() == y.last());
        assert((split_on(p, sep).last() + y0).push(y.last()) =~= split_on(p, sep).last() + y);
        let a = split_on(p + y0, sep);
        let b = split_on(p, sep);
        assert(a.update(a.len() - 1, a.last().push(y.last())) =~= b.update(
            b.len() - 1,
            b.last() + y,
        ));
    }
}

/// Text that a `usize` reading accepts holds no comma.
pub proof fn lemma_number_has_no_comma(x: Seq<u8>)
    requires
        parse_usize_spec(x) is Some,
    ensures
        forall|i: int| 0 <= i < x.len() ==> x[i] != 44,
{
    let d = unsigned_digits(x);
    assert forall|i: int| 0 <= i < x.len() implies x[i] != 44 by {
        if x[0] == 43 {
            if i > 0 {
                assert(x[i] == d[i - 1]);
                assert(is_digit(d[i - 1]));
            }
        } else {
            assert(x[i] == d[i]);
            assert(is_digit(d[i]));
        }
    }
}

proof fn lemma_value_prefix(d: Seq<u8>, i: int)
    requires
        0 <= i <= d.len(),
    ensures
        digits_value(d.take(i)) <= digits_value(d),
    decreases d.len() - i,
{
    if i < d.len() {
        lemma_value_prefix(d, i + 1);
        assert(d.take(i + 1).drop_last() =~= d.take(i));
    } else {
        assert(d.take(i) =~= d);
    }
}

/// Splits `b` on `sep` (see `split_on`).
pub fn split_bytes(b: &[u8], sep: u8) -> (r: Vec<Vec<u8>>)
    ensures
        r@.len() == split_on(b@, sep).len(),
        r@.len() >= 1,
        forall|k: int| 0 <= k < r@.len() ==> #[trigger] r@[k]@ == split_on(b@, sep)[k],
{
    let mut r: Vec<Vec<u8>> = Vec::new();
    r.push(Vec::new());
    let mut i: usize = 0;
    proof {
        assert(b@.take(0) =~= Seq::<u8>::empty());
    }
    while i < b.len()
        invariant
            i <= b@.len(),
            r@.len() == split_on(b@.take(i as int), sep).len(),
            r@.len() >= 1,
            forall|k: int|
                0 <= k < r@.len() ==> #[trigger] r@[k]@ == split_on(b@.take(i as int), sep)[k],
        decreases b@.len() - i,
    {
        proof {
            assert(b@.take(i + 1).drop_last() =~= b@.take(i as int));
        }
        if b[i] == sep {
            r.push(Vec::new());
        } else {
            let last = r.len() - 1;
            let mut piece = r.remove(last);
            piece.push(b[i]);
            r.push(piece);
        }
        i = i + 1;
        proof {
            lemma_split_nonempty(b@.take(i as int), sep);
            assert forall|k: int| 0 <= k < r@.len() implies #[trigger] r@[k]@ == split_on(
                b@.take(i as int),
                sep,
            )[k] by {}
        }
    }
    proof {
        assert(b@.take(i as int) =~= b@);
    }
    r
}

/// Reads a `usize` as `usize::from_str` does: `None` exactly where it
/// reports an error.
pub fn parse_usize(b: &[u8]) -> (r: Option<usize>)
    ensures
        match parse_usize_spec(b@) {
            Some(v) => r == Some(v as usize),
            None => r is None,
        },
{
    let n = b.len();
    if n == 0 || (n == 1 && (b[0] == 43 || b[0] == 45)) {
        return None;
    }
    let start: usize = if b[0] == 43 {
        1
    } else {
        0
    };
    let ghost d = unsigned_digits(b@);
    proof {
        assert(d =~= b@.subrange(start as int, n as int));
    }
    let mut value: usize = 0;
    let mut i: usize = start;
    while i < n
        invariant
            start <= i <= n,
            n == b@.len(),
            d == b@.subrange(start as int, n as int),
            n > 0,
            !(n == 1 && (b@[0] == 43 || b@[0] == 45)),
            d == unsigned_digits(b@),
            forall|k: int| 0 <= k < i - start ==> is_digit(#[trigger] d[k]),
            value == digits_value(d.take(i - start)),
        decreases n - i,
    {
        let c = b[i];
        if c < 48 || c > 57 {
            proof {
                assert(d[i - start] == c);
                assert(!is_digit(d[i - start]));
            }
            return None;
        }
        proof {
            assert(d.take(i - start + 1).drop_last() =~= d.take(i - start));
            assert(d[i - start] == c);
        }
        let digit = (c - 48) as usize;
        proof {
            assert(digits_value(d.take(i - start + 1)) == value * 10 + digit);
        }
        match value.checked_mul(10) {
            Some(tens) => match tens.checked_add(digit) {
                Some(v) => {
                    value = v;
                },
                None => {
                    proof {
                        lemma_value_prefix(d, i - start + 1);
                    }
                    return None;
                },
            },
            None => {
                proof {
                    lemma_value_prefix(d, i - start + 1);
                }
                return None;
            },
        }
        i = i + 1;
    }
    proof {
        assert(d.take(n - start) =~= d);
    }
    Some(value)
}

} // verus!
