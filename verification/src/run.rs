//! The batched runner: splits a file list into size-bounded consecutive
//! batches, and combines per-batch results by bitwise-OR over exit codes and
//! concatenation of output bytes.

use vstd::prelude::*;
use crate::config::clone_strings;

verus! {

/// Bitwise-OR fold over a sequence of exit codes; `0` for the empty sequence.
pub open spec fn or_all(codes: Seq<i32>) -> i32
    decreases codes.len(),
{
    if codes.len() == 0 {
        0
    } else {
        or_all(codes.drop_last()) | codes.last()
    }
}

proof fn lemma_or_zero(a: i32)
    ensures
        a | 0 == a,
        0 | a == a,
{
    assert(a | 0 == a) by (bit_vector);
    assert(0 | a == a) by (bit_vector);
}

proof fn lemma_or_assoc(a: i32, b: i32, c: i32)
    ensures
        (a | b) | c == a | (b | c),
{
    assert((a | b) | c == a | (b | c)) by (bit_vector);
}

/// Splitting an exit-code sequence anywhere and combining the two halves
/// yields the same combined code as combining the whole sequence.
pub proof fn lemma_or_all_split(codes: Seq<i32>, i: int)
    requires
        0 <= i <= codes.len(),
    ensures
        or_all(codes) == or_all(codes.take(i)) | or_all(codes.skip(i)),
    decreases codes.len() - i,
{
    if i == codes.len() {
        assert(codes.take(i) =~= codes);
        assert(codes.skip(i) =~= Seq::<i32>::empty());
        lemma_or_zero(or_all(codes));
    } else {
        lemma_or_all_split(codes, i + 1);
        assert(codes.take(i + 1).drop_last() =~= codes.take(i));
        assert(codes.take(i + 1).last() == codes[i]);
        let rest = codes.skip(i);
        assert(rest.len() > 0);
        assert(codes.skip(i + 1) =~= rest.skip(1));
        assert(rest =~= seq![rest[0]] + rest.skip(1));
        lemma_or_all_cons(rest[0], rest.skip(1));
        lemma_or_assoc(or_all(codes.take(i)), codes[i], or_all(rest.skip(1)));
        assert(rest[0] == codes[i]);
    }
}

/// Prepending one code OR-combines it in front.
proof fn lemma_or_all_cons(c: i32, rest: Seq<i32>)
    ensures
        or_all(seq![c] + rest) == c | or_all(rest),
    decreases rest.len(),
{
    if rest.len() == 0 {
        assert(seq![c] + rest =~= seq![c]);
        assert(seq![c].drop_last() =~= Seq::<i32>::empty());
        assert(seq![c].last() == c);
        assert(or_all(seq![c]) == or_all(seq![c].drop_last()) | c);
        lemma_or_zero(c);
        assert(or_all(rest) == 0);
    } else {
        assert((seq![c] + rest).drop_last() =~= seq![c] + rest.drop_last());
        lemma_or_all_cons(c, rest.drop_last());
        lemma_or_assoc(c, or_all(rest.drop_last()), rest.last());
        assert((seq![c] + rest).last() == rest.last());
    }
}

proof fn lemma_or_comm(a: i32, b: i32)
    ensures
        a | b == b | a,
{
    assert(a | b == b | a) by (bit_vector);
}

/// Combining a concatenation equals OR of the parts' combinations.
pub proof fn lemma_or_all_concat(a: Seq<i32>, b: Seq<i32>)
    ensures
        or_all(a + b) == or_all(a) | or_all(b),
{
    lemma_or_all_split(a + b, a.len() as int);
    assert((a + b).take(a.len() as int) =~= a);
    assert((a + b).skip(a.len() as int) =~= b);
}

/// Exit-code combination is order-insensitive: two runs of batch results
/// combine to the same code in either order.
pub proof fn lemma_or_all_commutes(a: Seq<i32>, b: Seq<i32>)
    ensures
        or_all(a + b) == or_all(b + a),
{
    lemma_or_all_concat(a, b);
    lemma_or_all_concat(b, a);
    lemma_or_comm(or_all(a), or_all(b));
}

/// Batch combination is associative: OR-combining per-batch codes that are
/// themselves OR-combinations of their elements equals OR-combining the
/// flat element sequence, whatever the batch boundaries.
pub proof fn lemma_or_all_grouped(groups: Seq<Seq<i32>>)
    ensures
        or_all(groups.map_values(|g: Seq<i32>| or_all(g))) == or_all(groups.flatten()),
    decreases groups.len(),
{
    let f = |g: Seq<i32>| or_all(g);
    groups.lemma_flatten_and_flatten_alt_are_equivalent();
    if groups.len() == 0 {
        assert(groups.map_values(f) =~= Seq::<i32>::empty());
    } else {
        let rest = groups.drop_last();
        rest.lemma_flatten_and_flatten_alt_are_equivalent();
        lemma_or_all_grouped(rest);
        assert(groups.map_values(f).drop_last() =~= rest.map_values(f));
        assert(groups.map_values(f).last() == or_all(groups.last()));
        lemma_or_all_concat(rest.flatten_alt(), groups.last());
        assert(groups.flatten_alt() == rest.flatten_alt() + groups.last());
    }
}

/// Codes that are all zero combine to zero.
proof fn lemma_or_all_zero(codes: Seq<i32>)
    requires
        forall|k: int| 0 <= k < codes.len() ==> codes[k] == 0,
    ensures
        or_all(codes) == 0,
    decreases codes.len(),
{
    if codes.len() > 0 {
        lemma_or_all_zero(codes.drop_last());
        lemma_or_zero(0);
    }
}

/// A single batch with a nonzero code among otherwise-zero batches
/// propagates: the combined code equals that batch's code.
pub proof fn lemma_or_all_single_nonzero(codes: Seq<i32>, j: int)
    requires
        0 <= j < codes.len(),
        forall|k: int| 0 <= k < codes.len() && k != j ==> codes[k] == 0,
    ensures
        or_all(codes) == codes[j],
    decreases codes.len(),
{
    if j == codes.len() - 1 {
        lemma_or_all_zero(codes.drop_last());
        lemma_or_zero(codes[j]);
    } else {
        assert(codes.drop_last()[j] == codes[j]);
        lemma_or_all_single_nonzero(codes.drop_last(), j);
        lemma_or_zero(or_all(codes.drop_last()));
    }
}

/// The exit codes of a batch-result sequence.
pub open spec fn codes_of(results: Seq<(i32, Seq<u8>)>) -> Seq<i32> {
    results.map_values(|p: (i32, Seq<u8>)| p.0)
}

/// The concatenation of the batches' output bytes, in result order.
pub open spec fn outputs_of(results: Seq<(i32, Seq<u8>)>) -> Seq<u8>
    decreases results.len(),
{
    if results.len() == 0 {
        Seq::empty()
    } else {
        outputs_of(results.drop_last()) + results.last().1
    }
}

/// Splits the file list into consecutive batches of at most
/// `max_per_batch` files each: every batch but the last is full, and
/// together they cover the list in order. The budget is a parameter, never
/// one platform's hard-coded limit.
pub fn partition(filenames: &Vec<String>, max_per_batch: usize) -> (r: Vec<Vec<String>>)
    requires
        max_per_batch > 0,
    ensures
        filenames@.len() == 0 ==> r@.len() == 0,
        filenames@.len() > 0 ==> (r@.len() - 1) * (max_per_batch as int) < filenames@.len()
            <= r@.len() * (max_per_batch as int),
        forall|k: int| 0 <= k < r@.len() ==> #[trigger] r@[k].deep_view()
            == filenames.deep_view().subrange(
            k * (max_per_batch as int),
            if (k + 1) * (max_per_batch as int) <= filenames@.len() {
                (k + 1) * (max_per_batch as int)
            } else {
                filenames@.len() as int
            },
        ),
{
    let n = filenames.len();
    let ghost cap = max_per_batch as int;
    let ghost fv = filenames.deep_view();
    let mut r: Vec<Vec<String>> = Vec::new();
    let mut i: usize = 0;
    proof {
        assert(r@.len() == 0);
        assert(0 * cap == 0) by (nonlinear_arith);
    }
    while i < n
        invariant
            max_per_batch > 0,
            cap == max_per_batch as int,
            n == filenames@.len(),
            fv == filenames.deep_view(),
            fv.len() == n,
            0 <= i <= n,
            i < n ==> i == r@.len() * cap,
            i == n ==> (n == 0 && r@.len() == 0) || (n > 0 && (r@.len() - 1) * cap < n
                <= r@.len() * cap),
            forall|k: int| 0 <= k < r@.len() ==> #[trigger] r@[k].deep_view() == fv.subrange(
                k * cap,
                if (k + 1) * cap <= n { (k + 1) * cap } else { n as int },
            ),
        decreases n - i,
    {
        let remaining = n - i;
        let m = if remaining < max_per_batch {
            remaining
        } else {
            max_per_batch
        };
        let mut batch: Vec<String> = Vec::new();
        let mut j: usize = 0;
        while j < m
            invariant
                0 <= j <= m,
                i + m <= n,
                fv == filenames.deep_view(),
                fv.len() == n,
                n == filenames@.len(),
                batch@.len() == j,
                forall|jj: int| 0 <= jj < j ==> batch@[jj] == filenames@[i + jj],
            decreases m - j,
        {
            batch.push(filenames[i + j].clone());
            j += 1;
        }
        proof {
            assert(batch.deep_view() =~= fv.subrange(i as int, i + m));
        }
        let ghost len0 = r@.len();
        r.push(batch);
        i += m;
        proof {
            assert(r@.len() == len0 + 1);
            assert((len0 + 1) * cap == len0 * cap + cap) by (nonlinear_arith);
            assert forall|k: int| 0 <= k < r@.len() implies #[trigger] r@[k].deep_view()
                == fv.subrange(
                k * cap,
                if (k + 1) * cap <= n { (k + 1) * cap } else { n as int },
            ) by {
                if k < len0 {
                } else {
                    assert(r@[k] == batch);
                }
            }
        }
    }
    proof {
        if n == 0 {
            assert(r@.len() == 0);
        }
    }
    r
}

/// Combines per-batch results as the batched runner reports them: the final
/// exit code is the bitwise-OR across all batch exit codes, so a nonzero
/// bit from any batch is never masked; the final output is the batches'
/// output bytes concatenated in result order.
pub fn combine_results(results: &Vec<(i32, Vec<u8>)>) -> (r: (i32, Vec<u8>))
    ensures
        r.0 == or_all(codes_of(results.deep_view())),
        r.1@ == outputs_of(results.deep_view()),
{
    let ghost rv = results.deep_view();
    let mut code: i32 = 0;
    let mut out: Vec<u8> = Vec::new();
    let mut i: usize = 0;
    proof {
        assert(rv.take(0) =~= Seq::<(i32, Seq<u8>)>::empty());
        assert(codes_of(rv.take(0)) =~= Seq::<i32>::empty());
    }
    while i < results.len()
        invariant
            0 <= i <= results@.len(),
            rv == results.deep_view(),
            rv.len() == results@.len(),
            code == or_all(codes_of(rv.take(i as int))),
            out@ == outputs_of(rv.take(i as int)),
        decreases results@.len() - i,
    {
        code = code | results[i].0;
        let bytes = &results[i].1;
        let ghost out0 = out@;
        let mut j: usize = 0;
        while j < bytes.len()
            invariant
                0 <= j <= bytes@.len(),
                out@ == out0 + bytes@.take(j as int),
            decreases bytes@.len() - j,
        {
            out.push(bytes[j]);
            proof {
                assert(out0 + bytes@.take(j as int + 1) =~= (out0 + bytes@.take(j as int)).push(
                    bytes@[j as int],
                ));
            }
            j += 1;
        }
        proof {
            let prefix = rv.take(i as int);
            let prefix2 = rv.take(i as int + 1);
            assert(prefix2.drop_last() =~= prefix);
            assert(prefix2.last() == rv[i as int]);
            assert(codes_of(prefix2).drop_last() =~= codes_of(prefix));
            assert(codes_of(prefix2).last() == rv[i as int].0);
            assert(rv[i as int].0 == results@[i as int].0);
            assert(rv[i as int].1 =~= results@[i as int].1@);
            assert(bytes@.take(bytes@.len() as int) =~= bytes@);
            assert(out@ == outputs_of(prefix2));
        }
        i += 1;
    }
    proof {
        assert(rv.take(rv.len() as int) =~= rv);
    }
    (code, out)
}

} // verus!
