use vstd::prelude::*;
use vstd::arithmetic::div_mod::{lemma_fundamental_div_mod, lemma_fundamental_div_mod_converse};
use crate::schema::string_views;

verus! {

/// The number of images sent to the service in one request.
pub const BATCH_SIZE: usize = 16;

/// `s` cut, front to back, into contiguous runs of `b` elements; the last run
/// holds what is left and may be shorter. An empty `s` gives no runs.
pub open spec fn chunks<A>(s: Seq<A>, b: nat) -> Seq<Seq<A>>
    decreases s.len(),
{
    if s.len() == 0 || b == 0 {
        Seq::empty()
    } else if s.len() <= b {
        seq![s]
    } else {
        seq![s.take(b as int)] + chunks(s.skip(b as int), b)
    }
}

/// The views of a sequence of batches of strings.
pub open spec fn batch_views(r: Seq<Vec<String>>) -> Seq<Seq<Seq<char>>> {
    r.map_values(|v: Vec<String>| string_views(v@))
}

/// Joining the batches back together, in order, gives the original sequence.
pub proof fn lemma_chunks_concat<A>(s: Seq<A>, b: nat)
    requires
        b > 0,
    ensures
        chunks(s, b).flatten() == s,
    decreases s.len(),
{
    if s.len() == 0 {
    } else if s.len() <= b {
        seq![s].lemma_flatten_one_element();
    } else {
        lemma_chunks_concat(s.skip(b as int), b);
        let c = chunks(s, b);
        assert(c.drop_first() =~= chunks(s.skip(b as int), b));
        assert(s.take(b as int) + s.skip(b as int) =~= s);
    }
}

/// There are ⌈L/B⌉ batches; each but the last holds B elements, and the last
/// holds L mod B, or B where B divides L.
pub proof fn lemma_chunks_shape<A>(s: Seq<A>, b: nat)
    requires
        b > 0,
    ensures
        chunks(s, b).len() == (s.len() + b - 1) / b as int,
        forall|i: int| 0 <= i < chunks(s, b).len() - 1 ==> (#[trigger] chunks(s, b)[i]).len() == b,
        s.len() > 0 ==> chunks(s, b).last().len() == (if s.len() % b == 0 {
            b
        } else {
            s.len() % b
        }),
    decreases s.len(),
{
    let l = s.len() as int;
    let bi = b as int;
    if l == 0 {
        assert((bi - 1) / bi == 0) by {
            lemma_fundamental_div_mod_converse(bi - 1, bi, 0, bi - 1);
        }
    } else if l <= bi {
        lemma_fundamental_div_mod_converse(l + bi - 1, bi, 1, l - 1);
        if l == bi {
            lemma_fundamental_div_mod_converse(l, bi, 1, 0);
        } else {
            lemma_fundamental_div_mod_converse(l, bi, 0, l);
        }
    } else {
        let t = s.skip(bi);
        lemma_chunks_shape(t, b);
        let c = chunks(s, b);
        assert(c.drop_first() =~= chunks(t, b));
        let q = (l - 1) / bi;
        let r = (l - 1) % bi;
        lemma_fundamental_div_mod(l - 1, bi);
        assert((q + 1) * bi == q * bi + bi) by (nonlinear_arith);
        lemma_fundamental_div_mod_converse(l + bi - 1, bi, q + 1, r);
        let q2 = (l - bi) / bi;
        let r2 = (l - bi) % bi;
        lemma_fundamental_div_mod(l - bi, bi);
        assert((q2 + 1) * bi == q2 * bi + bi) by (nonlinear_arith);
        lemma_fundamental_div_mod_converse(l, bi, q2 + 1, r2);
        assert forall|i: int| 0 <= i < c.len() - 1 implies (#[trigger] c[i]).len() == b by {
            if i > 0 {
                assert(c[i] == chunks(t, b)[i - 1]);
            }
        }
    }
}

/// Splits `items` into consecutive batches of `size` elements, in order; the
/// last batch holds what is left over.
pub fn batches(items: &Vec<String>, size: usize) -> (r: Vec<Vec<String>>)
    requires
        size > 0,
    ensures
        batch_views(r@) == chunks(string_views(items@), size as nat),
{
    let ghost sv = string_views(items@);
    let n = items.len();
    let mut out: Vec<Vec<String>> = Vec::new();
    let mut start: usize = 0;
    assert(sv.skip(0) =~= sv);
    while start < n
        invariant
            n == items@.len(),
            sv == string_views(items@),
            start <= n,
            size > 0,
            batch_views(out@) + chunks(sv.skip(start as int), size as nat) == chunks(
                sv,
                size as nat,
            ),
        decreases n - start,
    {
        let end: usize = if n - start <= size {
            n
        } else {
            start + size
        };
        let mut batch: Vec<String> = Vec::new();
        let mut j: usize = start;
        while j < end
            invariant
                n == items@.len(),
                sv == string_views(items@),
                start <= j <= end <= n,
                string_views(batch@) =~= sv.subrange(start as int, j as int),
            decreases end - j,
        {
            let ghost before = batch@;
            batch.push(items[j].clone());
            proof {
                assert(string_views(batch@) =~= string_views(before).push(sv[j as int]));
            }
            j += 1;
        }
        let ghost rest = sv.skip(start as int);
        proof {
            if rest.len() <= size {
                assert(rest =~= sv.subrange(start as int, end as int));
                assert(sv.skip(end as int) =~= Seq::<Seq<char>>::empty());
            } else {
                assert(rest.take(size as int) =~= sv.subrange(start as int, end as int));
                assert(rest.skip(size as int) =~= sv.skip(end as int));
            }
        }
        let ghost old_out = out@;
        out.push(batch);
        proof {
            assert(batch_views(out@) =~= batch_views(old_out).push(string_views(batch@)));
            assert(batch_views(out@) + chunks(sv.skip(end as int), size as nat) =~= batch_views(
                old_out,
            ) + chunks(rest, size as nat));
        }
        start = end;
    }
    assert(batch_views(out@) =~= batch_views(out@) + chunks(sv.skip(start as int), size as nat));
    out
}

} // verus!
