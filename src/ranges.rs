use vstd::prelude::*;
use vstd::arithmetic::div_mod::{lemma_fundamental_div_mod, lemma_fundamental_div_mod_converse};
use vstd::arithmetic::mul::lemma_mul_inequality;

verus! {

/// Number of messages fetched over one connection.
pub const BATCH_SIZE: u32 = 10;

/// A contiguous, inclusive span of message ids.
#[derive(Clone, Copy, Debug, PartialEq, Eq, Structural)]
pub struct FetchRange {
    pub start: u32,
    pub end: u32,
}

impl FetchRange {
    /// Number of ids the range covers.
    pub open spec fn size(self) -> int {
        self.end - self.start + 1
    }
}

/// Number of batches needed to cover `total` ids: the ceiling of `total / batch`.
pub open spec fn range_count(total: nat, batch: nat) -> nat
    recommends
        batch > 0,
{
    ((total + batch - 1) / (batch as int)) as nat
}

/// The `i`-th batch of `[1, total]`: ids `i * batch + 1` up to `(i + 1) * batch`,
/// cut off at `total`.
pub open spec fn nth_range(total: nat, batch: nat, i: int) -> FetchRange {
    let hi = (i + 1) * batch;
    FetchRange {
        start: (i * batch + 1) as u32,
        end: (if hi < total { hi } else { total as int }) as u32,
    }
}

/// The batches of `[1, total]`, in ascending order.
pub open spec fn spec_ranges(total: nat, batch: nat) -> Seq<FetchRange> {
    Seq::new(range_count(total, batch), |i: int| nth_range(total, batch, i))
}

proof fn lemma_count_exact(total: nat, batch: nat, i: int)
    requires
        batch > 0,
        0 <= i,
        (i - 1) * batch < total,
        total <= i * batch,
    ensures
        range_count(total, batch) == i,
{
    let r = total + batch - 1 - i * batch;
    assert(total + batch - 1 == i * batch + r);
    assert((i - 1) * batch == i * batch - batch) by (nonlinear_arith);
    lemma_fundamental_div_mod_converse(total + batch - 1, batch as int, i, r);
}

/// Splits `[1, total]` into ascending batches of at most `batch` ids each.
pub fn batch_ranges(total: u32, batch: u32) -> (r: Vec<FetchRange>)
    requires
        batch > 0,
    ensures
        r@ == spec_ranges(total as nat, batch as nat),
{
    let mut v: Vec<FetchRange> = Vec::new();
    let mut start: u64 = 1;
    assert(v.len() * batch == 0 && (v.len() as int - 1) * batch == -batch) by (nonlinear_arith)
        requires
            v.len() == 0,
    ;
    while start <= total as u64
        invariant
            batch > 0,
            start == v.len() * batch + 1,
            start <= total as int + batch + 1,
            (v.len() as int - 1) * batch < total,
            forall|j: int| 0 <= j < v.len() ==> v@[j] == nth_range(total as nat, batch as nat, j),
        decreases total + batch + 1 - start,
    {
        let ghost i = v.len();
        let candidate: u64 = start + batch as u64 - 1;
        let end: u64 = if candidate < total as u64 { candidate } else { total as u64 };
        proof {
            assert((i + 1) * batch == i * batch + batch) by (nonlinear_arith);
        }
        v.push(FetchRange { start: start as u32, end: end as u32 });
        start = start + batch as u64;
    }
    proof {
        if v.len() == 0 {
            assert(total == 0);
        }
        assert(total <= v.len() * batch);
        lemma_count_exact(total as nat, batch as nat, v.len() as int);
    }
    assert(v@ =~= spec_ranges(total as nat, batch as nat));
    v
}

/// The batches of `[1, total]` partition it: the first starts at 1, each next one
/// starts right after the previous one ends, the last ends at `total`; every batch
/// holds between 1 and `batch` ids; there are `ceil(total / batch)` of them, and the
/// last holds `total % batch` ids, or `batch` when `batch` divides `total`.
pub proof fn lemma_ranges_partition(total: u32, batch: u32)
    requires
        batch > 0,
    ensures
        ({
            let rs = spec_ranges(total as nat, batch as nat);
            &&& rs.len() * batch >= total
            &&& (rs.len() - 1) * batch < total
            &&& total == 0 <==> rs.len() == 0
            &&& total > 0 ==> rs[0].start == 1 && rs.last().end == total
            &&& total > 0 ==> rs.last().size() == (if total % batch == 0 {
                batch as int
            } else {
                (total % batch) as int
            })
            &&& forall|i: int| 0 <= i < rs.len() ==> 1 <= #[trigger] rs[i].size() <= batch
            &&& forall|i: int|
                0 <= i < rs.len() - 1 ==> #[trigger] rs[i + 1].start == rs[i].end + 1
        }),
{
    let rs = spec_ranges(total as nat, batch as nat);
    let b = batch as int;
    let t = total as int;
    let c = rs.len() as int;
    lemma_fundamental_div_mod(t + b - 1, b);
    let r = (t + b - 1) % b;
    assert(t + b - 1 == b * c + r);
    assert(b * c == c * b && (c - 1) * b == c * b - b) by (nonlinear_arith);
    assert(c * b >= t);
    assert((c - 1) * b < t);
    assert forall|i: int| 0 <= i < c implies 1 <= #[trigger] rs[i].size() <= b by {
        lemma_mul_inequality(i, c - 1, b);
        assert((i + 1) * b == i * b + b) by (nonlinear_arith);
    }
    assert forall|i: int| 0 <= i < c - 1 implies #[trigger] rs[i + 1].start == rs[i].end + 1 by {
        lemma_mul_inequality(i + 1, c - 1, b);
        assert((i + 1) * b == i * b + b) by (nonlinear_arith);
    }
    if t == 0 {
        assert(c == 0) by (nonlinear_arith)
            requires
                c * b >= t,
                (c - 1) * b < t,
                t == 0,
                b > 0,
        ;
    }
    if t > 0 {
        assert(c > 0) by (nonlinear_arith)
            requires
                c * b >= t,
                t > 0,
                b > 0,
        ;
        assert(0 * b == 0) by (nonlinear_arith);
        let s = t - (c - 1) * b;
        assert(rs.last() == rs[c - 1]);
        assert(rs.last().size() == s);
        if s < b {
            lemma_fundamental_div_mod_converse(t, b, c - 1, s);
        } else {
            lemma_fundamental_div_mod_converse(t, b, c, 0);
        }
    }
}

} // verus!
