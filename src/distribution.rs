//! Empirical distributions over integer samples, and the comparison of a
//! run's distribution against its baseline.
use vstd::prelude::*;

verus! {

/// The sum of the samples.
pub open spec fn seq_sum(s: Seq<u64>) -> int
    decreases s.len(),
{
    if s.len() == 0 {
        0
    } else {
        seq_sum(s.drop_last()) + s.last()
    }
}

/// How many samples are at most `x`.
pub open spec fn count_at_most(s: Seq<u64>, x: u64) -> nat
    decreases s.len(),
{
    if s.len() == 0 {
        0
    } else {
        count_at_most(s.drop_last(), x) + if s.last() <= x { 1nat } else { 0nat }
    }
}

pub open spec fn sorted(s: Seq<u64>) -> bool {
    forall|i: int, j: int| 0 <= i <= j < s.len() ==> s[i] <= s[j]
}

/// Relies on `slice::sort_unstable`: the vector ends up in ascending order and
/// holds the same elements as before.
#[verifier::external_body]
fn sort_ascending(v: &mut Vec<u64>)
    ensures
        sorted(final(v)@),
        final(v)@.to_multiset() == old(v)@.to_multiset(),
{
    v.sort_unstable();
}

/// Which tails a p-value counts.
#[derive(Clone, Copy, Debug, PartialEq, Eq, Structural)]
pub enum Tails {
    One,
    Two,
}

/// A probability as the exact fraction `numerator / denominator`.
#[derive(Clone, Copy, Debug, PartialEq, Eq, Structural)]
pub struct Probability {
    pub numerator: usize,
    pub denominator: usize,
}

/// The change of one mean relative to another, in percent, as the exact
/// fraction `numerator / denominator`.
#[derive(Clone, Copy, Debug, PartialEq, Eq, Structural)]
pub struct PercentDelta {
    pub numerator: i128,
    pub denominator: u128,
}

/// The largest cross product `sum * count` of two runs for which the
/// percentage change is computed: a hundred times it still fits in an `i128`.
pub const CROSS_LIMIT: u128 = 1701411834604692317316873037158841057;

/// A statistic that cannot be computed from the given samples.
#[derive(Clone, Copy, Debug, PartialEq, Eq, Structural)]
pub enum StatError {
    /// The baseline mean is zero, so a relative change is undefined.
    UndefinedStatistic,
    /// The exact change does not fit the fraction's integer types.
    Overflow,
    /// A distribution was asked for over no samples.
    EmptySamples,
}

/// The empirical distribution of a non-empty set of samples.
pub struct Distribution {
    samples: Vec<u64>,
    sum: u128,
}

impl Distribution {
    /// The samples in ascending order.
    pub closed spec fn values(&self) -> Seq<u64> {
        self.samples@
    }

    /// The sum of the samples.
    pub closed spec fn total(&self) -> int {
        self.sum as int
    }

    /// A distribution holds at least one sample, in ascending order.
    pub open spec fn wf(&self) -> bool {
        &&& self.values().len() > 0
        &&& sorted(self.values())
        &&& self.total() <= self.values().len() * (u64::MAX as int)
    }

    /// This is the distribution of `s`: the same samples, in ascending order,
    /// with their sum.
    pub open spec fn describes(&self, s: Seq<u64>) -> bool {
        &&& self.wf()
        &&& self.values().to_multiset() == s.to_multiset()
        &&& self.values().len() == s.len()
        &&& self.total() == seq_sum(s)
    }

    pub open spec fn min_spec(&self) -> u64 {
        self.values()[0]
    }

    pub open spec fn max_spec(&self) -> u64 {
        self.values().last()
    }

    /// The distribution of `values`, which must not be empty.
    pub fn from_samples(values: Vec<u64>) -> (r: Self)
        requires
            values@.len() > 0,
        ensures
            r.describes(values@),
    {
        let mut sum: u128 = 0;
        let mut i: usize = 0;
        while i < values.len()
            invariant
                i <= values@.len(),
                sum as int == seq_sum(values@.subrange(0, i as int)),
                sum as int <= i * (u64::MAX as int),
            decreases values@.len() - i,
        {
            proof {
                assert(values@.subrange(0, i + 1).drop_last() =~= values@.subrange(0, i as int));
                assert((i + 1) * (u64::MAX as int) == i * (u64::MAX as int) + u64::MAX) by (nonlinear_arith);
                assert(i * (u64::MAX as int) <= (usize::MAX as int) * (u64::MAX as int)) by (nonlinear_arith)
                    requires i <= usize::MAX;
            }
            sum = sum + values[i] as u128;
            i = i + 1;
        }
        assert(values@.subrange(0, values@.len() as int) =~= values@);
        let mut samples = values;
        sort_ascending(&mut samples);
        proof {
            samples@.to_multiset_ensures();
            values@.to_multiset_ensures();
        }
        Distribution { samples, sum }
    }

    /// The number of samples.
    pub fn len(&self) -> (r: usize)
        ensures
            r == self.values().len(),
    {
        self.samples.len()
    }

    /// The smallest sample.
    pub fn min(&self) -> (r: u64)
        requires
            self.wf(),
        ensures
            r == self.min_spec(),
    {
        self.samples[0]
    }

    /// The largest sample.
    pub fn max(&self) -> (r: u64)
        requires
            self.wf(),
        ensures
            r == self.max_spec(),
    {
        self.samples[self.samples.len() - 1]
    }

    /// The sum of the samples; the mean is exactly `sum() / len()`.
    pub fn sum(&self) -> (r: u128)
        ensures
            r == self.total(),
    {
        self.sum
    }

    /// The samples in ascending order.
    pub fn to_vec(&self) -> (r: Vec<u64>)
        ensures
            r@ == self.values(),
    {
        let mut r: Vec<u64> = Vec::with_capacity(self.samples.len());
        let mut i: usize = 0;
        while i < self.samples.len()
            invariant
                i <= self.samples@.len(),
                r@ == self.samples@.subrange(0, i as int),
            decreases self.samples@.len() - i,
        {
            r.push(self.samples[i]);
            i = i + 1;
            assert(r@ =~= self.samples@.subrange(0, i as int));
        }
        assert(r@ =~= self.samples@);
        r
    }

    /// The p-value of `x`: the share of samples at or below `x` for one tail;
    /// for two tails twice the smaller of that share and its complement.
    pub open spec fn p_value_spec(&self, x: u64, tails: Tails) -> Probability {
        let n = self.values().len();
        let hits = count_at_most(self.values(), x);
        let numerator = match tails {
            Tails::One => hits,
            Tails::Two => 2 * if hits <= n - hits { hits } else { (n - hits) as nat },
        };
        Probability { numerator: numerator as usize, denominator: n as usize }
    }

    /// The p-value of `x` against the samples.
    pub fn p_value(&self, x: u64, tails: Tails) -> (r: Probability)
        requires
            self.wf(),
        ensures
            r == self.p_value_spec(x, tails),
            r.numerator <= r.denominator,
            r.denominator > 0,
    {
        let n = self.samples.len();
        let mut hits: usize = 0;
        let mut i: usize = 0;
        while i < n
            invariant
                n == self.samples@.len(),
                i <= n,
                hits <= i,
                hits == count_at_most(self.samples@.subrange(0, i as int), x),
            decreases n - i,
        {
            assert(self.samples@.subrange(0, i + 1).drop_last() =~= self.samples@.subrange(0, i as int));
            if self.samples[i] <= x {
                hits = hits + 1;
            }
            i = i + 1;
        }
        assert(self.samples@.subrange(0, n as int) =~= self.samples@);
        let numerator = match tails {
            Tails::One => hits,
            Tails::Two => if hits <= n - hits {
                2 * hits
            } else {
                2 * (n - hits)
            },
        };
        Probability { numerator, denominator: n }
    }
}

/// The smallest and largest sample over `a` and, when present, `b`.
pub open spec fn domain_of(a: &Distribution, b: Option<&Distribution>) -> (u64, u64) {
    match b {
        None => (a.min_spec(), a.max_spec()),
        Some(d) => (
            if d.min_spec() < a.min_spec() { d.min_spec() } else { a.min_spec() },
            if d.max_spec() > a.max_spec() { d.max_spec() } else { a.max_spec() },
        ),
    }
}

/// The common range on which `a` and, when present, `b` are drawn.
pub fn combined_domain(a: &Distribution, b: Option<&Distribution>) -> (r: (u64, u64))
    requires
        a.wf(),
        b matches Some(d) ==> d.wf(),
    ensures
        r == domain_of(a, b),
{
    match b {
        None => (a.min(), a.max()),
        Some(d) => {
            let lo = if d.min() < a.min() { d.min() } else { a.min() };
            let hi = if d.max() > a.max() { d.max() } else { a.max() };
            (lo, hi)
        },
    }
}

/// The exact mean of `a` is above that of `b`: compared as
/// `sum(a) / len(a) > sum(b) / len(b)` with both sides multiplied out.
pub open spec fn mean_above(a: &Distribution, b: &Distribution) -> bool {
    a.total() * b.values().len() > b.total() * a.values().len()
}

/// The change from the baseline mean to the current mean, in percent of the
/// baseline mean, as the fraction
/// `100 * (sum(c) * len(b) - sum(b) * len(c)) / (sum(b) * len(c))`;
/// undefined when the baseline mean is zero.
pub open spec fn percent_delta_spec(current: &Distribution, baseline: &Distribution) -> Result<PercentDelta, StatError> {
    let cc = current.total() * baseline.values().len();
    let cb = baseline.total() * current.values().len();
    if baseline.total() == 0 {
        Err(StatError::UndefinedStatistic)
    } else if cc > CROSS_LIMIT || cb > CROSS_LIMIT {
        Err(StatError::Overflow)
    } else {
        Ok(PercentDelta { numerator: (100 * (cc - cb)) as i128, denominator: cb as u128 })
    }
}

proof fn lemma_div_bound(x: int, l: int, n: int)
    requires
        x >= 0,
        l >= 0,
        n > 0,
    ensures
        x > l / n <==> x * n > l,
{
    let q = l / n;
    assert(l == n * q + l % n && 0 <= l % n < n) by (nonlinear_arith)
        requires n > 0, q == l / n;
    if x > q {
        assert(x * n >= (q + 1) * n) by (nonlinear_arith)
            requires x >= q + 1, n > 0;
        assert((q + 1) * n == n * q + n) by (nonlinear_arith);
    } else {
        assert(x * n <= q * n) by (nonlinear_arith)
            requires x <= q, n > 0;
        assert(q * n == n * q) by (nonlinear_arith);
    }
}

/// The percentage change of the current mean against the baseline mean,
/// computed exactly from the sums and counts of both runs.
pub fn percent_delta(current: &Distribution, baseline: &Distribution) -> (r: Result<PercentDelta, StatError>)
    requires
        current.wf(),
        baseline.wf(),
    ensures
        r == percent_delta_spec(current, baseline),
{
    let nb = baseline.samples.len() as u128;
    let nc = current.samples.len() as u128;
    if baseline.sum == 0 {
        return Err(StatError::UndefinedStatistic);
    }
    proof {
        lemma_div_bound(current.sum as int, CROSS_LIMIT as int, nb as int);
        lemma_div_bound(baseline.sum as int, CROSS_LIMIT as int, nc as int);
    }
    if current.sum > CROSS_LIMIT / nb || baseline.sum > CROSS_LIMIT / nc {
        return Err(StatError::Overflow);
    }
    let cc = current.sum * nb;
    let cb = baseline.sum * nc;
    Ok(PercentDelta { numerator: (cc as i128 - cb as i128) * 100, denominator: cb })
}

proof fn lemma_sum_between(s: Seq<u64>, lo: int, hi: int)
    requires
        forall|i: int| 0 <= i < s.len() ==> lo <= #[trigger] s[i] <= hi,
    ensures
        lo * s.len() <= seq_sum(s) <= hi * s.len(),
    decreases s.len(),
{
    if s.len() > 0 {
        let t = s.drop_last();
        assert forall|i: int| 0 <= i < t.len() implies lo <= #[trigger] t[i] <= hi by {
            assert(t[i] == s[i]);
        }
        lemma_sum_between(t, lo, hi);
        let n = t.len() as int;
        assert(lo * (n + 1) == lo * n + lo && hi * (n + 1) == hi * n + hi) by (nonlinear_arith);
    }
}

/// Every sample lies between the minimum and the maximum of its
/// distribution, and the distribution's sum and count are those of the
/// samples, so its mean `sum / len` is their arithmetic mean and lies
/// between the minimum and the maximum.
pub proof fn lemma_samples_within_bounds(values: Seq<u64>, d: &Distribution)
    requires
        values.len() > 0,
        d.describes(values),
    ensures
        forall|i: int| 0 <= i < values.len() ==> d.min_spec() <= #[trigger] values[i] <= d.max_spec(),
        d.total() == seq_sum(values),
        d.values().len() == values.len(),
        d.min_spec() * values.len() <= d.total() <= d.max_spec() * values.len(),
{
    values.to_multiset_ensures();
    d.values().to_multiset_ensures();
    assert forall|i: int| 0 <= i < values.len() implies d.min_spec() <= #[trigger] values[i] <= d.max_spec() by {
        assert(values.contains(values[i]));
        assert(values.to_multiset().count(values[i]) > 0);
        assert(d.values().to_multiset().count(values[i]) > 0);
        assert(d.values().contains(values[i]));
        let j = choose|j: int| 0 <= j < d.values().len() && d.values()[j] == values[i];
        assert(d.values()[0] <= d.values()[j]);
        assert(d.values()[j] <= d.values()[d.values().len() - 1]);
    }
    lemma_sum_between(values, d.min_spec() as int, d.max_spec() as int);
}

/// The percentage change is positive exactly when the current mean is above
/// the baseline mean, negative exactly when it is below, and undefined
/// exactly when the baseline mean is zero.
pub proof fn lemma_percent_delta_sign(current: &Distribution, baseline: &Distribution)
    requires
        current.wf(),
        baseline.wf(),
    ensures
        percent_delta_spec(current, baseline) == Err::<PercentDelta, StatError>(StatError::UndefinedStatistic)
            <==> baseline.total() == 0,
        percent_delta_spec(current, baseline) matches Ok(p) ==> {
            &&& p.denominator > 0
            &&& p.numerator > 0 <==> mean_above(current, baseline)
            &&& p.numerator < 0 <==> mean_above(baseline, current)
        },
{
    let cb = baseline.total() * current.values().len();
    if baseline.total() > 0 {
        assert(cb > 0) by (nonlinear_arith)
            requires baseline.total() > 0, current.values().len() > 0, cb == baseline.total() * current.values().len();
    }
}

} // verus!
