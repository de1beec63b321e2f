use vstd::prelude::*;

verus! {

/// The mean length of an author's messages, in characters, held as the
/// fraction `sum / weight`.
///
/// Keeping the fraction instead of its quotient keeps the mean exact: as long
/// as every message of an author enters the mean, `sum` is the total number of
/// characters and `weight` the number of messages.
#[derive(Clone, Copy, Debug, PartialEq, Eq, Structural)]
pub struct MeanLength {
    pub sum: u128,
    pub weight: u32,
}

impl MeanLength {
    /// The fraction has a denominator, and the mean it stands for is no longer
    /// than a text can be.
    pub open spec fn wf(self) -> bool {
        &&& self.weight >= 1
        &&& self.sum <= self.weight * u64::MAX
    }

    /// The mean is `threshold` characters or more.
    pub open spec fn reaches(self, threshold: u32) -> bool {
        self.sum >= threshold * self.weight
    }

    /// The mean once a message of `length` characters has come in and the
    /// author has `count` messages in all: `(length + (count - 1) * mean) / count`,
    /// as a fraction over `count`.
    ///
    /// Where `count - 1` is the weight of the old mean, the new sum is the old
    /// one plus `length`, and nothing is rounded. Otherwise the old mean is
    /// rescaled to `count - 1` messages, rounding down.
    pub open spec fn extended(self, length: nat, count: u32) -> MeanLength {
        MeanLength {
            sum: (length + ((count - 1) * self.sum) / (self.weight as int)) as u128,
            weight: count,
        }
    }

    /// The mean of a single message of `length` characters.
    pub fn first(length: usize) -> (mean: Self)
        ensures
            mean == (MeanLength { sum: length as u128, weight: 1 }),
            mean.wf(),
    {
        MeanLength { sum: length as u128, weight: 1 }
    }

    /// Whether the mean is `threshold` characters or more.
    pub fn at_least(&self, threshold: u32) -> (b: bool)
        ensures
            b == self.reaches(threshold),
    {
        assert(threshold * self.weight <= u32::MAX * u32::MAX) by (nonlinear_arith)
            requires
                0 <= threshold <= u32::MAX,
                0 <= self.weight <= u32::MAX,
        ;
        self.sum >= (threshold as u128) * (self.weight as u128)
    }

    /// The mean after one more message, see [`MeanLength::extended`].
    pub fn extend(&self, length: usize, count: u32) -> (mean: Self)
        requires
            self.wf(),
            count >= 1,
        ensures
            mean == self.extended(length as nat, count),
            mean.wf(),
    {
        let scale: u128 = (count - 1) as u128;
        let weight: u128 = self.weight as u128;
        proof {
            lemma_rescale(scale as int, self.sum as int, weight as int, u64::MAX as int);
            assert(scale * self.sum <= scale * weight * u64::MAX);
            assert(scale * weight * u64::MAX <= (u32::MAX - 1) * u32::MAX * u64::MAX)
                by (nonlinear_arith)
                requires
                    0 <= scale <= u32::MAX - 1,
                    0 <= weight <= u32::MAX,
            ;
            assert(length + scale * u64::MAX == count * u64::MAX - (u64::MAX - length))
                by (nonlinear_arith)
                requires
                    scale == count - 1,
            ;
        }
        let rescaled: u128 = (scale * self.sum) / weight;
        MeanLength { sum: length as u128 + rescaled, weight: count }
    }
}

/// Rescaling a bounded mean keeps it bounded: where `sum <= weight * bound`,
/// `(scale * sum) / weight <= scale * bound`.
proof fn lemma_rescale(scale: int, sum: int, weight: int, bound: int)
    requires
        0 <= scale,
        0 <= sum <= weight * bound,
        1 <= weight,
        0 <= bound,
    ensures
        scale * sum <= scale * weight * bound,
        (scale * sum) / weight <= scale * bound,
        0 <= (scale * sum) / weight,
{
    assert(scale * sum <= scale * (weight * bound)) by (nonlinear_arith)
        requires
            0 <= scale,
            sum <= weight * bound,
    ;
    assert(scale * (weight * bound) == scale * weight * bound) by (nonlinear_arith);
    assert(scale * weight * bound == (scale * bound) * weight) by (nonlinear_arith);
    assert((scale * sum) / weight <= scale * bound) by (nonlinear_arith)
        requires
            scale * sum <= (scale * bound) * weight,
            1 <= weight,
    ;
    assert(0 <= (scale * sum) / weight) by (nonlinear_arith)
        requires
            0 <= scale * sum,
            1 <= weight,
    ;
    assert(0 <= scale * sum) by (nonlinear_arith)
        requires
            0 <= scale,
            0 <= sum,
    ;
}

/// Taking in one more message keeps a mean well formed.
pub proof fn lemma_extended_wf(mean: MeanLength, length: nat, count: u32)
    requires
        mean.wf(),
        count >= 1,
        length <= usize::MAX,
    ensures
        mean.extended(length, count).wf(),
        mean.extended(length, count).sum == length + ((count - 1) * mean.sum) / (mean.weight as int),
{
    let scale = count - 1;
    lemma_rescale(scale, mean.sum as int, mean.weight as int, u64::MAX as int);
    assert(length + scale * u64::MAX <= count * u64::MAX) by (nonlinear_arith)
        requires
            scale == count - 1,
            length <= u64::MAX,
    ;
    assert(count * u64::MAX <= u32::MAX * u64::MAX) by (nonlinear_arith)
        requires
            count <= u32::MAX,
    ;
}

/// Where every message so far has entered the mean, one more message adds
/// its length to the sum and nothing is rounded.
pub proof fn lemma_extended_exact(mean: MeanLength, length: nat, count: u32)
    requires
        mean.wf(),
        count == mean.weight + 1,
        length <= usize::MAX,
    ensures
        mean.extended(length, count).sum == mean.sum + length,
        mean.extended(length, count).weight == mean.weight + 1,
{
    assert(((count - 1) * mean.sum) / (mean.weight as int) == mean.sum) by (nonlinear_arith)
        requires
            count - 1 == mean.weight,
            mean.weight >= 1,
    ;
    assert(mean.sum + length <= u32::MAX * u64::MAX + u64::MAX) by (nonlinear_arith)
        requires
            mean.sum <= mean.weight * u64::MAX,
            mean.weight <= u32::MAX,
            length <= u64::MAX,
    ;
}

} // verus!
