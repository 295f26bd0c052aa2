use vstd::prelude::*;
use vstd::multiset::Multiset;
use hdrhistogram::{AdditionError, CreationError, Histogram, RecordError};

verus! {

/// A latency histogram: an `hdrhistogram::Histogram<u64>` of microsecond values, held in a
/// private field. What it holds is described by `histogram_samples` and
/// `histogram_settings`, and changed only through the wrappers below.
#[verifier::external_body]
pub struct LatencyHistogram {
    inner: Histogram<u64>,
}

#[verifier::external_type_specification]
#[verifier::external_body]
pub struct ExCreationError(CreationError);

#[verifier::external_type_specification]
#[verifier::external_body]
pub struct ExRecordError(RecordError);

#[verifier::external_type_specification]
#[verifier::external_body]
pub struct ExAdditionError(AdditionError);

/// The samples that a latency histogram counts in its buckets: every value recorded into
/// it, and every value added from another histogram, which, when that histogram was made
/// with other settings, is counted as the lowest value of its bucket there.
pub uninterp spec fn histogram_samples(h: LatencyHistogram) -> Multiset<u64>;

/// The settings a histogram was made with: its lowest discernible value, its number of
/// significant figures, and whether it grows to take values beyond its range.
pub uninterp spec fn histogram_settings(h: LatencyHistogram) -> (u64, u8, bool);

/// What `Histogram::value_at_percentile` answers for a histogram holding `samples`, made
/// with lowest discernible value `lowest` and `sigfig` significant figures.
pub uninterp spec fn percentile_of_samples(
    samples: Multiset<u64>,
    lowest: u64,
    sigfig: u8,
    percentile: u8,
) -> u64;

impl Clone for LatencyHistogram {
    /// `Histogram::clone` (derived): a field-by-field copy, so the copy holds the same
    /// samples and settings.
    #[verifier::external_body]
    fn clone(&self) -> (r: Self)
        ensures
            histogram_samples(r) == histogram_samples(*self),
            histogram_settings(r) == histogram_settings(*self),
    {
        LatencyHistogram { inner: self.inner.clone() }
    }
}

/// `Histogram::<u64>::new_with_bounds`. Its source refuses a zero `low`, a `low` above
/// `u64::MAX / 2`, a `high` below `2 * low` and more than 5 significant figures, and accepts
/// any other `low` below 2^45 (there the sub-bucket layout always fits in 63 bits). A new
/// histogram holds no sample and does not resize itself.
#[verifier::external_body]
pub(crate) fn histogram_new_with_bounds(low: u64, high: u64, sigfig: u8) -> (r: Result<
    LatencyHistogram,
    CreationError,
>)
    ensures
        (low == 0 || low > u64::MAX / 2 || high < 2 * low || sigfig > 5) ==> r is Err,
        (1 <= low < 0x2000_0000_0000 && high >= 2 * low && sigfig <= 5) ==> r is Ok,
        r matches Ok(h) ==> histogram_samples(h) =~= Multiset::empty() && histogram_settings(h)
            == (low, sigfig, false),
{
    match Histogram::<u64>::new_with_bounds(low, high, sigfig) {
        Ok(inner) => Ok(LatencyHistogram { inner }),
        Err(e) => Err(e),
    }
}

/// `Histogram::auto`: switches resizing on or off and touches nothing else.
#[verifier::external_body]
pub(crate) fn histogram_auto(h: &mut LatencyHistogram, enabled: bool)
    ensures
        histogram_samples(*final(h)) == histogram_samples(*old(h)),
        histogram_settings(*final(h)) == (
            histogram_settings(*old(h)).0,
            histogram_settings(*old(h)).1,
            enabled,
        ),
{
    h.inner.auto(enabled)
}

/// `Histogram::record`: adds one sample. Its source fails only when the value lies beyond
/// the range and resizing is off (resizing itself cannot fail on 32- or 64-bit targets);
/// on failure nothing changes.
#[verifier::external_body]
pub(crate) fn histogram_record(h: &mut LatencyHistogram, value: u64) -> (r: Result<(), RecordError>)
    ensures
        histogram_settings(*final(h)) == histogram_settings(*old(h)),
        histogram_settings(*old(h)).2 ==> r is Ok,
        r is Ok ==> histogram_samples(*final(h)) == histogram_samples(*old(h)).insert(value),
        r is Err ==> histogram_samples(*final(h)) == histogram_samples(*old(h)),
{
    h.inner.record(value)
}

/// `Histogram::add`: adds every sample of `other`. Its source fails only when `other`
/// holds values beyond the range and resizing is off; on failure nothing changes. Counts
/// saturate at `u64::MAX`, so the number of samples is stated where the sum fits. Between
/// histograms with the same lowest value and significant figures the bucket layouts agree
/// and the samples of both are kept; otherwise they are re-recorded at bucket boundaries,
/// which this contract does not describe.
#[verifier::external_body]
pub(crate) fn histogram_add(h: &mut LatencyHistogram, other: &LatencyHistogram) -> (r: Result<
    (),
    AdditionError,
>)
    ensures
        histogram_settings(*final(h)) == histogram_settings(*old(h)),
        histogram_settings(*old(h)).2 ==> r is Ok,
        r is Err ==> histogram_samples(*final(h)) == histogram_samples(*old(h)),
        r is Ok && histogram_samples(*old(h)).len() + histogram_samples(*other).len()
            <= u64::MAX ==> histogram_samples(*final(h)).len() == histogram_samples(
            *old(h),
        ).len() + histogram_samples(*other).len(),
        r is Ok && histogram_settings(*old(h)).0 == histogram_settings(*other).0
            && histogram_settings(*old(h)).1 == histogram_settings(*other).1
            ==> histogram_samples(*final(h)) == histogram_samples(*old(h)).add(
            histogram_samples(*other),
        ),
{
    h.inner.add(&other.inner)
}

/// `Histogram::len`: the number of samples, which saturates at `u64::MAX`.
#[verifier::external_body]
pub(crate) fn histogram_len(h: &LatencyHistogram) -> (r: u64)
    ensures
        histogram_samples(*h).len() <= u64::MAX ==> r == histogram_samples(*h).len(),
        histogram_samples(*h).len() > u64::MAX ==> r == u64::MAX,
{
    h.inner.len()
}

/// `Histogram::value_at_percentile`: 0 for a histogram without samples; otherwise the value
/// that the given percentage of samples are smaller than or equivalent to, a function of the
/// samples and of the bucket layout that the lowest value and significant figures fix.
#[verifier::external_body]
pub(crate) fn histogram_value_at_percentile(h: &LatencyHistogram, percentile: u8) -> (r: u64)
    ensures
        histogram_samples(*h).len() == 0 ==> r == 0,
        histogram_samples(*h).len() <= u64::MAX ==> r == percentile_of_samples(
            histogram_samples(*h),
            histogram_settings(*h).0,
            histogram_settings(*h).1,
            percentile,
        ),
{
    h.inner.value_at_percentile(percentile.into())
}

/// The latency at the given percentile, in microseconds; 0 while nothing is recorded.
pub fn quantile_us(hist: &LatencyHistogram, percentile: u8) -> (r: u64)
    ensures
        histogram_samples(*hist).len() == 0 ==> r == 0,
        0 < histogram_samples(*hist).len() <= u64::MAX ==> r == percentile_of_samples(
            histogram_samples(*hist),
            histogram_settings(*hist).0,
            histogram_settings(*hist).1,
            percentile,
        ),
{
    if histogram_len(hist) == 0 {
        return 0;
    }
    histogram_value_at_percentile(hist, percentile)
}

} // verus!
