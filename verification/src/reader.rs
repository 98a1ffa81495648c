//! Reading one sample with a bounded number of retries.

use vstd::prelude::*;
use crate::error::AcquisitionError;

verus! {

/// What a read does after one exchange.
#[derive(Clone, Copy, Debug, PartialEq, Eq, Structural)]
pub enum ReadStep {
    /// The read is complete with this sample.
    Done(i32),
    /// The sensor was not ready: exchange again, at once.
    Retry,
    /// The read failed.
    Failed(AcquisitionError),
}

/// The retry budget of the read under way.
#[derive(Clone, Copy, Debug, PartialEq, Eq, Structural)]
pub struct SampleReader {
    /// Retries that every read may spend.
    pub retry_count: u32,
    /// Retries that the read under way may still spend.
    pub retries_left: u32,
}

/// What a read returns that sees these exchange results in order and may
/// retry `retries` times; `None` while it still waits for an exchange.
///
/// A sample ends the read. A sensor that is not ready costs one retry, and
/// ends the read with `AcquisitionFailed` once none is left. Any other
/// failure ends the read as it is.
pub open spec fn read_outcome(
    outcomes: Seq<Result<i32, AcquisitionError>>,
    retries: nat,
) -> Option<Result<i32, AcquisitionError>>
    decreases outcomes.len(),
{
    if outcomes.len() == 0 {
        None
    } else {
        match outcomes[0] {
            Ok(v) => Some(Ok(v)),
            Err(AcquisitionError::SensorNotReady) => if retries == 0 {
                Some(Err(AcquisitionError::AcquisitionFailed))
            } else {
                read_outcome(outcomes.skip(1), (retries - 1) as nat)
            },
            Err(e) => Some(Err(e)),
        }
    }
}

/// Exchanges that one read uses up from the front of `outcomes`: the
/// retries it spends and the exchange that ends it.
pub open spec fn read_span(outcomes: Seq<Result<i32, AcquisitionError>>, retries: nat) -> nat
    decreases outcomes.len(),
{
    if outcomes.len() == 0 {
        0
    } else {
        match outcomes[0] {
            Err(AcquisitionError::SensorNotReady) => if retries == 0 {
                1
            } else {
                1 + read_span(outcomes.skip(1), (retries - 1) as nat)
            },
            _ => 1,
        }
    }
}

/// The samples of `later` behind those of `earlier`; a failure or a read
/// still under way stays as it is.
pub open spec fn joined(
    earlier: Seq<i32>,
    later: Option<Result<Seq<i32>, AcquisitionError>>,
) -> Option<Result<Seq<i32>, AcquisitionError>> {
    match later {
        Some(Ok(rest)) => Some(Ok(earlier + rest)),
        other => other,
    }
}

/// What `n` reads in a row return that see these exchange results in
/// order, where the first read may retry `first` times and every later one
/// `retry_count` times: the `n` samples in the order read, the failure of
/// the first read that fails, or `None` where the results run out first.
pub open spec fn reads_outcome(
    outcomes: Seq<Result<i32, AcquisitionError>>,
    first: nat,
    retry_count: nat,
    n: nat,
) -> Option<Result<Seq<i32>, AcquisitionError>>
    decreases n,
{
    if n == 0 {
        Some(Ok(Seq::empty()))
    } else {
        match read_outcome(outcomes, first) {
            None => None,
            Some(Err(e)) => Some(Err(e)),
            Some(Ok(v)) => joined(
                seq![v],
                reads_outcome(
                    outcomes.skip(read_span(outcomes, first) as int),
                    retry_count,
                    retry_count,
                    (n - 1) as nat,
                ),
            ),
        }
    }
}

/// Exchanges that `n` reads in a row use up from the front of `outcomes`.
pub open spec fn reads_span(
    outcomes: Seq<Result<i32, AcquisitionError>>,
    first: nat,
    retry_count: nat,
    n: nat,
) -> nat
    decreases n,
{
    if n == 0 {
        0
    } else {
        read_span(outcomes, first) + reads_span(
            outcomes.skip(read_span(outcomes, first) as int),
            retry_count,
            retry_count,
            (n - 1) as nat,
        )
    }
}

/// The samples of a finished sequence of reads as a plain value.
pub open spec fn window_of(read: Option<Result<Vec<i32>, AcquisitionError>>) -> Option<
    Result<Seq<i32>, AcquisitionError>,
> {
    match read {
        Some(Ok(window)) => Some(Ok(window@)),
        Some(Err(e)) => Some(Err(e)),
        None => None,
    }
}

impl SampleReader {
    /// The invariant of the reader.
    pub open spec fn wf(&self) -> bool {
        self.retries_left <= self.retry_count
    }

    /// The reader before the first exchange of a read.
    pub open spec fn fresh(&self) -> SampleReader {
        SampleReader { retry_count: self.retry_count, retries_left: self.retry_count }
    }

    /// The reader and the step that follow one exchange result.
    pub open spec fn next(&self, outcome: Result<i32, AcquisitionError>) -> (
        SampleReader,
        ReadStep,
    ) {
        match outcome {
            Ok(v) => (self.fresh(), ReadStep::Done(v)),
            Err(AcquisitionError::SensorNotReady) => if self.retries_left == 0 {
                (self.fresh(), ReadStep::Failed(AcquisitionError::AcquisitionFailed))
            } else {
                (
                    SampleReader {
                        retry_count: self.retry_count,
                        retries_left: (self.retries_left - 1) as u32,
                    },
                    ReadStep::Retry,
                )
            },
            Err(e) => (self.fresh(), ReadStep::Failed(e)),
        }
    }

    /// A reader with its whole budget.
    pub fn new(retry_count: u32) -> (reader: SampleReader)
        ensures
            reader == (SampleReader { retry_count, retries_left: retry_count }),
            reader.wf(),
    {
        SampleReader { retry_count, retries_left: retry_count }
    }

    /// Decides what follows one exchange result, as `next` says. After
    /// anything but a retry the reader has its whole budget again.
    pub fn step(self, outcome: Result<i32, AcquisitionError>) -> (out: (SampleReader, ReadStep))
        requires
            self.wf(),
        ensures
            out == self.next(outcome),
            out.0.wf(),
            out.0.retry_count == self.retry_count,
            out.1 == ReadStep::Retry <==> outcome == Err::<i32, AcquisitionError>(
                AcquisitionError::SensorNotReady,
            ) && self.retries_left > 0,
    {
        let fresh = SampleReader { retry_count: self.retry_count, retries_left: self.retry_count };
        match outcome {
            Ok(v) => (fresh, ReadStep::Done(v)),
            Err(AcquisitionError::SensorNotReady) => {
                if self.retries_left == 0 {
                    (fresh, ReadStep::Failed(AcquisitionError::AcquisitionFailed))
                } else {
                    (
                        SampleReader {
                            retry_count: self.retry_count,
                            retries_left: self.retries_left - 1,
                        },
                        ReadStep::Retry,
                    )
                }
            },
            Err(e) => (fresh, ReadStep::Failed(e)),
        }
    }
}

/// A read that never sees the sensor ready fails after exactly
/// `retries + 1` exchanges, and not before.
pub proof fn lemma_never_ready(outcomes: Seq<Result<i32, AcquisitionError>>, retries: nat)
    requires
        forall|i: int|
            0 <= i < outcomes.len() ==> #[trigger] outcomes[i] == Err::<i32, AcquisitionError>(
                AcquisitionError::SensorNotReady,
            ),
    ensures
        outcomes.len() <= retries ==> read_outcome(outcomes, retries).is_none(),
        outcomes.len() > retries ==> read_outcome(outcomes, retries) == Some(
            Err::<i32, AcquisitionError>(AcquisitionError::AcquisitionFailed),
        ),
    decreases outcomes.len(),
{
    if outcomes.len() > 0 && retries > 0 {
        let rest = outcomes.skip(1);
        assert forall|i: int| 0 <= i < rest.len() implies #[trigger] rest[i] == Err::<
            i32,
            AcquisitionError,
        >(AcquisitionError::SensorNotReady) by {
            assert(rest[i] == outcomes[i + 1]);
        }
        lemma_never_ready(rest, (retries - 1) as nat);
    }
}

/// A read uses up no more exchanges than there are.
pub proof fn lemma_read_span_bound(outcomes: Seq<Result<i32, AcquisitionError>>, retries: nat)
    ensures
        read_span(outcomes, retries) <= outcomes.len(),
        read_span(outcomes, retries) <= retries + 1,
    decreases outcomes.len(),
{
    if outcomes.len() > 0 && retries > 0 {
        lemma_read_span_bound(outcomes.skip(1), (retries - 1) as nat);
    }
}

/// Reads one sample from the exchange results from `start` on: the result
/// of the read, and the place behind the exchanges that it used up.
fn read_from(outcomes: &Vec<Result<i32, AcquisitionError>>, start: usize, retry_count: u32) -> (out:
    (Option<Result<i32, AcquisitionError>>, usize))
    requires
        start <= outcomes@.len(),
    ensures
        out.0 == read_outcome(outcomes@.skip(start as int), retry_count as nat),
        out.1 == start + read_span(outcomes@.skip(start as int), retry_count as nat),
        out.1 <= outcomes@.len(),
{
    let mut reader = SampleReader::new(retry_count);
    let mut i: usize = start;
    while i < outcomes.len()
        invariant
            start <= i <= outcomes@.len(),
            reader.wf(),
            reader.retry_count == retry_count,
            read_outcome(outcomes@.skip(start as int), retry_count as nat) == read_outcome(
                outcomes@.skip(i as int),
                reader.retries_left as nat,
            ),
            start + read_span(outcomes@.skip(start as int), retry_count as nat) == i + read_span(
                outcomes@.skip(i as int),
                reader.retries_left as nat,
            ),
        decreases outcomes@.len() - i,
    {
        let ghost rest = outcomes@.skip(i as int);
        proof {
            assert(rest[0] == outcomes@[i as int]);
            assert(rest.skip(1) =~= outcomes@.skip(i as int + 1));
        }
        let (stepped, decision) = reader.step(outcomes[i]);
        match decision {
            ReadStep::Done(v) => {
                return (Some(Ok(v)), i + 1);
            },
            ReadStep::Failed(e) => {
                return (Some(Err(e)), i + 1);
            },
            ReadStep::Retry => {
                reader = stepped;
            },
        }
        i = i + 1;
    }
    proof {
        assert(outcomes@.skip(i as int).len() == 0);
    }
    (None, i)
}

/// Reads one sample from the exchange results in `outcomes`, taken in
/// order, with up to `retry_count` retries. The result is `read_outcome`:
/// `None` where the results run out before the read has ended.
pub fn read_one(outcomes: &Vec<Result<i32, AcquisitionError>>, retry_count: u32) -> (read: Option<
    Result<i32, AcquisitionError>,
>)
    ensures
        read == read_outcome(outcomes@, retry_count as nat),
{
    proof {
        assert(outcomes@.skip(0) =~= outcomes@);
    }
    read_from(outcomes, 0, retry_count).0
}

/// Reads `n` samples one after the other from the exchange results in
/// `outcomes`, each with up to `retry_count` retries. The result is
/// `reads_outcome`: exactly `n` samples in the order read, or the failure
/// of the first read that fails, or `None` where the results run out.
/// Every read has the whole retry budget.
pub fn read_n(outcomes: &Vec<Result<i32, AcquisitionError>>, retry_count: u32, n: usize) -> (read:
    Option<Result<Vec<i32>, AcquisitionError>>)
    ensures
        window_of(read) == reads_outcome(
            outcomes@,
            retry_count as nat,
            retry_count as nat,
            n as nat,
        ),
        read matches Some(Ok(window)) ==> window@.len() == n,
{
    let mut window: Vec<i32> = Vec::new();
    let mut pos: usize = 0;
    let mut k: usize = 0;
    proof {
        assert(outcomes@.skip(0) =~= outcomes@);
        let whole = reads_outcome(outcomes@, retry_count as nat, retry_count as nat, n as nat);
        if let Some(Ok(rest)) = whole {
            assert(window@ + rest =~= rest);
        }
    }
    while k < n
        invariant
            k <= n,
            pos <= outcomes@.len(),
            window@.len() == k,
            reads_outcome(outcomes@, retry_count as nat, retry_count as nat, n as nat) == joined(
                window@,
                reads_outcome(
                    outcomes@.skip(pos as int),
                    retry_count as nat,
                    retry_count as nat,
                    (n - k) as nat,
                ),
            ),
        decreases n - k,
    {
        let ghost here = outcomes@.skip(pos as int);
        let (read, next) = read_from(outcomes, pos, retry_count);
        match read {
            None => {
                return None;
            },
            Some(Err(e)) => {
                return Some(Err(e));
            },
            Some(Ok(v)) => {
                proof {
                    assert(here.skip(next - pos) =~= outcomes@.skip(next as int));
                    let later = reads_outcome(
                        outcomes@.skip(next as int),
                        retry_count as nat,
                        retry_count as nat,
                        (n - k - 1) as nat,
                    );
                    if let Some(Ok(rest)) = later {
                        assert(window@ + (seq![v] + rest) =~= window@.push(v) + rest);
                    }
                }
                window.push(v);
                pos = next;
                k = k + 1;
            },
        }
    }
    proof {
        assert(window@ + Seq::<i32>::empty() =~= window@);
    }
    Some(Ok(window))
}

} // verus!
