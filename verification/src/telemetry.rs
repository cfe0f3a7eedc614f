use vstd::prelude::*;

use crate::error::{Error, Revision, DEFAULT_TELEMETRY_WIDTH};

verus! {

/// A fixed-width latest-value telemetry slot.
///
/// Each successful publish replaces the whole sample and advances the
/// sequence by one; no history is retained. The slot keeps the raw sequence
/// counter of a sequence lock, which is even between publications and counts
/// two per completed publication.
#[derive(Debug)]
pub struct LatestTelemetry {
    sequence: u64,
    values: Vec<usize>,
    width: usize,
}

impl View for LatestTelemetry {
    /// The number of completed publications and the latest sample.
    type V = (nat, Seq<usize>);

    closed spec fn view(&self) -> (nat, Seq<usize>) {
        ((self.sequence / 2) as nat, self.values@)
    }
}

impl LatestTelemetry {
    /// The slot's invariant: the width is non-zero, the sample has that
    /// width, and the counter is even and has not run out.
    pub closed spec fn wf(&self) -> bool {
        &&& self.width > 0
        &&& self.values@.len() == self.width
        &&& self.sequence % 2 == 0
        &&& self.sequence <= u64::MAX - 1
    }

    /// The fixed number of values in each sample.
    pub closed spec fn spec_width(&self) -> nat {
        self.width as nat
    }

    /// The largest number of publications the counter can record.
    pub open spec fn max_sequence() -> nat {
        ((u64::MAX - 1) / 2) as nat
    }

    /// What a well-formed slot guarantees: the sample has the slot's width and
    /// the publication count is within the counter's range.
    pub proof fn lemma_bounds(&self)
        requires
            self.wf(),
        ensures
            self@.1.len() == self.spec_width(),
            self@.0 <= Self::max_sequence(),
            self.spec_width() > 0,
    {
    }

    /// Creates a fixed-width telemetry slot holding zeros and no publication.
    pub fn new(width: usize) -> (r: Result<Self, Error>)
        ensures
            width == 0 ==> r == Err::<Self, Error>(Error::InvalidLimit { name: "telemetry width" }),
            width > 0 ==> (r matches Ok(t) && t.wf() && t.spec_width() == width && t@.0 == 0
                && t@.1 == Seq::new(width as nat, |i: int| 0usize)) || r == Err::<Self, Error>(
                Error::AllocationFailed { kind: "telemetry slot" },
            ),
    {
        if width == 0 {
            return Err(Error::InvalidLimit { name: "telemetry width" });
        }
        let mut values: Vec<usize> = Vec::new();
        if values.try_reserve(width).is_err() {
            return Err(Error::AllocationFailed { kind: "telemetry slot" });
        }
        let mut i: usize = 0;
        while i < width
            invariant
                i <= width,
                values@ == Seq::new(i as nat, |j: int| 0usize),
            decreases width - i,
        {
            values.push(0);
            i = i + 1;
            proof {
                assert(values@ =~= Seq::new(i as nat, |j: int| 0usize));
            }
        }
        Ok(LatestTelemetry { sequence: 0, values, width })
    }

    /// Creates a slot using the default width.
    pub fn with_defaults() -> (r: Result<Self, Error>)
        ensures
            (r matches Ok(t) && t.wf() && t.spec_width() == DEFAULT_TELEMETRY_WIDTH && t@.0 == 0)
                || r == Err::<Self, Error>(Error::AllocationFailed { kind: "telemetry slot" }),
    {
        Self::new(DEFAULT_TELEMETRY_WIDTH)
    }

    /// Publishes the newest fixed-width sample and returns its sequence.
    pub fn publish(&mut self, values: &[usize]) -> (r: Result<Revision, Error>)
        requires
            old(self).wf(),
        ensures
            final(self).wf(),
            final(self).spec_width() == old(self).spec_width(),
            values@.len() != old(self).spec_width() ==> r == Err::<Revision, Error>(
                Error::WrongSize {
                    kind: "telemetry sample",
                    actual: values@.len() as usize,
                    expected: old(self).spec_width() as usize,
                },
            ),
            values@.len() == old(self).spec_width() && old(self)@.0 == Self::max_sequence() ==> r
                == Err::<Revision, Error>(Error::RevisionExhausted),
            values@.len() == old(self).spec_width() && old(self)@.0 < Self::max_sequence() ==> r
                == Ok::<Revision, Error>((old(self)@.0 + 1) as u64) && final(self)@ == (
                old(self)@.0 + 1,
                values@,
            ),
            r matches Ok(s) ==> s == old(self)@.0 + 1 && final(self)@ == (old(self)@.0 + 1, values@),
            r is Err ==> final(self)@ == old(self)@,
    {
        if values.len() != self.width {
            return Err(
                Error::WrongSize {
                    kind: "telemetry sample",
                    actual: values.len(),
                    expected: self.width,
                },
            );
        }
        let current = self.sequence;
        if current >= u64::MAX - 1 {
            return Err(Error::RevisionExhausted);
        }
        if current % 2 != 0 {
            return Err(Error::TelemetryBusy);
        }
        let mut i: usize = 0;
        while i < self.width
            invariant
                i <= self.width,
                self.width == values@.len(),
                self.values@.len() == self.width,
                self.sequence == current,
                self.width == old(self).width,
                forall|j: int| 0 <= j < i ==> self.values@[j] == values@[j],
            decreases self.width - i,
        {
            self.values.set(i, values[i]);
            i = i + 1;
        }
        proof {
            assert(self.values@ =~= values@);
        }
        self.sequence = current + 2;
        Ok(current / 2 + 1)
    }

    /// Copies the latest sample into a caller-owned buffer of the slot's
    /// width and returns its sequence.
    pub fn read_into(&self, output: &mut [usize]) -> (r: Result<Revision, Error>)
        requires
            self.wf(),
        ensures
            old(output)@.len() != self.spec_width() ==> r == Err::<Revision, Error>(
                Error::WrongSize {
                    kind: "telemetry output",
                    actual: old(output)@.len() as usize,
                    expected: self.spec_width() as usize,
                },
            ),
            old(output)@.len() == self.spec_width() && self@.0 == 0 ==> r == Err::<Revision, Error>(
                Error::NoTelemetry,
            ),
            old(output)@.len() == self.spec_width() && self@.0 > 0 ==> r == Ok::<Revision, Error>(
                self@.0 as u64,
            ) && final(output)@ == self@.1,
            r is Err ==> final(output)@ == old(output)@,
    {
        if output.len() != self.width {
            return Err(
                Error::WrongSize {
                    kind: "telemetry output",
                    actual: output.len(),
                    expected: self.width,
                },
            );
        }
        let before = self.sequence;
        if before == 0 {
            return Err(Error::NoTelemetry);
        }
        let mut i: usize = 0;
        while i < self.width
            invariant
                self.wf(),
                i <= self.width,
                output@.len() == self.width,
                forall|j: int| 0 <= j < i ==> output@[j] == self.values@[j],
            decreases self.width - i,
        {
            output[i] = self.values[i];
            i = i + 1;
        }
        proof {
            assert(output@ =~= self.values@);
        }
        Ok(before / 2)
    }

    /// Returns the latest completed sequence, or zero before the first
    /// successful publication.
    pub fn sequence(&self) -> (s: Revision)
        ensures
            s == self@.0,
    {
        self.sequence / 2
    }

    /// Returns the fixed number of values in each sample.
    pub fn width(&self) -> (w: usize)
        ensures
            w == self.spec_width(),
    {
        self.width
    }
}

} // verus!
