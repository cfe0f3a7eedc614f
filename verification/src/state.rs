use vstd::prelude::*;

use crate::bytes::copy_bytes;
use crate::error::{Error, Revision, DEFAULT_MAX_STATE_BYTES};

verus! {

/// One immutable, revisioned state publication.
#[derive(Debug, PartialEq, Eq)]
pub struct StatePublication {
    revision: Revision,
    schema: u32,
    payload: Vec<u8>,
}

impl View for StatePublication {
    /// Revision, schema version and payload bytes.
    type V = (Revision, u32, Seq<u8>);

    closed spec fn view(&self) -> (Revision, u32, Seq<u8>) {
        (self.revision, self.schema, self.payload@)
    }
}

impl StatePublication {
    /// Returns the monotonic revision assigned at publication.
    pub fn revision(&self) -> (r: Revision)
        ensures
            r == self@.0,
    {
        self.revision
    }

    /// Returns the application-defined schema version for this publication.
    pub fn schema(&self) -> (s: u32)
        ensures
            s == self@.1,
    {
        self.schema
    }

    /// Returns the immutable state bytes.
    pub fn payload(&self) -> (p: &[u8])
        ensures
            p@ == self@.2,
    {
        self.payload.as_slice()
    }
}

impl Clone for StatePublication {
    fn clone(&self) -> (c: Self)
        ensures
            c@ == self@,
    {
        StatePublication {
            revision: self.revision,
            schema: self.schema,
            payload: copy_bytes(self.payload.as_slice()),
        }
    }
}

/// Publishes whole state values; a reader always receives one complete
/// publication, never a partially replaced payload.
#[derive(Debug)]
pub struct StatePublisher {
    current: Option<StatePublication>,
    next_revision: u64,
    published_revision: u64,
    max_state_bytes: usize,
}

impl View for StatePublisher {
    /// The current publication, if one exists.
    type V = Option<(Revision, u32, Seq<u8>)>;

    closed spec fn view(&self) -> Option<(Revision, u32, Seq<u8>)> {
        match self.current {
            Some(p) => Some(p@),
            None => None,
        }
    }
}

impl StatePublisher {
    /// The publisher's invariant: the limit is non-zero, the published
    /// revision is that of the current publication (zero before the first),
    /// and the next revision follows it.
    pub closed spec fn wf(&self) -> bool {
        &&& self.max_state_bytes > 0
        &&& self.next_revision == self.published_revision + 1
        &&& match self.current {
            Some(p) => p.revision == self.published_revision && p.revision >= 1 && p.schema != 0
                && p.payload@.len() <= self.max_state_bytes,
            None => self.published_revision == 0,
        }
    }

    /// The maximum payload size.
    pub closed spec fn spec_max_state_bytes(&self) -> nat {
        self.max_state_bytes as nat
    }

    /// The latest published revision, zero before the first publication.
    pub open spec fn spec_latest_revision(&self) -> nat {
        match self@ {
            Some(p) => p.0 as nat,
            None => 0,
        }
    }

    /// What a well-formed publisher guarantees: the revision counter has room
    /// for the latest revision's successor, and a publication is non-empty in
    /// revision and schema and within the payload limit.
    pub proof fn lemma_bounds(&self)
        requires
            self.wf(),
        ensures
            self.spec_latest_revision() + 1 <= u64::MAX,
            self.spec_max_state_bytes() > 0,
            self@ matches Some(p) ==> p.0 >= 1 && p.1 != 0 && p.2.len() <= self.spec_max_state_bytes(),
    {
    }

    /// Creates an empty publisher with a maximum payload size.
    pub fn new(max_state_bytes: usize) -> (r: Result<Self, Error>)
        ensures
            max_state_bytes == 0 ==> r == Err::<Self, Error>(Error::InvalidLimit { name: "state bytes" }),
            max_state_bytes > 0 ==> (r matches Ok(p) && p.wf() && p@ is None
                && p.spec_max_state_bytes() == max_state_bytes),
    {
        if max_state_bytes == 0 {
            return Err(Error::InvalidLimit { name: "state bytes" });
        }
        Ok(StatePublisher { current: None, next_revision: 1, published_revision: 0, max_state_bytes })
    }

    /// Creates a publisher with the default state bound.
    pub fn with_defaults() -> (p: Self)
        ensures
            p.wf(),
            p@ is None,
            p.spec_max_state_bytes() == DEFAULT_MAX_STATE_BYTES,
    {
        match Self::new(DEFAULT_MAX_STATE_BYTES) {
            Ok(p) => p,
            Err(_) => {
                proof {
                    assert(false);
                }
                StatePublisher {
                    current: None,
                    next_revision: 1,
                    published_revision: 0,
                    max_state_bytes: DEFAULT_MAX_STATE_BYTES,
                }
            },
        }
    }

    /// Publishes a copy of `payload` and returns its new revision.
    ///
    /// A zero schema version is refused first, then an oversized payload,
    /// then a publication that would exhaust the revision counter. A refused
    /// publication leaves the current one in place.
    pub fn publish(&mut self, schema: u32, payload: &[u8]) -> (r: Result<Revision, Error>)
        requires
            old(self).wf(),
        ensures
            final(self).wf(),
            final(self).spec_max_state_bytes() == old(self).spec_max_state_bytes(),
            old(self).spec_latest_revision() + 1 <= u64::MAX,
            schema == 0 ==> r == Err::<Revision, Error>(Error::InvalidSchemaVersion),
            schema != 0 && payload@.len() > old(self).spec_max_state_bytes() ==> r == Err::<
                Revision,
                Error,
            >(
                Error::TooLarge {
                    kind: "state publication",
                    actual: payload@.len() as usize,
                    maximum: old(self).spec_max_state_bytes() as usize,
                },
            ),
            schema != 0 && payload@.len() <= old(self).spec_max_state_bytes()
                && old(self).spec_latest_revision() + 1 == u64::MAX ==> r == Err::<Revision, Error>(
                Error::RevisionExhausted,
            ),
            schema != 0 && payload@.len() <= old(self).spec_max_state_bytes()
                && old(self).spec_latest_revision() + 1 < u64::MAX ==> r == Ok::<Revision, Error>(
                (old(self).spec_latest_revision() + 1) as u64,
            ),
            r matches Ok(rev) ==> final(self)@ == Some((rev, schema, payload@)),
            r is Err ==> final(self)@ == old(self)@,
    {
        if schema == 0 {
            return Err(Error::InvalidSchemaVersion);
        }
        if payload.len() > self.max_state_bytes {
            return Err(
                Error::TooLarge {
                    kind: "state publication",
                    actual: payload.len(),
                    maximum: self.max_state_bytes,
                },
            );
        }
        let revision = self.next_revision;
        let next = match revision.checked_add(1) {
            Some(next) => next,
            None => {
                return Err(Error::RevisionExhausted);
            },
        };
        let publication = StatePublication { revision, schema, payload: copy_bytes(payload) };
        self.current = Some(publication);
        self.next_revision = next;
        self.published_revision = revision;
        Ok(revision)
    }

    /// Returns a copy of the current publication, if one exists.
    pub fn read(&self) -> (r: Option<StatePublication>)
        ensures
            match r {
                Some(p) => self@ == Some(p@),
                None => self@ is None,
            },
    {
        match &self.current {
            Some(p) => Some(p.clone()),
            None => None,
        }
    }

    /// Returns the latest published revision without copying the payload.
    pub fn latest_revision(&self) -> (r: Option<Revision>)
        requires
            self.wf(),
        ensures
            match r {
                Some(rev) => rev >= 1 && (self@ matches Some(p) && p.0 == rev),
                None => self@ is None,
            },
    {
        let revision = self.published_revision;
        if revision != 0 {
            Some(revision)
        } else {
            None
        }
    }
}

} // verus!
