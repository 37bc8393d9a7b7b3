//! Decisions of the scoring worker.
//!
//! The worker keeps at most one reference (whatever the caller builds from a
//! reference image) and answers requests one at a time. For each request the
//! caller asks `Worker::next_step` what to do: stop on a tag other than `'R'`
//! and `'S'` (a protocol error), otherwise run a command (load a reference,
//! score a candidate) or answer with an error and go on. The outcome of
//! loading a reference is handed back to `Worker::install`.
use vstd::prelude::*;

use crate::payload::{DecodeError, Pixels};

verus! {

/// Tag of a request that sets the reference (`'R'`).
pub const TAG_REFERENCE: u8 = 82;

/// Tag of a request that scores a candidate against the reference (`'S'`).
pub const TAG_SCORE: u8 = 83;

/// Work that the caller performs for a request.
#[derive(Debug, PartialEq, Eq)]
pub enum Command {
    /// Build a reference from these pixels and hand it to `Worker::install`.
    LoadReference(Pixels),
    /// Score these pixels against the current reference.
    ScoreCandidate(Pixels),
}

/// What to do with one request.
#[derive(Debug, PartialEq, Eq)]
pub enum Step {
    /// Perform the command.
    Run(Command),
    /// Answer with this decoding error; the session goes on.
    Reject(DecodeError),
    /// A score was requested before any reference was loaded; answer with an
    /// error; the session goes on.
    NoReference,
    /// A request with an unknown tag: a protocol error that ends the session,
    /// whatever the payload.
    UnknownTag(u8),
}

/// The step taken for a request, given the current reference. The tag is
/// looked at first: a tag other than `TAG_REFERENCE` and `TAG_SCORE` is a
/// protocol error that ends the session, whatever its payload.
pub open spec fn spec_next_step<R>(
    reference: Option<R>,
    tag: u8,
    decoded: Result<Pixels, DecodeError>,
) -> Step {
    if tag != TAG_REFERENCE && tag != TAG_SCORE {
        Step::UnknownTag(tag)
    } else {
        match decoded {
            Err(e) => Step::Reject(e),
            Ok(p) => if tag == TAG_REFERENCE {
                Step::Run(Command::LoadReference(p))
            } else if reference is Some {
                Step::Run(Command::ScoreCandidate(p))
            } else {
                Step::NoReference
            },
        }
    }
}

/// The reference after the outcome of a load: a built reference replaces the
/// current one; a failed build leaves it as it was.
pub open spec fn spec_install<R, E>(reference: Option<R>, built: Result<R, E>) -> Option<R> {
    match built {
        Ok(r) => Some(r),
        Err(_) => reference,
    }
}

/// The reference after a series of load outcomes.
pub open spec fn reference_after<R, E>(reference: Option<R>, builds: Seq<Result<R, E>>) -> Option<R>
    decreases builds.len(),
{
    if builds.len() == 0 {
        reference
    } else {
        spec_install(reference_after(reference, builds.drop_last()), builds.last())
    }
}

/// State of a worker session.
pub struct Worker<R> {
    reference: Option<R>,
}

impl<R> Worker<R> {
    /// The reference currently held.
    pub closed spec fn current(&self) -> Option<R> {
        self.reference
    }

    /// A session with no reference.
    pub fn new() -> (w: Self)
        ensures
            w.current() is None,
    {
        Worker { reference: None }
    }

    /// Whether a reference is loaded.
    pub fn has_reference(&self) -> (b: bool)
        ensures
            b == self.current() is Some,
    {
        self.reference.is_some()
    }

    /// The reference currently held.
    pub fn reference(&self) -> (r: Option<&R>)
        ensures
            r is Some == self.current() is Some,
            r matches Some(x) ==> *x == self.current()->Some_0,
    {
        match &self.reference {
            Some(x) => Some(x),
            None => None,
        }
    }

    /// Decides what to do with a request whose tag is `tag` and whose payload
    /// decoded to `decoded`. An unknown tag ends the session before the
    /// payload is looked at; for the two known tags a decoding error is
    /// answered and the session goes on.
    pub fn next_step(&self, tag: u8, decoded: Result<Pixels, DecodeError>) -> (s: Step)
        ensures
            s == spec_next_step(self.current(), tag, decoded),
    {
        if tag != TAG_REFERENCE && tag != TAG_SCORE {
            return Step::UnknownTag(tag);
        }
        match decoded {
            Err(e) => Step::Reject(e),
            Ok(p) => {
                if tag == TAG_REFERENCE {
                    Step::Run(Command::LoadReference(p))
                } else if self.reference.is_some() {
                    Step::Run(Command::ScoreCandidate(p))
                } else {
                    Step::NoReference
                }
            },
        }
    }

    /// Takes the outcome of building a reference: on success it becomes the
    /// reference; on failure the previous reference stays and the error is
    /// handed back for the reply.
    pub fn install<E>(&mut self, built: Result<R, E>) -> (r: Result<(), E>)
        ensures
            final(self).current() == spec_install(old(self).current(), built),
            match built {
                Ok(_) => r is Ok,
                Err(e) => r == Err::<(), E>(e),
            },
    {
        match built {
            Ok(v) => {
                self.reference = Some(v);
                Ok(())
            },
            Err(e) => Err(e),
        }
    }
}

/// Until a load succeeds, every score request with a decodable payload is
/// answered `NoReference`: a fresh session followed by any number of failed
/// loads still holds no reference.
pub proof fn law_no_score_before_reference<R, E>(
    builds: Seq<Result<R, E>>,
    pixels: Pixels,
)
    requires
        forall|i: int| 0 <= i < builds.len() ==> builds[i] is Err,
    ensures
        reference_after(None::<R>, builds) is None,
        spec_next_step(reference_after(None::<R>, builds), TAG_SCORE, Ok(pixels)) == Step::NoReference,
    decreases builds.len(),
{
    if builds.len() > 0 {
        law_no_score_before_reference::<R, E>(builds.drop_last(), pixels);
    }
}

/// The reference in use is the one built by the last successful load, or the
/// initial one when no load succeeded: failed loads never disturb it.
pub proof fn law_reference_is_last_success<R, E>(start: Option<R>, builds: Seq<Result<R, E>>)
    ensures
        (forall|i: int| 0 <= i < builds.len() ==> builds[i] is Err) ==> reference_after(
            start,
            builds,
        ) == start,
        forall|i: int|
            0 <= i < builds.len() && builds[i] is Ok && (forall|j: int|
                i < j < builds.len() ==> builds[j] is Err) ==> reference_after(start, builds)
                == Some(builds[i]->Ok_0),
    decreases builds.len(),
{
    if builds.len() > 0 {
        let prev = builds.drop_last();
        law_reference_is_last_success::<R, E>(start, prev);
        assert forall|i: int|
            0 <= i < builds.len() && builds[i] is Ok && (forall|j: int|
                i < j < builds.len() ==> builds[j] is Err) implies reference_after(start, builds)
            == Some(builds[i]->Ok_0) by {
            if i < builds.len() - 1 {
                assert(builds.last() is Err);
                assert(prev[i] == builds[i]);
                assert forall|j: int| i < j < prev.len() implies prev[j] is Err by {
                    assert(prev[j] == builds[j]);
                }
            }
        }
        if forall|i: int| 0 <= i < builds.len() ==> builds[i] is Err {
            assert forall|i: int| 0 <= i < prev.len() implies prev[i] is Err by {
                assert(prev[i] == builds[i]);
            }
            assert(builds.last() is Err);
        }
    }
}

/// A request ends the session exactly when its tag is neither
/// `TAG_REFERENCE` nor `TAG_SCORE`, whatever its payload; for the known tags
/// every decoding error is answered and the session goes on.
pub proof fn law_only_unknown_tags_stop<R>(
    reference: Option<R>,
    tag: u8,
    decoded: Result<Pixels, DecodeError>,
)
    ensures
        spec_next_step(reference, tag, decoded) is UnknownTag <==> (tag != TAG_REFERENCE && tag
            != TAG_SCORE),
        (tag == TAG_REFERENCE || tag == TAG_SCORE) && decoded is Err ==> spec_next_step(
            reference,
            tag,
            decoded,
        ) is Reject,
{
}

/// An `'R'` request whose payload decoded always loads a new reference,
/// whether or not one is held; an `'S'` request whose payload decoded is
/// scored exactly when a reference is held.
pub proof fn law_reference_requests_always_load<R>(reference: Option<R>, pixels: Pixels)
    ensures
        spec_next_step(reference, TAG_REFERENCE, Ok(pixels)) == Step::Run(
            Command::LoadReference(pixels),
        ),
        reference is Some ==> spec_next_step(reference, TAG_SCORE, Ok(pixels)) == Step::Run(
            Command::ScoreCandidate(pixels),
        ),
        reference is None ==> spec_next_step(reference, TAG_SCORE, Ok(pixels)) == Step::NoReference,
{
}

/// A request never runs a command it was not asked for: loading happens only
/// on `'R'`, scoring only on `'S'`, and the pixels handed to the command are
/// the decoded ones.
pub proof fn law_commands_follow_tags<R>(
    reference: Option<R>,
    tag: u8,
    decoded: Result<Pixels, DecodeError>,
)
    ensures
        spec_next_step(reference, tag, decoded) matches Step::Run(Command::LoadReference(p)) ==> tag
            == TAG_REFERENCE && decoded == Ok::<Pixels, DecodeError>(p),
        spec_next_step(reference, tag, decoded) matches Step::Run(Command::ScoreCandidate(p)) ==> tag
            == TAG_SCORE && reference is Some && decoded == Ok::<Pixels, DecodeError>(p),
        spec_next_step(reference, tag, decoded) matches Step::Reject(e) ==> decoded == Err::<
            Pixels,
            DecodeError,
        >(e),
{
}

} // verus!
