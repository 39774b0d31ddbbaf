//! Transcripts for verifiable random functions.
//!
//! A transcript collects labelled messages; signing and verifying derive their
//! challenges from everything that was collected.  The hashing is done by the
//! `merlin` crate.  What this module adds is the assembling of a transcript
//! from values, and a record of what has been appended so far: the log.

use vstd::prelude::*;
use vstd::array::*;
use vstd::bytes::*;

verus! {

#[verifier::external_type_specification]
#[verifier::external_body]
pub struct ExMerlinTranscript(merlin::Transcript);

/// The labelled messages that have been appended to a transcript since it was
/// created, oldest first, each as the pair of its label and its bytes.
pub uninterp spec fn transcript_log(transcript: merlin::Transcript) -> Seq<(Seq<u8>, Seq<u8>)>;

/// The label `dom-sep`, under which a new transcript appends the label it was
/// created with.
pub open spec fn domain_separator_label() -> Seq<u8> {
    seq![100u8, 111u8, 109u8, 45u8, 115u8, 101u8, 112u8]
}

/// The label `VRF`, with which extra transcripts are created.
pub open spec fn extra_transcript_label() -> Seq<u8> {
    seq![86u8, 82u8, 70u8]
}

/// The log of a transcript that was created with `label` and not touched since.
pub open spec fn fresh_log(label: Seq<u8>) -> Seq<(Seq<u8>, Seq<u8>)> {
    seq![(domain_separator_label(), label)]
}

/// Calls `merlin::Transcript::new`.  A new transcript starts by appending its
/// own label as a message under the label `dom-sep`; the contract says that
/// this message is all that the log holds.  The append panics on a label
/// whose length is no `u32`, so such a label is not admitted.
#[verifier::external_body]
fn transcript_new(label: &'static [u8]) -> (transcript: merlin::Transcript)
    requires
        label@.len() <= u32::MAX,
    ensures
        transcript_log(transcript) == fresh_log(label@),
{
    merlin::Transcript::new(label)
}

/// The derived `Clone` of `merlin::Transcript` copies the state of the
/// transcript as it is, so the copy has the log of its source.
pub assume_specification[ <merlin::Transcript as Clone>::clone ](transcript: &merlin::Transcript) -> (copy:
    merlin::Transcript)
    ensures
        transcript_log(copy) == transcript_log(*transcript),
;

/// Calls `merlin::Transcript::append_message`, which appends the message
/// under the label.  It panics on a message whose length is no `u32`, so such
/// a message is not admitted.
#[verifier::external_body]
fn transcript_append_message(transcript: &mut merlin::Transcript, label: &'static [u8], message: &[u8])
    requires
        message@.len() <= u32::MAX,
    ensures
        transcript_log(*final(transcript)) == transcript_log(*old(transcript)).push((label@, message@)),
{
    transcript.append_message(label, message)
}

/// Calls `merlin::Transcript::append_u64`, which appends the eight bytes of
/// the number, least significant first, as a message under the label.
#[verifier::external_body]
fn transcript_append_u64(transcript: &mut merlin::Transcript, label: &'static [u8], value: u64)
    ensures
        transcript_log(*final(transcript)) == transcript_log(*old(transcript)).push(
            (label@, spec_u64_to_le_bytes(value)),
        ),
{
    transcript.append_u64(label, value)
}

/// A transcript that can be assembled from values and then signed.
pub trait SignableTranscript: Sized {
    /// What has been appended to the transcript so far.
    spec fn log(&self) -> Seq<(Seq<u8>, Seq<u8>)>;

    /// A new transcript for the extra data that signing needs.  It does not
    /// depend on what this transcript holds.
    fn make_extra_transcript(&self) -> (extra: Self)
        ensures
            extra.log() == fresh_log(extra_transcript_label()),
    ;

    /// Appends a number under `label`, as its eight bytes, least significant
    /// first.
    fn attach_u64(self, label: &'static [u8], value: u64) -> (extended: Self)
        ensures
            extended.log() == self.log().push((label@, spec_u64_to_le_bytes(value))),
    ;

    /// Appends the bytes of `message` under `label`.
    fn attach_raw_data(self, label: &'static [u8], message: &[u8]) -> (extended: Self)
        requires
            message@.len() <= u32::MAX,
        ensures
            extended.log() == self.log().push((label@, message@)),
    ;
}

/// A transcript without a source of randomness of its own.
#[must_use]
#[derive(Clone)]
pub struct VRFTranscript {
    transcript: merlin::Transcript,
}

impl VRFTranscript {
    /// What has been appended to the transcript so far.
    pub closed spec fn spec_log(&self) -> Seq<(Seq<u8>, Seq<u8>)> {
        transcript_log(self.transcript)
    }

    /// A transcript that holds nothing but its own label.  The length of the
    /// label must fit in 32 bits, as that of every message must.
    pub fn new(label: &'static [u8]) -> (transcript: Self)
        requires
            label@.len() <= u32::MAX,
        ensures
            transcript.spec_log() == fresh_log(label@),
    {
        VRFTranscript { transcript: transcript_new(label) }
    }

    /// Hands out the transcript of the hashing library.
    pub fn take(self) -> (transcript: merlin::Transcript)
        ensures
            transcript_log(transcript) == self.spec_log(),
    {
        self.transcript
    }
}

impl SignableTranscript for VRFTranscript {
    open spec fn log(&self) -> Seq<(Seq<u8>, Seq<u8>)> {
        self.spec_log()
    }

    fn make_extra_transcript(&self) -> (extra: Self) {
        assert([86u8, 82u8, 70u8]@ =~= extra_transcript_label());
        VRFTranscript::new(array_as_slice(&[86u8, 82u8, 70u8]))
    }

    fn attach_u64(self, label: &'static [u8], value: u64) -> (extended: Self) {
        let mut inner = self.transcript;
        transcript_append_u64(&mut inner, label, value);
        VRFTranscript { transcript: inner }
    }

    fn attach_raw_data(self, label: &'static [u8], message: &[u8]) -> (extended: Self) {
        let mut inner = self.transcript;
        transcript_append_message(&mut inner, label, message);
        VRFTranscript { transcript: inner }
    }
}

} // verus!
