use node_core::vrf_transcript::{SignableTranscript, VRFTranscript};
use rand::{Rng, SeedableRng};
use rand_chacha::ChaChaRng;

#[test]
fn manual_vs_assembled() {
    // build first transcript by manually filling values
    let mut manual_transcript = merlin::Transcript::new(b"initial");
    manual_transcript.append_message(b"abc", b"xyz");
    manual_transcript.append_u64(b"rx42", 424242);

    // build the second transcript using the assembler
    let assembled_transcript =
        VRFTranscript::new(b"initial").attach_raw_data(b"abc", b"xyz").attach_u64(b"rx42", 424242);

    // build a random number generator using each transcript and ensure they both arrive to the same values
    let mut g1 = manual_transcript.build_rng().finalize(&mut ChaChaRng::from_seed([0u8; 32]));
    let mut g2 = assembled_transcript.take().build_rng().finalize(&mut ChaChaRng::from_seed([0u8; 32]));

    for _ in 0..100 {
        assert_eq!(g1.gen::<u64>(), g2.gen::<u64>());
    }
}

fn challenge(transcript: merlin::Transcript) -> [u8; 32] {
    let mut transcript = transcript;
    let mut out = [0u8; 32];
    transcript.challenge_bytes(b"challenge", &mut out);
    out
}

#[test]
fn attached_data_changes_the_transcript() {
    let plain = VRFTranscript::new(b"initial");
    let with_data = VRFTranscript::new(b"initial").attach_raw_data(b"abc", b"xyz");
    let with_number = VRFTranscript::new(b"initial").attach_u64(b"abc", 7);
    let a = challenge(plain.take());
    let b = challenge(with_data.take());
    let c = challenge(with_number.take());
    assert_ne!(a, b);
    assert_ne!(a, c);
    assert_ne!(b, c);
}

#[test]
fn number_is_attached_as_its_little_endian_bytes() {
    let by_number = VRFTranscript::new(b"initial").attach_u64(b"n", 0x0102030405060708);
    let by_bytes = VRFTranscript::new(b"initial").attach_raw_data(b"n", &[8, 7, 6, 5, 4, 3, 2, 1]);
    assert_eq!(challenge(by_number.take()), challenge(by_bytes.take()));
}

#[test]
fn extra_transcript_is_labelled_vrf() {
    let base = VRFTranscript::new(b"initial").attach_u64(b"n", 1);
    let extra = base.make_extra_transcript();
    let expected = merlin::Transcript::new(b"VRF");
    assert_eq!(challenge(extra.take()), challenge(expected));
    assert_ne!(challenge(base.take()), challenge(merlin::Transcript::new(b"VRF")));
}

#[test]
fn a_copy_of_a_transcript_goes_its_own_way() {
    let base = VRFTranscript::new(b"initial").attach_u64(b"n", 1);
    let copy = base.clone();
    assert_eq!(challenge(base.clone().take()), challenge(copy.take()));
    let extended = base.clone().attach_u64(b"m", 2);
    assert_ne!(challenge(extended.take()), challenge(base.take()));
}
