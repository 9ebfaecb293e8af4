//! Encoding: from decoded frames and a frame rate to GIF bytes.
//!
//! The encoder itself is `engiffen`; this module calls it behind
//! trusted wrappers and routes its failures into the error taxonomy.

use vstd::prelude::*;
use crate::errors::{RuntimeError, ErrorModel};

verus! {

#[verifier::external_type_specification]
#[verifier::external_body]
pub struct ExGif(engiffen::Gif);

/// Whether the encoder accepts these frames at this rate: it rejects an
/// empty frame set and mismatched frame dimensions, nothing else.
pub uninterp spec fn enc_ok(frames: Seq<engiffen::Image>, fps: usize) -> bool;

/// The GIF the encoder produces when it accepts these frames.
pub uninterp spec fn gif_of(frames: Seq<engiffen::Image>, fps: usize) -> engiffen::Gif;

/// The byte stream a GIF serialises to.
pub uninterp spec fn bytes_of(g: engiffen::Gif) -> Seq<u8>;

/// Relies on `engiffen::engiffen`: encodes the frames at `fps` frames
/// per second into an animated GIF, quantizing with a full-sample
/// NeuQuant palette.  The call is a function of its arguments alone,
/// named `gif_of`; it accepts exactly the inputs named by `enc_ok`, and
/// its only rejections are an empty frame set and mismatched frame
/// dimensions, each with a fixed display text.  It divides by the frame
/// rate, so a zero rate is kept out.
#[verifier::external_body]
fn encode_raw(frames: &Vec<engiffen::Image>, fps: usize) -> (r: Result<engiffen::Gif, String>)
    requires
        fps >= 1,
    ensures
        r is Ok <==> enc_ok(frames@, fps),
        r matches Ok(g) ==> g == gif_of(frames@, fps),
        frames@.len() == 0 ==> (r is Err && r->Err_0@ == "No frames sent for engiffening"@),
        r matches Err(e) ==> (e@ == "No frames sent for engiffening"@ || e@
            == "Frames don't have the same dimensions"@),
{
    match engiffen::engiffen(frames.as_slice(), fps, engiffen::Quantizer::NeuQuant(1)) {
        Ok(gif) => Ok(gif),
        Err(e) => Err(format!("{}", e)),
    }
}

/// Relies on `engiffen::Gif::write`: serialises the GIF into an
/// in-memory buffer.  Its bytes are a function of the GIF alone, named
/// `bytes_of`, and its only failures are io errors, which cannot occur
/// writing to a `Vec`; the dead failure branch is carried as its
/// diagnostic text.
#[verifier::external_body]
fn gif_bytes(gif: &engiffen::Gif) -> (r: Result<Vec<u8>, String>)
    ensures
        r is Ok,
        r matches Ok(b) ==> b@ == bytes_of(*gif),
{
    let mut out: Vec<u8> = Vec::new();
    match gif.write(&mut out) {
        Ok(()) => Ok(out),
        Err(e) => Err(format!("{}", e)),
    }
}

/// Encodes the frames into the bytes of one animated GIF.
///
/// Success is owed exactly when the encoder accepts the frames, and the
/// bytes are then exactly the serialised form of its GIF.  An empty
/// frame set is rejected, never written out as an empty file, and every
/// rejection becomes an `Encode` error with the encoder's diagnostic
/// kept verbatim; a failure while laying out the bytes would be charged
/// to the destination, as the write step is.
pub fn encode_frames(frames: &Vec<engiffen::Image>, fps: usize, out_file: &String) -> (r: Result<
    Vec<u8>,
    RuntimeError,
>)
    requires
        fps >= 1,
    ensures
        r is Ok <==> enc_ok(frames@, fps),
        r matches Ok(b) ==> b@ == bytes_of(gif_of(frames@, fps)),
        frames@.len() == 0 ==> (r matches Err(e) && e@ == ErrorModel::Encode(
            "No frames sent for engiffening"@,
        )),
        r matches Err(e) ==> (e@ matches ErrorModel::Encode(d) && (d
            == "No frames sent for engiffening"@ || d == "Frames don't have the same dimensions"@)),
{
    match encode_raw(frames, fps) {
        Ok(gif) => match gif_bytes(&gif) {
            Ok(bytes) => Ok(bytes),
            Err(_) => Err(RuntimeError::DestinationUnwritable { dest: out_file.clone() }),
        },
        Err(detail) => Err(RuntimeError::Encode { detail }),
    }
}

} // verus!
