use gifpipe::frames::collect_frames;
use gifpipe::encode::encode_frames;
use gifpipe::errors::RuntimeError;

fn frame(width: u32, height: u32) -> engiffen::Image {
    let pixels = vec![[0u8, 0, 0, 255]; (width * height) as usize];
    engiffen::Image { pixels, width, height }
}

#[test]
fn collect_frames_keeps_decoded_ones_in_order() {
    let results = vec![Some(frame(1, 1)), None, Some(frame(2, 2)), None, Some(frame(3, 3))];
    let frames = collect_frames(results);
    assert_eq!(frames.len(), 3);
    assert_eq!(frames[0].width, 1);
    assert_eq!(frames[1].width, 2);
    assert_eq!(frames[2].width, 3);
}

#[test]
fn collect_frames_of_failures_only_is_empty() {
    let results: Vec<Option<engiffen::Image>> = vec![None, None];
    assert_eq!(collect_frames(results).len(), 0);
}

#[test]
fn encoding_no_frames_is_rejected() {
    let frames: Vec<engiffen::Image> = Vec::new();
    let out = "out.gif".to_string();
    match encode_frames(&frames, 10, &out) {
        Err(RuntimeError::Encode { detail }) => {
            assert_eq!(detail, "No frames sent for engiffening");
        },
        _ => panic!("expected an Encode error"),
    }
}

#[test]
fn encoding_two_frames_succeeds() {
    let frames = vec![frame(2, 2), frame(2, 2)];
    let out = "out.gif".to_string();
    let bytes = encode_frames(&frames, 10, &out).unwrap();
    assert!(!bytes.is_empty());
    // A GIF byte stream begins with the GIF signature.
    assert_eq!(&bytes[0..3], b"GIF");
}

#[test]
fn encoded_bytes_are_exactly_the_encoders_output() {
    let frames = vec![frame(2, 2), frame(2, 2), frame(2, 2)];
    let out = "out.gif".to_string();
    let bytes = encode_frames(&frames, 10, &out).unwrap();
    let gif = engiffen::engiffen(&frames, 10, engiffen::Quantizer::NeuQuant(1)).unwrap();
    let mut direct: Vec<u8> = Vec::new();
    gif.write(&mut direct).unwrap();
    assert_eq!(bytes, direct);
}

#[test]
fn mismatched_frame_sizes_are_rejected() {
    let frames = vec![frame(2, 2), frame(3, 2)];
    let out = "out.gif".to_string();
    match encode_frames(&frames, 10, &out) {
        Err(RuntimeError::Encode { detail }) => {
            assert_eq!(detail, "Frames don't have the same dimensions");
        },
        _ => panic!("expected an Encode error"),
    }
}
