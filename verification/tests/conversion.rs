use crtcam::pixel::{blue_sample, convert_frame, green_sample, red_sample};

#[test]
fn black_with_neutral_chroma() {
    let raw = vec![16u8, 128, 16, 128];
    let rgb = convert_frame(&raw);
    assert_eq!(rgb, vec![16u8, 16, 16, 16, 16, 16]);
}

#[test]
fn white_with_neutral_chroma() {
    let raw = vec![235u8, 128, 235, 128];
    let rgb = convert_frame(&raw);
    assert_eq!(rgb, vec![235u8, 235, 235, 235, 235, 235]);
}

#[test]
fn neutral_chroma_passes_luma_through() {
    for y in 0u8..=255 {
        assert_eq!(red_sample(y, 128), y);
        assert_eq!(green_sample(y, 128, 128), y);
        assert_eq!(blue_sample(y, 128), y);
    }
}

#[test]
fn extreme_chroma_clamps_without_wrapping() {
    // Y=128, U=255, V=0: blue saturates high, red saturates low, and
    // green lands at its exact fixed-point value.
    assert_eq!(red_sample(128, 0), 0);
    assert_eq!(blue_sample(128, 255), 255);
    assert_eq!(green_sample(128, 255, 0), 175);
    let raw = vec![128u8, 255, 128, 0];
    let rgb = convert_frame(&raw);
    assert_eq!(rgb, vec![0u8, 175, 255, 0, 175, 255]);
}

#[test]
fn all_corner_chroma_values_stay_in_range() {
    for &u in &[0u8, 255] {
        for &v in &[0u8, 255] {
            for &y in &[0u8, 128, 255] {
                // Returned channels are u8 by construction; the point is
                // that none of these calls wraps or panics.
                let _ = red_sample(y, v);
                let _ = green_sample(y, u, v);
                let _ = blue_sample(y, u);
            }
        }
    }
}

#[test]
fn output_length_is_six_bytes_per_group() {
    for len in 0usize..32 {
        let raw = vec![100u8; len];
        let rgb = convert_frame(&raw);
        assert_eq!(rgb.len(), (len / 4) * 6);
    }
}

#[test]
fn trailing_partial_group_is_dropped() {
    let raw = vec![16u8, 128, 16, 128, 99, 99, 99];
    let rgb = convert_frame(&raw);
    assert_eq!(rgb, vec![16u8, 16, 16, 16, 16, 16]);
}

#[test]
fn groups_convert_in_input_order() {
    let raw = vec![16u8, 128, 16, 128, 235, 128, 235, 128];
    let rgb = convert_frame(&raw);
    assert_eq!(rgb, vec![16u8, 16, 16, 16, 16, 16, 235, 235, 235, 235, 235, 235]);
}

#[test]
fn conversion_is_deterministic() {
    let raw: Vec<u8> = (0u8..=255).collect();
    let first = convert_frame(&raw);
    for _ in 0..4 {
        assert_eq!(convert_frame(&raw), first);
    }
}
