//! BT.601 conversion over concrete colours, including the float
//! reference conversion in the opposite direction.

use h263::yuv::{yuv420_to_rgba, yuv_to_rgb_pixel};

/// Convert one YCbCr triple to RGB.
fn yuv_to_rgb(yuv: (u8, u8, u8)) -> (u8, u8, u8) {
    yuv_to_rgb_pixel(yuv.0, yuv.1, yuv.2)
}

/// The inverse conversion, for testing purposes only.
fn rgb_to_yuv(rgb: (u8, u8, u8)) -> (u8, u8, u8) {
    let (red, green, blue) = rgb;
    let (red, green, blue) = (red as f32, green as f32, blue as f32);

    let y = 16.0 + (65.481 * red) / 255.0 + (128.553 * green) / 255.0 + (24.966 * blue) / 255.0;
    let u = 128.0 - (37.797 * red) / 255.0 - (74.203 * green) / 255.0 + (112.0 * blue) / 255.0;
    let v = 128.0 + (112.0 * red) / 255.0 - (93.786 * green) / 255.0 - (18.214 * blue) / 255.0;

    (y.round() as u8, u.round() as u8, v.round() as u8)
}

#[test]
fn test_yuv_to_rgb() {
    // From the H.263 Rec.:
    // Black = 16
    // White = 235
    // Zero colour difference = 128
    // Peak colour difference = 16 and 240

    // not quite black
    assert_eq!(yuv_to_rgb((17, 128, 128)), (1, 1, 1));
    // exactly black
    assert_eq!(yuv_to_rgb((16, 128, 128)), (0, 0, 0));
    // and clamping also works
    assert_eq!(yuv_to_rgb((15, 128, 128)), (0, 0, 0));
    assert_eq!(yuv_to_rgb((0, 128, 128)), (0, 0, 0));

    // not quite white
    assert_eq!(yuv_to_rgb((234, 128, 128)), (254, 254, 254));
    // exactly white
    assert_eq!(yuv_to_rgb((235, 128, 128)), (255, 255, 255));
    // and clamping also works
    assert_eq!(yuv_to_rgb((236, 128, 128)), (255, 255, 255));
    assert_eq!(yuv_to_rgb((255, 128, 128)), (255, 255, 255));

    // (16 + 235) / 2 = 125.5, for middle grays
    assert_eq!(yuv_to_rgb((125, 128, 128)), (127, 127, 127));
    assert_eq!(yuv_to_rgb((126, 128, 128)), (128, 128, 128));
}

#[test]
fn test_rgb_to_yuv() {
    // black is Y=16
    assert_eq!(rgb_to_yuv((0, 0, 0)), (16, 128, 128));
    assert_eq!(rgb_to_yuv((1, 1, 1)), (17, 128, 128));

    // white is Y=235
    assert_eq!(rgb_to_yuv((254, 254, 254)), (234, 128, 128));
    assert_eq!(rgb_to_yuv((255, 255, 255)), (235, 128, 128));

    assert_eq!(
        rgb_to_yuv((255, 0, 0)),
        (81, 90, 240) // 240 is the full color difference
    );
    assert_eq!(rgb_to_yuv((0, 255, 0)), (145, 54, 34));
    assert_eq!(
        rgb_to_yuv((0, 0, 255)),
        (41, 240, 110) // 240 is the full color difference
    );

    assert_eq!(
        rgb_to_yuv((0, 255, 255)),
        (170, 166, 16) // 16 is the full color difference
    );
    assert_eq!(rgb_to_yuv((255, 0, 255)), (106, 202, 222));
    assert_eq!(
        rgb_to_yuv((255, 255, 0)),
        (210, 16, 146) // 16 is the full color difference
    );
}

#[test]
fn test_rgb_yuv_rgb_roundtrip_sanity() {
    assert_eq!(yuv_to_rgb(rgb_to_yuv((0, 0, 0))), (0, 0, 0));
    assert_eq!(yuv_to_rgb(rgb_to_yuv((127, 127, 127))), (127, 127, 127));
    assert_eq!(yuv_to_rgb(rgb_to_yuv((128, 128, 128))), (128, 128, 128));
    assert_eq!(yuv_to_rgb(rgb_to_yuv((255, 255, 255))), (255, 255, 255));

    assert_eq!(
        yuv_to_rgb(rgb_to_yuv((255, 0, 0))),
        (254, 0, 0) // !!! there is a rounding error here
    );
    assert_eq!(
        yuv_to_rgb(rgb_to_yuv((0, 255, 0))),
        (0, 255, 1) // !!! there is a rounding error here
    );
    assert_eq!(
        yuv_to_rgb(rgb_to_yuv((0, 0, 255))),
        (0, 0, 255) // there is NO rounding error here
    );

    assert_eq!(
        yuv_to_rgb(rgb_to_yuv((0, 255, 255))),
        (1, 255, 255) // !!! there is a rounding error here
    );
    assert_eq!(
        yuv_to_rgb(rgb_to_yuv((255, 0, 255))),
        (255, 0, 254) // !!! there is a rounding error here
    );
    assert_eq!(
        yuv_to_rgb(rgb_to_yuv((255, 255, 0))),
        (255, 255, 0) // there is NO rounding error here
    );

    // the "tab10" palette:
    for rgb in [
        (31, 119, 180),
        (255, 127, 14),
        (44, 160, 44),
        (219, 39, 40),
        (148, 103, 189),
        (140, 86, 75),
        (227, 119, 194),
        (127, 127, 127),
        (188, 189, 34),
        (23, 190, 207),
    ] {
        let rgb2 = yuv_to_rgb(rgb_to_yuv(rgb));
        // Allowing for a difference of at most 1 on each component in both directions,
        // to account for the limited precision in YUV form, and two roundings
        assert!((rgb.0 as i32 - rgb2.0 as i32).abs() <= 1);
        assert!((rgb.1 as i32 - rgb2.1 as i32).abs() <= 1);
        assert!((rgb.2 as i32 - rgb2.2 as i32).abs() <= 1);
    }
}

#[test]
fn test_yuv420_to_rgba_tiny() {
    // empty picture
    assert_eq!(yuv420_to_rgba(&vec![], &vec![], &vec![], 0, 0), vec![0u8; 0]);

    // a single pixel picture
    assert_eq!(
        yuv420_to_rgba(&vec![125u8], &vec![128u8], &vec![128u8], 1, 1),
        vec![127u8, 127u8, 127u8, 255u8]
    );

    // a 2x2 grey picture with a single chroma sample (well, one Cb and one Cr)
    assert_eq!(
        yuv420_to_rgba(&vec![125u8, 125u8, 125u8, 125u8], &vec![128u8], &vec![128u8], 2, 1),
        vec![
            127u8, 127u8, 127u8, 255u8, 127u8, 127u8, 127u8, 255u8,
            127u8, 127u8, 127u8, 255u8, 127u8, 127u8, 127u8, 255u8,
        ]
    );

    // a 2x2 black-and-white checkerboard picture
    assert_eq!(
        yuv420_to_rgba(&vec![16u8, 235u8, 235u8, 16u8], &vec![128u8], &vec![128u8], 2, 1),
        vec![
              0u8,   0u8,   0u8, 255u8, 255u8, 255u8, 255u8, 255u8,
            255u8, 255u8, 255u8, 255u8,   0u8,   0u8,   0u8, 255u8,
        ]
    );

    // a 3x2 picture, black on the left, white on the right, grey in the middle
    assert_eq!(
        yuv420_to_rgba(&vec![0u8, 125u8, 235u8,  0u8, 125u8, 235u8], &vec![128u8, 128u8, ], &vec![128u8, 128u8,], 3, 2),
        vec![
              0u8,   0u8,   0u8, 255u8,  127u8, 127u8, 127u8, 255u8,  255u8, 255u8, 255u8, 255u8,
              0u8,   0u8,   0u8, 255u8,  127u8, 127u8, 127u8, 255u8,  255u8, 255u8, 255u8, 255u8,
        ]
    );

    // notes:
    // (81, 90, 240) is full red in YUV
    // (145, 54, 34) is full green in YUV

    // A 3x3 picture, red on the top, green on the bottom.
    assert_eq!(
        yuv420_to_rgba(
            &vec![ 81u8,  81u8,  81u8,
              125u8, 125u8, 125u8,
              145u8, 145u8, 145u8],
            &vec![ 90u8,  90u8,
               54u8,  54u8],
            &vec![240u8,  240u8,
               34u8,  34u8],
            3, 2),
        vec![
            254u8,   0u8,   0u8, 255u8,  254u8,   0u8,   0u8, 255u8,  254u8,   0u8,   0u8, 255u8, // red, with rounding error
            255u8,  51u8,  50u8, 255u8,  255u8,  51u8,  50u8, 255u8,  255u8,  51u8,  50u8, 255u8, // orangish
              0u8, 255u8,   1u8, 255u8,    0u8, 255u8,   1u8, 255u8,    0u8, 255u8,   1u8, 255u8, // green, with rounding error
        ]
    );
    // The middle row looks fairly off when converted back to YUV: should be (125, 90, 240), but is (112, 97, 218)
    // However, when converted back again to RGB, these are (255, 51, 50) and (255, 51, 49), respectively. So, close enough.

    // A 3x3 picture, red on the left, green on the right. Transpose of the above.
    assert_eq!(
        yuv420_to_rgba(
            &vec![ 81u8, 125u8, 145u8,
               81u8, 125u8, 145u8,
               81u8, 125u8, 145u8],
            &vec![ 90u8,  54u8,
               90u8,  54u8],
            &vec![240u8,   34u8,
              240u8,   34u8],
            3, 2),
        vec![
            254u8,   0u8,   0u8, 255u8,  255u8,  51u8,  50u8, 255u8,   0u8, 255u8,   1u8, 255u8,
            254u8,   0u8,   0u8, 255u8,  255u8,  51u8,  50u8, 255u8,   0u8, 255u8,   1u8, 255u8,
            254u8,   0u8,   0u8, 255u8,  255u8,  51u8,  50u8, 255u8,   0u8, 255u8,   1u8, 255u8,
        ]
    );

    // The middle row/column of pixels use the top/left row/column of chroma samples:
    assert_eq!(yuv_to_rgb((125, 90, 240)), (255, 51, 50));
}

#[test]
fn test_yuv420_to_rgba_medium() {
    // A 4x4 picture, red on the top, green on the bottom.
    // This should be done by SIMD now.
    assert_eq!(
        yuv420_to_rgba(
            &vec![ 81u8,  81u8,  81u8,  81u8,
               81u8,  81u8,  81u8,  81u8,
              145u8, 145u8, 145u8, 145u8,
              145u8, 145u8, 145u8, 145u8],
            &vec![ 90u8,  90u8,
               54u8,  54u8],
            &vec![240u8,  240u8,
               34u8,  34u8],
            4, 2),
        vec![
            254u8,   0u8,   0u8, 255u8,  254u8,   0u8,   0u8, 255u8,  254u8,   0u8,   0u8, 255u8, 254u8,   0u8,   0u8, 255u8, // red, with rounding error
            254u8,   0u8,   0u8, 255u8,  254u8,   0u8,   0u8, 255u8,  254u8,   0u8,   0u8, 255u8, 254u8,   0u8,   0u8, 255u8, // red, with rounding error
              0u8, 255u8,   1u8, 255u8,    0u8, 255u8,   1u8, 255u8,    0u8, 255u8,   1u8, 255u8,   0u8, 255u8,   1u8, 255u8, // green, with rounding error
              0u8, 255u8,   1u8, 255u8,    0u8, 255u8,   1u8, 255u8,    0u8, 255u8,   1u8, 255u8,   0u8, 255u8,   1u8, 255u8, // green, with rounding error
        ]
    );

    // A 5x4 picture, red on the top, green on the bottom.
    // This should be done by SIMD now, plus one row of remainder.
    assert_eq!(
        yuv420_to_rgba(
            &vec![ 81u8,  81u8,  81u8,  81u8,  81u8,
               81u8,  81u8,  81u8,  81u8,  81u8,
              145u8, 145u8, 145u8, 145u8, 145u8,
              145u8, 145u8, 145u8, 145u8, 145u8],
            &vec![ 90u8,  90u8,  90u8,
               54u8,  54u8,  54u8],
            &vec![240u8,  240u8, 240u8,
               34u8,  34u8,  34u8],
            5, 3),
        vec![
            254u8,   0u8,   0u8, 255u8,  254u8,   0u8,   0u8, 255u8,  254u8,   0u8,   0u8, 255u8, 254u8,   0u8,   0u8, 255u8, 254u8,   0u8,   0u8, 255u8,
            254u8,   0u8,   0u8, 255u8,  254u8,   0u8,   0u8, 255u8,  254u8,   0u8,   0u8, 255u8, 254u8,   0u8,   0u8, 255u8, 254u8,   0u8,   0u8, 255u8,
              0u8, 255u8,   1u8, 255u8,    0u8, 255u8,   1u8, 255u8,    0u8, 255u8,   1u8, 255u8,   0u8, 255u8,   1u8, 255u8,   0u8, 255u8,   1u8, 255u8,
              0u8, 255u8,   1u8, 255u8,    0u8, 255u8,   1u8, 255u8,    0u8, 255u8,   1u8, 255u8,   0u8, 255u8,   1u8, 255u8,   0u8, 255u8,   1u8, 255u8,
        ]
    );

    // Same as before, but the last column is upside down, to check if it uses the right values.
    assert_eq!(
        yuv420_to_rgba(
            &vec![ 81u8,  81u8,  81u8,  81u8, 145u8,
               81u8,  81u8,  81u8,  81u8, 145u8,
              145u8, 145u8, 145u8, 145u8,  81u8,
              145u8, 145u8, 145u8, 145u8,  81u8],
            &vec![ 90u8,  90u8,  54u8,
               54u8,  54u8,  90u8],
            &vec![240u8, 240u8,  34u8,
               34u8,  34u8, 240u8],
            5, 3),
        vec![
            254u8,   0u8,   0u8, 255u8,  254u8,   0u8,   0u8, 255u8,  254u8,   0u8,   0u8, 255u8, 254u8,   0u8,   0u8, 255u8,   0u8, 255u8,   1u8, 255u8, // red, with rounding error
            254u8,   0u8,   0u8, 255u8,  254u8,   0u8,   0u8, 255u8,  254u8,   0u8,   0u8, 255u8, 254u8,   0u8,   0u8, 255u8,   0u8, 255u8,   1u8, 255u8, // red, with rounding error
              0u8, 255u8,   1u8, 255u8,    0u8, 255u8,   1u8, 255u8,    0u8, 255u8,   1u8, 255u8,   0u8, 255u8,   1u8, 255u8, 254u8,   0u8,   0u8, 255u8, // green, with rounding error
              0u8, 255u8,   1u8, 255u8,    0u8, 255u8,   1u8, 255u8,    0u8, 255u8,   1u8, 255u8,   0u8, 255u8,   1u8, 255u8, 254u8,   0u8,   0u8, 255u8, // green, with rounding error
        ]
    );
}
