use nspray::dither::{dither, dither_image, IMG_HEIGHT, IMG_WIDTH};

#[test]
fn exact_levels_come_out_divided_by_eight() {
    let w = IMG_WIDTH as usize;
    let h = IMG_HEIGHT as usize;
    let mut input = vec![0u8; w * h * 3];
    for (i, v) in input.iter_mut().enumerate() {
        *v = if (i * 7 + i / 5) % 3 == 0 { 255 } else { 0 };
    }
    let mut out = vec![0xabcdu16; w * h];
    dither(&input, &mut out);
    for p in 0..w * h {
        let expect = (input[3 * p] as u16 / 8) << 10 | (input[3 * p + 1] as u16 / 8) << 5 | input[3 * p + 2] as u16 / 8;
        assert_eq!(out[p], expect, "{}", p);
    }
}

#[test]
fn multiples_of_eight_are_not_exact() {
    let input = vec![8u8; 3];
    let mut out = vec![0u16; 1];
    dither_image(&input, &mut out, 1, 1);
    assert_eq!(out[0], 0);
}

#[test]
fn error_reaches_right_neighbour() {
    let input = vec![7u8, 7, 7, 8, 8, 8];
    let mut out = vec![0u16; 2];
    dither_image(&input, &mut out, 2, 1);
    assert_eq!(out[0], 0);
    assert_eq!(out[1], 1024 + 32 + 1);
}

#[test]
fn error_reaches_next_row() {
    // Alone, a level of 8 quantizes to 0; the residual of 7 above it lifts it to 1.
    let input = vec![7u8, 7, 7, 8, 8, 8];
    let mut out = vec![0u16; 2];
    dither_image(&input, &mut out, 1, 2);
    assert_eq!(out[0], 0);
    assert_eq!(out[1], 1024 + 32 + 1);
}

#[test]
fn full_white_and_black() {
    let input = vec![255u8, 255, 255, 0, 0, 0, 255, 0, 255];
    let mut out = vec![0u16; 3];
    dither_image(&input, &mut out, 3, 1);
    assert_eq!(out, vec![0x7fff, 0, 31 * 1024 + 31]);
}
