use textview::bitmap::{BitmapRGBA8888, PixelSource, RasterBitmap};

fn px(out: &BitmapRGBA8888, x: u32, y: u32) -> (u8, u8, u8, u8) {
    let base = ((y * out.width + x) * 4) as usize;
    (
        out.pixel_data[base],
        out.pixel_data[base + 1],
        out.pixel_data[base + 2],
        out.pixel_data[base + 3],
    )
}

#[test]
fn gray_round_trip() {
    // Every channel of the output, alpha included, equals the source
    // coverage byte at each pixel.
    let data = vec![10u8, 20, 30, 200, 0, 255];
    let src = RasterBitmap {
        width: 3,
        height: 2,
        pitch: 3,
        mode: PixelSource::Gray,
        data: data.clone(),
    };
    let out = BitmapRGBA8888::new(&src).unwrap();
    assert_eq!(out.width, 3);
    assert_eq!(out.height, 2);
    assert_eq!(out.pitch, 12);
    for y in 0..2u32 {
        for x in 0..3u32 {
            let v = data[(y * 3 + x) as usize];
            assert_eq!(px(&out, x, y), (v, v, v, v));
        }
    }
}

#[test]
fn gray_respects_pitch_padding() {
    // Row stride exceeds the row's pixels; the padding bytes are skipped.
    let data = vec![1u8, 2, 99, 99, 3, 4, 99, 99];
    let src = RasterBitmap { width: 2, height: 2, pitch: 4, mode: PixelSource::Gray, data };
    let out = BitmapRGBA8888::new(&src).unwrap();
    assert_eq!(px(&out, 0, 0), (1, 1, 1, 1));
    assert_eq!(px(&out, 1, 0), (2, 2, 2, 2));
    assert_eq!(px(&out, 0, 1), (3, 3, 3, 3));
    assert_eq!(px(&out, 1, 1), (4, 4, 4, 4));
}

#[test]
fn mono_msb_first() {
    // 0b1010_0001: pixels 0, 2 and 7 set -> opaque black; others fully
    // transparent.
    let src = RasterBitmap {
        width: 8,
        height: 1,
        pitch: 1,
        mode: PixelSource::Mono,
        data: vec![0b1010_0001u8],
    };
    let out = BitmapRGBA8888::new(&src).unwrap();
    for x in 0..8u32 {
        let expected = match x {
            0 | 2 | 7 => (0, 0, 0, 255),
            _ => (0, 0, 0, 0),
        };
        assert_eq!(px(&out, x, 0), expected, "pixel {x}");
    }
}

#[test]
fn mono_partial_byte() {
    // A width that is not a multiple of 8 still reads the partial byte.
    let src = RasterBitmap {
        width: 3,
        height: 1,
        pitch: 2,
        mode: PixelSource::Mono,
        data: vec![0b0100_0000u8, 0],
    };
    let out = BitmapRGBA8888::new(&src).unwrap();
    assert_eq!(px(&out, 0, 0), (0, 0, 0, 0));
    assert_eq!(px(&out, 1, 0), (0, 0, 0, 255));
    assert_eq!(px(&out, 2, 0), (0, 0, 0, 0));
}

#[test]
fn gray2_scaling() {
    // 2-bit values 0..=3 scale to 0, 85, 170, 255.
    let src = RasterBitmap {
        width: 4,
        height: 1,
        pitch: 1,
        mode: PixelSource::Gray2,
        data: vec![0b00_01_10_11u8],
    };
    let out = BitmapRGBA8888::new(&src).unwrap();
    assert_eq!(px(&out, 0, 0), (0, 0, 0, 0));
    assert_eq!(px(&out, 1, 0), (85, 85, 85, 85));
    assert_eq!(px(&out, 2, 0), (170, 170, 170, 170));
    assert_eq!(px(&out, 3, 0), (255, 255, 255, 255));
}

#[test]
fn gray4_scaling() {
    // 4-bit values scale by 17: 0x1 -> 17, 0xF -> 255.
    let src = RasterBitmap {
        width: 2,
        height: 1,
        pitch: 1,
        mode: PixelSource::Gray4,
        data: vec![0x1Fu8],
    };
    let out = BitmapRGBA8888::new(&src).unwrap();
    assert_eq!(px(&out, 0, 0), (17, 17, 17, 17));
    assert_eq!(px(&out, 1, 0), (255, 255, 255, 255));
}

#[test]
fn lcd_three_bytes_per_pixel() {
    let src = RasterBitmap {
        width: 2,
        height: 1,
        pitch: 6,
        mode: PixelSource::Lcd,
        data: vec![1u8, 2, 3, 4, 5, 6],
    };
    let out = BitmapRGBA8888::new(&src).unwrap();
    assert_eq!(px(&out, 0, 0), (1, 2, 3, 255));
    assert_eq!(px(&out, 1, 0), (4, 5, 6, 255));
}

#[test]
fn bgra_reordered_to_rgba() {
    let src = RasterBitmap {
        width: 1,
        height: 1,
        pitch: 4,
        mode: PixelSource::Bgra,
        data: vec![10u8, 20, 30, 40],
    };
    let out = BitmapRGBA8888::new(&src).unwrap();
    assert_eq!(px(&out, 0, 0), (30, 20, 10, 40));
}

#[test]
fn zero_sized_becomes_transparent_placeholder() {
    let src = RasterBitmap {
        width: 0,
        height: 0,
        pitch: 0,
        mode: PixelSource::Gray,
        data: vec![],
    };
    let out = BitmapRGBA8888::new(&src).unwrap();
    assert_eq!(out.width, 1);
    assert_eq!(out.height, 1);
    assert_eq!(out.pitch, 4);
    assert_eq!(px(&out, 0, 0), (0, 0, 0, 0));
}

#[test]
fn negative_pitch_rejected() {
    let src = RasterBitmap {
        width: 2,
        height: 1,
        pitch: -2,
        mode: PixelSource::Gray,
        data: vec![1u8, 2],
    };
    assert!(BitmapRGBA8888::new(&src).is_none());
}

#[test]
fn vertical_subpixel_rejected() {
    let src = RasterBitmap {
        width: 1,
        height: 1,
        pitch: 3,
        mode: PixelSource::LcdV,
        data: vec![1u8, 2, 3],
    };
    assert!(BitmapRGBA8888::new(&src).is_none());
}

#[test]
fn unknown_mode_rejected() {
    let src = RasterBitmap {
        width: 1,
        height: 1,
        pitch: 1,
        mode: PixelSource::Unknown,
        data: vec![1u8],
    };
    assert!(BitmapRGBA8888::new(&src).is_none());
}

#[test]
fn short_buffer_rejected() {
    let src = RasterBitmap {
        width: 4,
        height: 2,
        pitch: 4,
        mode: PixelSource::Gray,
        data: vec![0u8; 7],
    };
    assert!(BitmapRGBA8888::new(&src).is_none());
}
