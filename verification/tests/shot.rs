use wlrix_screenshot::geometry::Rect;
use wlrix_screenshot::shot::{ByteOrder, Image, PngError, Region, Shot, NO_MONITOR};

/// A monitor filled with one color, at a given place in the layout.
fn region(x: i32, y: i32, w: i32, h: i32, color: u32) -> Region {
    let mut pixels = Vec::with_capacity((w * h * 4) as usize);
    for _ in 0..w * h {
        pixels.extend_from_slice(&color.to_ne_bytes());
    }
    Region {
        rect: Rect::new(x, y, w, h),
        pixels,
    }
}

#[test]
fn one_monitor_bounds_itself() {
    let shot = Shot {
        regions: vec![region(0, 0, 4, 3, 0xff11_2233)],
    };
    assert_eq!(shot.bounds(), Rect::new(0, 0, 4, 3));
    assert_eq!(shot.pixel(3, 2), 0xff11_2233);
}

/// Two monitors side by side are one desktop, and the second's pixels are reached at its
/// own global coordinates rather than at zero.
#[test]
fn two_monitors_make_one_desktop() {
    let shot = Shot {
        regions: vec![
            region(0, 0, 4, 4, 0xffaa_0000),
            region(4, 0, 4, 4, 0xff00_bb00),
        ],
    };
    assert_eq!(shot.bounds(), Rect::new(0, 0, 8, 4));
    assert_eq!(shot.pixel(0, 0), 0xffaa_0000);
    assert_eq!(shot.pixel(4, 0), 0xff00_bb00);
    assert_eq!(shot.pixel(7, 3), 0xff00_bb00);
}

/// The whole reason global coordinates are used: a selection may straddle the seam.
#[test]
fn a_crop_can_span_two_monitors() {
    let shot = Shot {
        regions: vec![
            region(0, 0, 4, 4, 0xffaa_0000),
            region(4, 0, 4, 4, 0xff00_bb00),
        ],
    };
    let image = shot.crop(Rect::new(2, 1, 4, 2));
    assert_eq!((image.width, image.height), (4, 2));
    // Left half is the first monitor's red, right half the second's green.
    assert_eq!(&image.rgb[0..3], &[0xaa, 0x00, 0x00]);
    assert_eq!(&image.rgb[6..9], &[0x00, 0xbb, 0x00]);
}

/// Monitors at different heights leave a gap in the bounding box, and a crop over it must
/// produce something rather than run off the end of a buffer.
#[test]
fn a_gap_between_monitors_reads_as_black() {
    let shot = Shot {
        regions: vec![
            region(0, 0, 2, 4, 0xffaa_0000),
            region(2, 2, 2, 2, 0xff00_bb00),
        ],
    };
    assert_eq!(shot.bounds(), Rect::new(0, 0, 4, 4));
    // Top-right is covered by neither.
    assert_eq!(shot.pixel(3, 0), NO_MONITOR);
    let image = shot.crop(shot.bounds());
    assert_eq!(image.rgb.len(), 4 * 4 * 3);
}

#[test]
fn a_crop_outside_every_monitor_is_still_an_image() {
    let shot = Shot {
        regions: vec![region(0, 0, 2, 2, 0xffff_ffff)],
    };
    let image = shot.crop(Rect::new(100, 100, 2, 2));
    assert_eq!(image.rgb, vec![0; 2 * 2 * 3]);
}

#[test]
fn an_empty_selection_will_not_encode() {
    let shot = Shot {
        regions: vec![region(0, 0, 2, 2, 0xffff_ffff)],
    };
    assert!(shot.crop(Rect::new(0, 0, 0, 5)).encode_png().is_err());
}

/// The bytes really are a PNG, and the alpha channel really is gone.
#[test]
fn a_crop_encodes_to_a_png_without_alpha() {
    let shot = Shot {
        regions: vec![region(0, 0, 2, 2, 0x0012_3456)],
    };
    let png = shot.crop(Rect::new(0, 0, 2, 2)).encode_png().unwrap();
    assert_eq!(&png[..8], b"\x89PNG\r\n\x1a\n");
    let decoder = png::Decoder::new(std::io::Cursor::new(&png));
    let mut reader = decoder.read_info().unwrap();
    assert_eq!(reader.info().color_type, png::ColorType::Rgb);
    let mut buf = vec![0; reader.output_buffer_size().unwrap()];
    let info = reader.next_frame(&mut buf).unwrap();
    // The undefined 0x00 alpha byte of an Xrgb pixel never reaches the file.
    assert_eq!(&buf[..info.buffer_size()][..3], &[0x12, 0x34, 0x56]);
}

/// The size of an image is what can be counted.
#[test]
fn an_image_that_cannot_be_counted_will_not_encode() {
    let huge = Image { width: u32::MAX, height: u32::MAX, rgb: Vec::new() };
    assert!(!huge.can_encode());
    let small = Image { width: 2, height: 2, rgb: Vec::new() };
    assert!(small.can_encode());
}

/// An empty selection says so, and pixels that are not there are refused in the encoder's words.
#[test]
fn what_will_not_encode_says_why() {
    let empty = Image { width: 0, height: 5, rgb: Vec::new() };
    assert_eq!(empty.encode_png(), Err("the selection is empty".to_string()));
    let short = Image { width: 2, height: 2, rgb: vec![1, 2, 3] };
    let why = short.encode_png().unwrap_err();
    assert!(why.starts_with("could not write the PNG: "), "{}", why);
}

/// Each step of writing a PNG that can fail is told apart.
#[test]
fn each_failing_step_is_named() {
    assert_eq!(
        PngError::Header("x".to_string()).message(),
        "could not write the PNG header: x"
    );
    assert_eq!(PngError::Data("x".to_string()).message(), "could not write the PNG: x");
    assert_eq!(PngError::Finish("x".to_string()).message(), "could not finish the PNG: x");
}

/// Every pixel of a crop comes back out of the file, row by row.
#[test]
fn a_file_holds_the_pixels_of_its_crop() {
    let mut pixels = Vec::new();
    for i in 0u32..12 {
        pixels.extend_from_slice(&(0xff00_0000 + i * 0x01_02_03).to_ne_bytes());
    }
    let shot = Shot { regions: vec![Region { rect: Rect::new(-1, 5, 4, 3), pixels }] };
    let image = shot.crop(Rect::new(0, 6, 2, 2));
    let file = image.encode_png().unwrap();
    let mut reader = png::Decoder::new(std::io::Cursor::new(&file)).read_info().unwrap();
    let mut buf = vec![0; reader.output_buffer_size().unwrap()];
    let info = reader.next_frame(&mut buf).unwrap();
    assert_eq!((info.width, info.height), (2, 2));
    // The second and third pixel of the second and third row.
    assert_eq!(&buf[..12], &[5, 10, 15, 6, 12, 18, 9, 18, 27, 10, 20, 30]);
    assert_eq!(&buf[..12], &image.rgb[..]);
}

/// Where two monitors overlap, the last one wins, in whichever byte order.
#[test]
fn the_last_monitor_wins() {
    let shot = Shot {
        regions: vec![region(0, 0, 4, 4, 0xffaa_0000), region(2, 2, 4, 4, 0xff00_bb00)],
    };
    assert_eq!(shot.pixel(2, 2), 0xff00_bb00);
    assert_eq!(shot.pixel(1, 1), 0xffaa_0000);
}

/// The same bytes are another number in the other byte order.
#[test]
fn bytes_are_read_in_a_byte_order() {
    let region = Region { rect: Rect::new(0, 0, 1, 1), pixels: vec![1, 2, 3, 4] };
    assert_eq!(region.at(ByteOrder::Little, 0, 0), Some(0x0403_0201));
    assert_eq!(region.at(ByteOrder::Big, 0, 0), Some(0x0102_0304));
    assert_eq!(region.at(ByteOrder::Little, 1, 0), None);
    let native = if 1u16.to_ne_bytes() == [1, 0] { ByteOrder::Little } else { ByteOrder::Big };
    assert_eq!(ByteOrder::native(), native);
    assert_eq!(ByteOrder::shown_by(u16::from_le_bytes([1, 0])), ByteOrder::Little);
    assert_eq!(ByteOrder::shown_by(u16::from_be_bytes([1, 0])), ByteOrder::Big);
    let shot = Shot { regions: vec![region] };
    assert_eq!(shot.pixel(0, 0), shot.pixel_in(native, 0, 0));
    assert_eq!(shot.crop_in(ByteOrder::Little, Rect::new(0, 0, 1, 1)).rgb, vec![3, 2, 1]);
    assert_eq!(shot.crop_in(ByteOrder::Big, Rect::new(0, 0, 1, 1)).rgb, vec![2, 3, 4]);
}

/// A monitor whose bytes stop short reads as no monitor where they are missing.
#[test]
fn missing_bytes_are_no_monitor() {
    let mut short = region(0, 0, 2, 2, 0xff11_2233);
    short.pixels.truncate(15);
    let shot = Shot { regions: vec![short] };
    assert_eq!(shot.pixel(0, 1), 0xff11_2233);
    assert_eq!(shot.pixel(1, 1), NO_MONITOR);
}

/// A copy of the desktop reads the same.
#[test]
fn a_copy_reads_the_same() {
    let shot = Shot {
        regions: vec![region(0, 0, 2, 4, 0xffaa_0000), region(2, 2, 2, 2, 0xff00_bb00)],
    };
    let copy = shot.clone_ref();
    assert_eq!(copy.bounds(), shot.bounds());
    for y in 0..4 {
        for x in 0..4 {
            assert_eq!(copy.pixel(x, y), shot.pixel(x, y));
        }
    }
}

/// No monitor at all is an empty desktop, and edges past what can be counted are no desktop.
#[test]
fn a_desktop_has_edges_or_none() {
    assert_eq!(Shot { regions: Vec::new() }.bounds(), Rect::new(0, 0, 0, 0));
    let far = Region { rect: Rect::new(i32::MAX, 0, 10, 10), pixels: Vec::new() };
    assert!(!Shot { regions: vec![far] }.has_bounds());
    let wide = Shot {
        regions: vec![
            Region { rect: Rect::new(i32::MIN, 0, 1, 1), pixels: Vec::new() },
            Region { rect: Rect::new(i32::MAX - 1, 0, 1, 1), pixels: Vec::new() },
        ],
    };
    assert!(!wide.has_bounds());
    assert!(!Shot::can_crop(Rect::new(i32::MAX, 0, 10, 10)));
    assert!(Shot::can_crop(Rect::new(-5, -5, 10, 10)));
}

/// An image that has a pixel and three bytes for each encodes, whatever the bytes are, and decodes
/// to them.
#[test]
fn every_well_sized_image_encodes() {
    let mut seed: u32 = 1;
    let mut noise = move || {
        seed = seed.wrapping_mul(1_664_525).wrapping_add(1_013_904_223);
        (seed >> 24) as u8
    };
    for (width, height) in [(1, 1), (1, 700), (700, 1), (257, 129)] {
        let bytes = (width * height * 3) as usize;
        for rgb in [vec![0; bytes], (0..bytes).map(|_| noise()).collect::<Vec<u8>>()] {
            let image = Image { width, height, rgb };
            let file = image.encode_png().unwrap();
            let mut reader = png::Decoder::new(std::io::Cursor::new(&file)).read_info().unwrap();
            assert_eq!((reader.info().width, reader.info().height), (width, height));
            let mut decoded = vec![1; bytes];
            reader.next_frame(&mut decoded).unwrap();
            assert_eq!(decoded, image.rgb);
        }
    }
}
