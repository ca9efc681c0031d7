use img2pdf::image::alpha_remover::{
    flatten, remove_alpha_from_4_channel, ColorLayout, PixelBuffer, RemoveAlpha,
};

const RGB8: ColorLayout = ColorLayout { channels: 3, bits_per_channel: 8 };
const RGBA8: ColorLayout = ColorLayout { channels: 4, bits_per_channel: 8 };
const RGB16: ColorLayout = ColorLayout { channels: 3, bits_per_channel: 16 };
const RGBA16: ColorLayout = ColorLayout { channels: 4, bits_per_channel: 16 };

fn buffer(data: Vec<u8>, layout: ColorLayout) -> PixelBuffer {
    PixelBuffer::new(data, layout).unwrap()
}

#[test]
fn opaque_pixels_keep_their_colour() {
    let mut data = Vec::new();
    for i in 0..=255u8 {
        data.extend_from_slice(&[i, 255 - i, i / 2, 255]);
    }
    let flat = flatten(buffer(data.clone(), RGBA8));
    assert_eq!(flat.layout(), RGB8);
    assert_eq!(flat.data().len(), 256 * 3);
    for (before, after) in data.chunks(4).zip(flat.data().chunks(3)) {
        assert_eq!(&before[..3], after);
    }
}

#[test]
fn transparent_pixels_turn_white() {
    let mut data = Vec::new();
    for i in 0..=255u8 {
        data.extend_from_slice(&[i, 255 - i, i / 2, 0]);
    }
    let flat = flatten(buffer(data, RGBA8));
    assert_eq!(flat.layout(), RGB8);
    assert_eq!(flat.data(), &vec![255u8; 256 * 3]);
}

#[test]
fn buffers_without_alpha_pass_through() {
    let data = vec![1, 2, 3, 4, 5, 6, 7, 8, 9, 10, 11, 12];
    for layout in [
        RGB8,
        RGB16,
        ColorLayout { channels: 1, bits_per_channel: 8 },
        ColorLayout { channels: 2, bits_per_channel: 8 },
        ColorLayout { channels: 1, bits_per_channel: 16 },
        ColorLayout { channels: 2, bits_per_channel: 16 },
        ColorLayout { channels: 3, bits_per_channel: 32 },
    ] {
        let flat = flatten(buffer(data.clone(), layout));
        assert_eq!(flat.layout(), layout);
        assert_eq!(flat.data(), &data);
    }
}

#[test]
fn four_channels_of_another_depth_pass_through() {
    let data = vec![9u8; 32];
    let layout = ColorLayout { channels: 4, bits_per_channel: 32 };
    let flat = flatten(buffer(data.clone(), layout));
    assert_eq!(flat.layout(), layout);
    assert_eq!(flat.into_data(), data);
}

#[test]
fn half_transparent_pixels_are_blended_and_rounded() {
    // 255 - 128 + 128 * c / 255: 127 + 0, 127 + 50.196, 127 + 100.39, 127 + 128
    let flat = flatten(buffer(vec![0, 100, 200, 128, 255, 255, 255, 128], RGBA8));
    assert_eq!(flat.data(), &vec![127, 177, 227, 255, 255, 255]);
    // 255 - 1 + c / 255: 254 + 0.498 is 254, 254 + 0.502 is 255
    let flat = flatten(buffer(vec![127, 128, 255, 1], RGBA8));
    assert_eq!(flat.data(), &vec![254, 255, 255]);
    // 255 - 254 + 254 * c / 255: 1 + 0, 1 + 0.996, 1 + 126.5..., 1 + 253.004
    let flat = flatten(buffer(vec![0, 1, 127, 254, 254, 128, 2, 254], RGBA8));
    assert_eq!(flat.data(), &vec![1, 2, 128, 254, 128, 3]);
}

#[test]
fn sixteen_bit_opaque_pixels_keep_their_colour() {
    let data = vec![
        0x12, 0x34, 0xab, 0xcd, 0x00, 0x01, 0xff, 0xff, // one pixel
        0xff, 0xff, 0x00, 0x00, 0x80, 0x00, 0xff, 0xff, // another
    ];
    let flat = flatten(buffer(data, RGBA16));
    assert_eq!(flat.layout(), RGB16);
    assert_eq!(
        flat.data(),
        &vec![0x12, 0x34, 0xab, 0xcd, 0x00, 0x01, 0xff, 0xff, 0x00, 0x00, 0x80, 0x00]
    );
}

#[test]
fn sixteen_bit_transparent_pixels_turn_white() {
    let data = vec![0x12, 0x34, 0xab, 0xcd, 0x00, 0x01, 0x00, 0x00];
    let flat = flatten(buffer(data, RGBA16));
    assert_eq!(flat.layout(), RGB16);
    assert_eq!(flat.data(), &vec![0xff; 6]);
}

#[test]
fn sixteen_bit_samples_are_read_high_byte_first() {
    // alpha 0x8000 = 32768, colour 0x0100 = 256:
    // 65535 - 32768 + 32768 * 256 / 65535 = 32767 + 128.002 = 32895 = 0x807f
    // colour 0x0001: 32767 + 0.50001 = 32768 = 0x8000
    // colour 0xffff: 32767 + 32768 = 65535
    let data = vec![0x01, 0x00, 0x00, 0x01, 0xff, 0xff, 0x80, 0x00];
    let flat = flatten(buffer(data, RGBA16));
    assert_eq!(flat.data(), &vec![0x80, 0x7f, 0x80, 0x00, 0xff, 0xff]);
}

#[test]
fn remove_alpha_changes_the_buffer_in_place() {
    let mut rgba = buffer(vec![10, 20, 30, 255, 40, 50, 60, 0], RGBA8);
    rgba.remove_alpha();
    assert_eq!(rgba.layout(), RGB8);
    assert_eq!(rgba.data(), &vec![10, 20, 30, 255, 255, 255]);
    rgba.remove_alpha();
    assert_eq!(rgba.layout(), RGB8);
    assert_eq!(rgba.data(), &vec![10, 20, 30, 255, 255, 255]);
}

#[test]
fn samples_are_flattened_four_at_a_time() {
    let flat: Vec<u8> = remove_alpha_from_4_channel(vec![1u8, 2, 3, 255, 4, 5, 6, 0]);
    assert_eq!(flat, vec![1, 2, 3, 255, 255, 255]);
    let flat: Vec<u16> = remove_alpha_from_4_channel(vec![1u16, 2, 3, 65535, 4, 5, 6, 0]);
    assert_eq!(flat, vec![1, 2, 3, 65535, 65535, 65535]);
    let flat: Vec<u16> = remove_alpha_from_4_channel(Vec::new());
    assert_eq!(flat, Vec::<u16>::new());
}

#[test]
fn an_empty_buffer_stays_empty() {
    let flat = flatten(buffer(Vec::new(), RGBA8));
    assert_eq!(flat.layout(), RGB8);
    assert!(flat.data().is_empty());
    let flat = flatten(buffer(Vec::new(), RGBA16));
    assert_eq!(flat.layout(), RGB16);
    assert!(flat.data().is_empty());
}

#[test]
fn a_buffer_holds_whole_pixels() {
    assert!(PixelBuffer::new(vec![0; 8], RGBA8).is_some());
    assert!(PixelBuffer::new(vec![0; 7], RGBA8).is_none());
    assert!(PixelBuffer::new(vec![0; 8], RGBA16).is_some());
    assert!(PixelBuffer::new(vec![0; 12], RGBA16).is_none());
    assert!(PixelBuffer::new(vec![0; 9], RGB8).is_some());
    assert!(PixelBuffer::new(vec![0; 8], RGB8).is_none());
    assert!(PixelBuffer::new(vec![0; 8], ColorLayout { channels: 0, bits_per_channel: 8 }).is_none());
    assert!(PixelBuffer::new(vec![0; 8], ColorLayout { channels: 4, bits_per_channel: 4 }).is_none());
    assert!(PixelBuffer::new(Vec::new(), ColorLayout { channels: 0, bits_per_channel: 0 }).is_none());
}
