use akgine::pixel::elements::{BufferElem, InputField};
use akgine::pixel::fonction::Fonction;
use akgine::pixel::image::{IcoError, ImageManager};
use akgine::pixel::packed::PixelBuffer as PackedBuffer;
use akgine::pixel::rgba::PixelBuffer;

fn px(b: &PixelBuffer, x: u32, y: u32) -> [u8; 4] {
    let i = ((y * b.width + x) * 4) as usize;
    [b.pixels[i], b.pixels[i + 1], b.pixels[i + 2], b.pixels[i + 3]]
}

fn ico_with(data: &[u8]) -> Vec<u8> {
    let size = data.len() as u32;
    let mut f = vec![0u8, 0, 1, 0, 1, 0];
    let mut entry = vec![0u8; 8];
    entry.extend_from_slice(&size.to_le_bytes());
    entry.extend_from_slice(&22u32.to_le_bytes());
    f.extend_from_slice(&entry);
    f.extend_from_slice(data);
    f
}

fn dib(width: i32, height_full: i32, bpp: u16, pixels: &[u8]) -> Vec<u8> {
    let mut d = Vec::new();
    d.extend_from_slice(&40u32.to_le_bytes());
    d.extend_from_slice(&width.to_le_bytes());
    d.extend_from_slice(&height_full.to_le_bytes());
    d.extend_from_slice(&1u16.to_le_bytes());
    d.extend_from_slice(&bpp.to_le_bytes());
    d.extend_from_slice(&[0u8; 24]);
    d.extend_from_slice(pixels);
    d
}

#[test]
fn new_buffer_is_transparent_black() {
    let b = PixelBuffer::new(3, 2);
    assert_eq!(b.pixels.len(), 24);
    assert!(b.pixels.iter().all(|v| *v == 0));
}

#[test]
fn fill_all_and_full_rect() {
    let mut b = PixelBuffer::new(4, 3);
    b.FillAll([1, 2, 3, 4]);
    assert_eq!(px(&b, 3, 2), [1, 2, 3, 4]);
    b.DrawFullRect(1, 1, 2, 5, [9, 9, 9, 9]);
    assert_eq!(px(&b, 1, 1), [9, 9, 9, 9]);
    assert_eq!(px(&b, 2, 2), [9, 9, 9, 9]);
    assert_eq!(px(&b, 0, 1), [1, 2, 3, 4]);
    assert_eq!(px(&b, 3, 2), [1, 2, 3, 4]);
}

#[test]
fn center_square() {
    let mut b = PixelBuffer::new(4, 4);
    b.DrawCenterFullSquare(2, [5, 5, 5, 5]);
    assert_eq!(px(&b, 1, 1), [5, 5, 5, 5]);
    assert_eq!(px(&b, 2, 2), [5, 5, 5, 5]);
    assert_eq!(px(&b, 0, 0), [0, 0, 0, 0]);
    assert_eq!(px(&b, 3, 3), [0, 0, 0, 0]);
}

#[test]
fn copies_and_resizing() {
    let mut src = PixelBuffer::new(2, 2);
    src.FillAll([7, 7, 7, 7]);
    let mut dst = PixelBuffer::new(1, 1);
    dst.CopyFromBuffer(&src);
    assert_eq!((dst.width, dst.height), (1, 1));
    assert_eq!(dst.pixels, vec![7, 7, 7, 7]);
    dst.CopyFromVecteur(vec![1, 2, 3, 4, 5, 6, 7, 8], 2, 1);
    assert_eq!(dst.pixels, vec![1, 2, 3, 4]);
    dst.SetSize(2, 3);
    assert_eq!((dst.width, dst.height), (2, 3));
    assert_eq!(dst.pixels.len(), 24);
    assert_eq!(px(&dst, 0, 0), [1, 2, 3, 4]);
    assert_eq!(px(&dst, 1, 2), [0, 0, 0, 0]);
    let mut big = PixelBuffer::new(3, 3);
    big.CopyRegionTo(&src, 1, 1, 2, 2);
    assert_eq!(px(&big, 1, 1), [7, 7, 7, 7]);
    assert_eq!(px(&big, 2, 2), [7, 7, 7, 7]);
    assert_eq!(px(&big, 0, 0), [0, 0, 0, 0]);
}

#[test]
fn sampled_copy() {
    let mut src = PixelBuffer::new(2, 1);
    src.pixels = vec![1, 1, 1, 1, 2, 2, 2, 2];
    let mut dst = PixelBuffer::new(3, 1);
    dst.copy_sampled(&src, &vec![1, 0, 1], &vec![0]);
    assert_eq!(dst.pixels, vec![2, 2, 2, 2, 1, 1, 1, 1, 2, 2, 2, 2]);
}

#[test]
fn border_of_a_rectangle() {
    let mut b = PixelBuffer::new(5, 5);
    b.DrawBorder(0, 1, 5, 4, 1, 1, 1, 1, [8, 8, 8, 8]);
    assert_eq!(px(&b, 0, 2), [8, 8, 8, 8]);
    assert_eq!(px(&b, 4, 2), [8, 8, 8, 8]);
    assert_eq!(px(&b, 2, 1), [8, 8, 8, 8]);
    assert_eq!(px(&b, 2, 4), [8, 8, 8, 8]);
    assert_eq!(px(&b, 2, 2), [0, 0, 0, 0]);
    assert_eq!(px(&b, 2, 0), [0, 0, 0, 0]);
}

#[test]
fn border_at_the_origin() {
    let mut b = PixelBuffer::new(3, 3);
    b.DrawBorder(0, 0, 3, 3, 1, 1, 1, 1, [9, 9, 9, 9]);
    let mut expected = vec![9u8; 16];
    expected.extend_from_slice(&[0, 0, 0, 0]);
    expected.extend_from_slice(&[9u8; 16]);
    assert_eq!(b.pixels, expected);
}

#[test]
fn border_clipped_on_the_right() {
    let mut b = PixelBuffer::new(2, 2);
    b.DrawBorder(1, 0, 2, 2, 2, 0, 0, 0, [9, 9, 9, 9]);
    assert_eq!(px(&b, 1, 0), [9, 9, 9, 9]);
    assert_eq!(px(&b, 1, 1), [9, 9, 9, 9]);
    assert_eq!(px(&b, 0, 0), [0, 0, 0, 0]);
    assert_eq!(px(&b, 0, 1), [0, 0, 0, 0]);
}

#[test]
fn cross_in_an_area() {
    let mut b = PixelBuffer::new(4, 4);
    b.DrawCross(0, 0, 4, 4, 1, [3, 3, 3, 3]);
    assert_eq!(px(&b, 0, 0), [3, 3, 3, 3]);
    assert_eq!(px(&b, 2, 2), [3, 3, 3, 3]);
    assert_eq!(px(&b, 0, 3), [3, 3, 3, 3]);
    assert_eq!(px(&b, 3, 0), [3, 3, 3, 3]);
    assert_eq!(px(&b, 1, 3), [0, 0, 0, 0]);
    assert_eq!(px(&b, 0, 2), [0, 0, 0, 0]);
    let mut small = PixelBuffer::new(3, 3);
    small.DrawCross(0, 0, 3, 3, 1, [9, 9, 9, 9]);
    for y in 0..3 {
        for x in 0..3 {
            let on_x = x == y || x + y == 2;
            assert_eq!(px(&small, x, y), if on_x { [9, 9, 9, 9] } else { [0, 0, 0, 0] });
        }
    }
}

#[test]
fn inverting_twice_gives_the_color_back() {
    let c = [10, 200, 0, 77];
    let once = Fonction::invert_color(c);
    assert_eq!(once, [245, 55, 255, 77]);
    assert_eq!(Fonction::invert_color(once), c);
}

#[test]
fn input_field_draws_and_clicks() {
    let field = InputField::new(1, 0, 2, 1, [4, 4, 4, 4]);
    let mut b = PixelBuffer::new(3, 2);
    field.add(&mut b);
    assert_eq!(px(&b, 1, 0), [4, 4, 4, 4]);
    assert_eq!(px(&b, 2, 0), [4, 4, 4, 4]);
    assert_eq!(px(&b, 0, 0), [0, 0, 0, 0]);
    assert_eq!(px(&b, 1, 1), [0, 0, 0, 0]);
    assert!(field.click(1, 0));
    assert!(!field.click(2, 0));
}

#[test]
fn packed_colors() {
    assert_eq!(PackedBuffer::RGBAToMinifbU32(0x11, 0x22, 0x33, 0x44), 0x44112233);
    let mut b = PackedBuffer::new(4, 4);
    b.FillAll(1, 2, 3, 4);
    assert!(b.pixels.iter().all(|p| *p == 0x04010203));
    b.draw_center_square(2, 0, 0, 0, 0xFF);
    assert_eq!(b.pixels[1 * 4 + 1], 0xFF000000);
    assert_eq!(b.pixels[0], 0x04010203);
}

#[test]
fn bmp_file_bytes() {
    let mut b = PixelBuffer::new(2, 2);
    b.pixels = vec![1, 2, 3, 4, 5, 6, 7, 8, 9, 10, 11, 12, 13, 14, 15, 16];
    let bytes = b.bmp_bytes();
    assert_eq!(bytes.len(), 54 + 16);
    assert_eq!(&bytes[0..2], b"BM");
    assert_eq!(&bytes[2..6], &70u32.to_le_bytes());
    assert_eq!(&bytes[10..14], &54u32.to_le_bytes());
    assert_eq!(&bytes[14..18], &40u32.to_le_bytes());
    assert_eq!(&bytes[18..22], &2u32.to_le_bytes());
    assert_eq!(&bytes[22..26], &2u32.to_le_bytes());
    assert_eq!(&bytes[26..30], &[1, 0, 32, 0]);
    assert_eq!(&bytes[34..38], &16u32.to_le_bytes());
    assert_eq!(&bytes[54..], &[11, 10, 9, 12, 15, 14, 13, 16, 3, 2, 1, 4, 7, 6, 5, 8]);
}

#[test]
fn text_listings() {
    let mut b = PixelBuffer::new(1, 1);
    b.FillAll([1, 2, 3, 4]);
    assert_eq!(
        b.summary_text(),
        "PixelBuffer: 1x1\nTotal pixels: 1\n(0,0): RGBA(1, 2, 3, 4)\n"
    );
    assert_eq!(b.raw_text(), "PixelBuffer: 1x1\nTotal pixels: 1\n[(1, 2, 3, 4) \n]\n");
    let mut two = PixelBuffer::new(2, 1);
    two.pixels = vec![0, 0, 0, 255, 10, 20, 30, 40];
    assert_eq!(
        two.raw_text(),
        "PixelBuffer: 2x1\nTotal pixels: 2\n[(0, 0, 0, 255)(10, 20, 30, 40) \n]\n"
    );
}

#[test]
fn ico_with_a_32_bit_dib() {
    let data = dib(2, 2, 32, &[1, 2, 3, 4, 5, 6, 7, 8]);
    let file = ico_with(&data);
    assert_eq!(ImageManager::ico_directory(&file), Some((1, data.len() as u32, 22)));
    let b = ImageManager::decode_ico(&file).unwrap().unwrap();
    assert_eq!((b.width, b.height), (2, 1));
    assert_eq!(b.pixels, vec![3, 2, 1, 4, 7, 6, 5, 8]);
}

#[test]
fn ico_rows_are_bottom_up() {
    let data = dib(1, 4, 32, &[1, 1, 1, 1, 2, 2, 2, 2]);
    let b = ImageManager::decode_ico(&ico_with(&data)).unwrap().unwrap();
    assert_eq!((b.width, b.height), (1, 2));
    assert_eq!(b.pixels, vec![2, 2, 2, 2, 1, 1, 1, 1]);
}

#[test]
fn ico_with_a_png_is_not_decoded() {
    let file = ico_with(&[0x89, b'P', b'N', b'G', 0, 0]);
    assert!(matches!(ImageManager::decode_ico(&file), Ok(None)));
}

#[test]
fn ico_errors() {
    assert_eq!(ImageManager::decode_ico(&vec![0; 10]).err(), Some(IcoError::UnexpectedEof));
    assert_eq!(ImageManager::ico_directory(&vec![0; 10]), None);
    let mut cut = ico_with(&dib(1, 2, 32, &[0, 0, 0, 0]));
    cut.pop();
    assert_eq!(ImageManager::decode_ico(&cut).err(), Some(IcoError::UnexpectedEof));
    assert_eq!(ImageManager::decode_ico(&ico_with(&[1, 2, 3])).err(), Some(IcoError::TruncatedImage));
    assert_eq!(ImageManager::decode_ico(&ico_with(&dib(1, 2, 24, &[0, 0, 0]))).err(), Some(IcoError::UnsupportedBitCount(24)));
    assert_eq!(ImageManager::decode_ico(&ico_with(&dib(0x10000, 0x20000, 32, &[]))).err(), Some(IcoError::TooLarge));
    assert_eq!(ImageManager::decode_ico(&ico_with(&dib(2, 2, 32, &[0, 0, 0, 0]))).err(), Some(IcoError::PixelsOutOfRange));
    assert_eq!(ImageManager::decode_ico(&ico_with(&dib(1, -2, 32, &[]))).err(), Some(IcoError::TooLarge));
}

#[test]
fn menu_buttons() {
    let mut b = PixelBuffer::new(300, 60);
    b.FillAll([255, 255, 255, 255]);
    b.draw_menu_buttons(300, 50, 10);
    let black = [0, 0, 0, 255];
    let white = [255, 255, 255, 255];
    assert_eq!(px(&b, 150, 24), black);
    assert_eq!(px(&b, 150, 22), white);
    assert_eq!(px(&b, 205, 15), black);
    assert_eq!(px(&b, 215, 25), white);
    assert_eq!(px(&b, 265, 15), black);
    assert_eq!(px(&b, 275, 25), black);
    assert_eq!(px(&b, 266, 25), white);
    assert_eq!(px(&b, 284, 15), black);
    assert_eq!(px(&b, 10, 10), white);
}

#[test]
fn new_window_buffer() {
    let b = PixelBuffer::window_start(100, 100);
    assert_eq!(px(&b, 0, 0), [150, 0, 100, 255]);
    assert_eq!(px(&b, 25, 25), [255, 0, 0, 255]);
    assert_eq!(px(&b, 74, 74), [255, 0, 0, 255]);
    assert_eq!(px(&b, 75, 75), [150, 0, 100, 255]);
}

#[test]
fn menu_band_and_icon_place() {
    let mut b = PixelBuffer::new(2, 2);
    b.FillAll([1, 1, 1, 1]);
    b.draw_menu_band(3, 3, 1);
    assert_eq!((b.width, b.height), (3, 3));
    assert_eq!(px(&b, 2, 0), [255, 255, 255, 255]);
    assert_eq!(px(&b, 1, 1), [1, 1, 1, 1]);
    assert_eq!(px(&b, 2, 2), [0, 0, 0, 0]);
    assert_eq!(akgine::pixel::menu::icon_area(50), (30, 10));
}
