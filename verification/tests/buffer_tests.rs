use pixelsort::buffer::PixelBuffer;
use pixelsort::pixel::Pixel;

fn tagged(n: u32) -> Pixel {
    Pixel { r: (n % 251) as u8, g: (n / 251) as u8, b: 7, a: 255 }
}

fn grid(width: u32, height: u32) -> PixelBuffer {
    let pixels: Vec<Pixel> = (0..width * height).map(tagged).collect();
    PixelBuffer { width, height, pixels }
}

#[test]
fn from_raw_reads_four_bytes_a_pixel() {
    let buf = PixelBuffer::from_raw(2, 1, vec![1, 2, 3, 4, 5, 6, 7, 8]).unwrap();
    assert_eq!(buf.width, 2);
    assert_eq!(buf.height, 1);
    assert_eq!(buf.pixels, vec![Pixel { r: 1, g: 2, b: 3, a: 4 }, Pixel { r: 5, g: 6, b: 7, a: 8 }]);
}

#[test]
fn from_raw_wants_the_exact_length() {
    assert!(PixelBuffer::from_raw(2, 1, vec![0; 7]).is_none());
    assert!(PixelBuffer::from_raw(2, 1, vec![0; 9]).is_none());
    assert!(PixelBuffer::from_raw(2, 1, vec![0; 12]).is_none());
    assert!(PixelBuffer::from_raw(2, 2, vec![0; 8]).is_none());
    assert!(PixelBuffer::from_raw(0, 3, vec![0; 4]).is_none());
    assert!(PixelBuffer::from_raw(0, 3, vec![]).is_some());
    assert!(PixelBuffer::from_raw(u32::MAX, u32::MAX, vec![0; 4]).is_none());
}

#[test]
fn into_raw_writes_four_bytes_a_pixel() {
    let buf = PixelBuffer {
        width: 1,
        height: 2,
        pixels: vec![Pixel { r: 9, g: 8, b: 7, a: 6 }, Pixel { r: 5, g: 4, b: 3, a: 2 }],
    };
    assert_eq!(buf.into_raw(), vec![9, 8, 7, 6, 5, 4, 3, 2]);
}

#[test]
fn raw_round_trip() {
    let raw: Vec<u8> = (0..48u32).map(|i| (i * 5 % 256) as u8).collect();
    let buf = PixelBuffer::from_raw(4, 3, raw.clone()).unwrap();
    assert_eq!(buf.into_raw(), raw);
}

#[test]
fn rotate90_moves_each_pixel() {
    // 0 1 2      3 0
    // 3 4 5  ->  4 1
    //            5 2
    let turned = grid(3, 2).rotate90();
    assert_eq!(turned.width, 2);
    assert_eq!(turned.height, 3);
    let want: Vec<Pixel> = [3, 0, 4, 1, 5, 2].iter().map(|n| tagged(*n)).collect();
    assert_eq!(turned.pixels, want);
}

#[test]
fn rotate270_moves_each_pixel() {
    // 0 1 2      2 5
    // 3 4 5  ->  1 4
    //            0 3
    let turned = grid(3, 2).rotate270();
    assert_eq!(turned.width, 2);
    assert_eq!(turned.height, 3);
    let want: Vec<Pixel> = [2, 5, 1, 4, 0, 3].iter().map(|n| tagged(*n)).collect();
    assert_eq!(turned.pixels, want);
}

#[test]
fn rotate90_follows_the_coordinates() {
    let (w, h) = (5u32, 3u32);
    let buf = grid(w, h);
    let turned = buf.rotate90();
    for y in 0..h {
        for x in 0..w {
            let from = buf.pixels[(y * w + x) as usize];
            let to = turned.pixels[(x * h + (h - 1 - y)) as usize];
            assert_eq!(from, to);
        }
    }
}

#[test]
fn rotate_round_trip_for_many_sizes() {
    for w in 0..7u32 {
        for h in 0..7u32 {
            let buf = grid(w, h);
            let mid = buf.rotate90();
            assert_eq!((mid.width, mid.height), (h, w));
            let back = mid.rotate270();
            assert_eq!((back.width, back.height), (w, h));
            assert_eq!(back.pixels, buf.pixels);
            let other = buf.rotate270().rotate90();
            assert_eq!(other.pixels, buf.pixels);
        }
    }
}

#[test]
fn rotate_agrees_with_the_image_crate() {
    let buf = grid(4, 3);
    let img: image::RgbaImage = image::ImageBuffer::from_raw(4, 3, buf.into_raw()).unwrap();
    let turned = image::imageops::rotate90(&img);
    assert_eq!(turned.dimensions(), (3, 4));
    assert_eq!(buf.rotate90().into_raw(), turned.into_raw());
    let back = image::imageops::rotate270(&img);
    assert_eq!(buf.rotate270().into_raw(), back.into_raw());
}

#[test]
fn four_quarter_turns_give_the_grid_back() {
    let buf = grid(3, 5);
    let once = buf.rotate90();
    let twice = once.rotate90();
    let thrice = twice.rotate90();
    assert_eq!(thrice.pixels, buf.rotate270().pixels);
    assert_eq!(thrice.rotate90().pixels, buf.pixels);
}

#[test]
fn new_wants_as_many_pixels_as_cells() {
    let p = Pixel { r: 1, g: 2, b: 3, a: 4 };
    let buf = PixelBuffer::new(3, 2, vec![p; 6]).unwrap();
    assert_eq!((buf.width, buf.height), (3, 2));
    assert_eq!(buf.pixels, vec![p; 6]);
    assert!(PixelBuffer::new(3, 2, vec![p; 5]).is_none());
    assert!(PixelBuffer::new(3, 2, vec![p; 7]).is_none());
    assert!(PixelBuffer::new(0, 0, vec![]).is_some());
    assert!(PixelBuffer::new(0, 0, vec![p]).is_none());
}

#[test]
fn empty_grids_turn_to_empty_grids() {
    for (w, h) in [(0u32, 0u32), (0, 5), (5, 0), (0x4000_0000, 0), (0, 0x4000_0000), (u32::MAX, 0)] {
        let buf = PixelBuffer::new(w, h, vec![]).unwrap();
        let a = buf.rotate90();
        assert_eq!((a.width, a.height), (h, w));
        assert!(a.pixels.is_empty());
        let b = buf.rotate270();
        assert_eq!((b.width, b.height), (h, w));
        assert!(b.pixels.is_empty());
    }
}
