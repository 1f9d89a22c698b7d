use vt_render::pool::Colour;
use vt_render::pool::ObjectPool;
use vt_render::pool::PictureGraphic;
use vt_render::pool::PictureGraphicFormat;
use vt_render::pool::PictureGraphicOptions;

fn grey_palette() -> Vec<Colour> {
    let mut p = Vec::new();
    for i in 0..256usize {
        p.push(Colour { r: i as u8, g: i as u8, b: i as u8 });
    }
    p
}

fn mono_palette() -> Vec<Colour> {
    let mut p = grey_palette();
    p[0] = Colour { r: 0, g: 0, b: 0 };
    p[1] = Colour { r: 255, g: 255, b: 255 };
    p
}

fn pool_with_palette(palette: Vec<Colour>) -> ObjectPool {
    ObjectPool { objects: Vec::new(), palette }
}

fn picture(
    width: u16,
    actual_width: u16,
    actual_height: u16,
    format: PictureGraphicFormat,
    data: Vec<u8>,
) -> PictureGraphic {
    PictureGraphic {
        id: 1,
        width,
        actual_width,
        actual_height,
        format,
        options: PictureGraphicOptions { transparent: false },
        transparency_colour: 0,
        data,
    }
}

#[test]
fn monochrome_three_pixels_decode() {
    let pool = pool_with_palette(mono_palette());
    let pg = picture(3, 3, 1, PictureGraphicFormat::Monochrome, vec![0b1010_0000]);
    let r = pg.decode(&pool);
    assert_eq!(r.width, 3);
    assert_eq!(r.height, 1);
    let white = Colour { r: 255, g: 255, b: 255 };
    let black = Colour { r: 0, g: 0, b: 0 };
    assert_eq!(r.pixels, vec![Some(white), Some(black), Some(white)]);
}

#[test]
fn monochrome_row_end_discards_byte_remainder() {
    // Two rows of three pixels: the five low bits of the first byte must
    // not leak into the second row, which starts on the second byte.
    let pool = pool_with_palette(mono_palette());
    let pg = picture(3, 3, 2, PictureGraphicFormat::Monochrome, vec![0b1011_1111, 0b1110_0000]);
    let r = pg.decode(&pool);
    let white = Some(Colour { r: 255, g: 255, b: 255 });
    let black = Some(Colour { r: 0, g: 0, b: 0 });
    assert_eq!(r.pixels, vec![white, black, white, white, white, white]);
}

#[test]
fn four_bit_packing_high_nibble_first() {
    let pool = pool_with_palette(grey_palette());
    let pg = picture(2, 2, 1, PictureGraphicFormat::FourBit, vec![0xa3]);
    let r = pg.decode(&pool);
    assert_eq!(
        r.pixels,
        vec![
            Some(Colour { r: 10, g: 10, b: 10 }),
            Some(Colour { r: 3, g: 3, b: 3 }),
        ]
    );
}

#[test]
fn eight_bit_one_index_per_byte() {
    let pool = pool_with_palette(grey_palette());
    let pg = picture(2, 2, 1, PictureGraphicFormat::EightBit, vec![5, 200]);
    let r = pg.decode(&pool);
    assert_eq!(
        r.pixels,
        vec![
            Some(Colour { r: 5, g: 5, b: 5 }),
            Some(Colour { r: 200, g: 200, b: 200 }),
        ]
    );
}

#[test]
fn transparency_masks_matching_pixels() {
    let pool = pool_with_palette(grey_palette());
    let mut pg = picture(2, 2, 1, PictureGraphicFormat::EightBit, vec![7, 9]);
    pg.options = PictureGraphicOptions { transparent: true };
    pg.transparency_colour = 7;
    let r = pg.decode(&pool);
    assert_eq!(r.pixels, vec![None, Some(Colour { r: 9, g: 9, b: 9 })]);
}

#[test]
fn indices_beyond_raster_are_dropped() {
    let pool = pool_with_palette(grey_palette());
    let pg = picture(2, 2, 1, PictureGraphicFormat::EightBit, vec![1, 2, 3, 4]);
    let r = pg.decode(&pool);
    assert_eq!(r.pixels.len(), 2);
    assert_eq!(
        r.pixels,
        vec![
            Some(Colour { r: 1, g: 1, b: 1 }),
            Some(Colour { r: 2, g: 2, b: 2 }),
        ]
    );
}

#[test]
fn short_data_leaves_tail_transparent() {
    let pool = pool_with_palette(grey_palette());
    let pg = picture(2, 2, 2, PictureGraphicFormat::EightBit, vec![1]);
    let r = pg.decode(&pool);
    assert_eq!(r.pixels, vec![Some(Colour { r: 1, g: 1, b: 1 }), None, None, None]);
}

#[test]
fn zero_width_raster_is_empty() {
    let pool = pool_with_palette(grey_palette());
    let pg = picture(0, 0, 4, PictureGraphicFormat::EightBit, vec![1, 2]);
    let r = pg.decode(&pool);
    assert_eq!(r.pixels.len(), 0);
}

#[test]
fn display_height_scales_with_width() {
    let pg = picture(10, 5, 4, PictureGraphicFormat::EightBit, vec![]);
    assert_eq!(pg.display_height(), 8);
    let pg2 = picture(10, 0, 4, PictureGraphicFormat::EightBit, vec![]);
    assert_eq!(pg2.display_height(), 0);
}

#[test]
fn content_hash_tracks_every_field() {
    let pg = picture(3, 3, 1, PictureGraphicFormat::Monochrome, vec![0xa0]);
    let same = picture(3, 3, 1, PictureGraphicFormat::Monochrome, vec![0xa0]);
    assert_eq!(pg.content_hash(), same.content_hash());
    let mut other = picture(3, 3, 1, PictureGraphicFormat::Monochrome, vec![0xa0]);
    other.data = vec![0xa1];
    assert_ne!(pg.content_hash(), other.content_hash());
    let mut recoloured = picture(3, 3, 1, PictureGraphicFormat::Monochrome, vec![0xa0]);
    recoloured.transparency_colour = 5;
    assert_ne!(pg.content_hash(), recoloured.content_hash());
}
