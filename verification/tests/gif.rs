use gift::block::{
    Block, ColorTableConfig, ColorTableExistence, ColorTableOrdering, GlobalColorTable, Header,
    ImageData, ImageDesc, LogicalScreenDesc, Trailer,
};
use gift::{Decoder, Encoder};
use lila_gif::api::Comment;
use lila_gif::board::{Color, Piece, Role};
use lila_gif::gif::{Chunk, Sheet};
use lila_gif::theme::{BoardTheme, PieceSet, SpriteKey, Theme, Themes};

const BAR: u8 = 200;
const CLEAR: u8 = 201;

fn pixel(row: usize, col: usize) -> u8 {
    if row == 0 && col == 360 {
        BAR
    } else if row == 0 && col == 660 {
        CLEAR
    } else {
        let tile = 8 * (row / 90) + col / 90;
        let part = if row % 90 >= 30 {
            2
        } else if col % 90 >= 30 {
            1
        } else {
            0
        };
        (3 * tile + part) as u8
    }
}

fn pixels() -> Vec<u8> {
    let mut out = Vec::with_capacity(720 * 720);
    for row in 0..720 {
        for col in 0..720 {
            out.push(pixel(row, col));
        }
    }
    out
}

fn palette(len: usize) -> Vec<u8> {
    (0..3 * len).map(|i| (i % 251) as u8).collect()
}

fn sheet_gif(width: u16, height: u16, colors: u16, data: &[u8]) -> Vec<u8> {
    let config = ColorTableConfig::new(
        ColorTableExistence::Present,
        ColorTableOrdering::NotSorted,
        colors,
    );
    let mut out = Vec::new();
    let mut enc = Encoder::new(&mut out).into_block_enc();
    enc.encode(Header::default()).unwrap();
    enc.encode(
        LogicalScreenDesc::default()
            .with_screen_width(width)
            .with_screen_height(height)
            .with_color_table_config(config),
    )
    .unwrap();
    enc.encode(GlobalColorTable::with_colors(&palette(config.len()))).unwrap();
    enc.encode(ImageDesc::default().with_width(width).with_height(height)).unwrap();
    let mut image = ImageData::new(data.len());
    image.data_mut().extend_from_slice(data);
    enc.encode(image).unwrap();
    enc.encode(Trailer::default()).unwrap();
    out
}

fn sheet() -> Sheet {
    Sheet { table_flags: 0xf7, palette: palette(256), width: 720, height: 720, pixels: pixels() }
}

fn theme() -> Theme {
    Theme::from_sheet(sheet()).unwrap()
}

#[test]
fn chunk_header_is_the_signature() {
    let mut chunk = Chunk::new();
    chunk.header();
    assert_eq!(&chunk.freeze()[..], b"GIF89a");
}

#[test]
fn chunk_trailer_is_one_byte() {
    let mut chunk = Chunk::new();
    chunk.trailer();
    assert_eq!(&chunk.freeze()[..], &[0x3b]);
}

#[test]
fn chunk_logical_screen_desc_layout() {
    let mut chunk = Chunk::new();
    chunk.logical_screen_desc(720, 0x1234, 0xf7);
    assert_eq!(&chunk.freeze()[..], &[0xd0, 0x02, 0x34, 0x12, 0xf7, 0, 0]);
    let mut chunk = Chunk::new();
    chunk.logical_screen_desc(1, 2, 0x9a);
    assert_eq!(&chunk.freeze()[..], &[1, 0, 2, 0, 0xaa, 0, 0]);
    let mut chunk = Chunk::new();
    chunk.logical_screen_desc(1, 2, 0x05);
    assert_eq!(&chunk.freeze()[..], &[1, 0, 2, 0, 0x55, 0, 0]);
}

#[test]
fn chunk_global_color_table_is_the_colors() {
    let mut chunk = Chunk::new();
    chunk.global_color_table(&[1, 2, 3, 4, 5, 6]);
    assert_eq!(&chunk.freeze()[..], &[1, 2, 3, 4, 5, 6]);
}

#[test]
fn chunk_application_loops() {
    let mut chunk = Chunk::new();
    chunk.application(0);
    assert_eq!(
        &chunk.freeze()[..],
        &[0x21, 0xff, 11, b'N', b'E', b'T', b'S', b'C', b'A', b'P', b'E', b'2', b'.', b'0', 3, 1, 0, 0, 0]
    );
    let mut chunk = Chunk::new();
    chunk.application(0x0102);
    assert_eq!(&chunk.freeze()[14..], &[3, 1, 1, 2, 0]);
}

#[test]
fn chunk_comment_layout() {
    let mut chunk = Chunk::new();
    chunk.comment(b"hi!");
    assert_eq!(&chunk.freeze()[..], &[0x21, 0xfe, 3, b'h', b'i', b'!', 0]);
    let long = vec![b'x'; 255];
    let mut chunk = Chunk::new();
    chunk.comment(&long);
    let bytes = chunk.freeze();
    assert_eq!(bytes.len(), 259);
    assert_eq!(bytes[2], 255);
    assert_eq!(bytes[258], 0);
}

#[test]
fn chunk_graphic_control_layout() {
    let mut chunk = Chunk::new();
    chunk.graphic_control(1, 0x0132, Some(9));
    assert_eq!(&chunk.freeze()[..], &[0x21, 0xf9, 4, 5, 0x32, 0x01, 9, 0]);
    let mut chunk = Chunk::new();
    chunk.graphic_control(0, 50, None);
    assert_eq!(&chunk.freeze()[..], &[0x21, 0xf9, 4, 0, 50, 0, 0, 0]);
    let mut chunk = Chunk::new();
    chunk.graphic_control(7, 0, None);
    assert_eq!(&chunk.freeze()[..], &[0x21, 0xf9, 4, 28, 0, 0, 0, 0]);
    let mut chunk = Chunk::new();
    chunk.graphic_control(1, 1, Some(0));
    assert_eq!(&chunk.freeze()[..], &[0x21, 0xf9, 4, 5, 1, 0, 0, 0]);
}

#[test]
fn chunk_image_desc_layout() {
    let mut chunk = Chunk::new();
    chunk.image_desc(90, 360, 0x0102, 270);
    assert_eq!(&chunk.freeze()[..], &[0x2c, 90, 0, 0x68, 0x01, 0x02, 0x01, 0x0e, 0x01, 0]);
}

#[test]
fn chunk_image_data_decodes_to_the_pixels() {
    let data: Vec<u8> = (0..600usize).map(|i| (i * 7 % 254) as u8).collect();
    let mut chunk = Chunk::new();
    chunk.header();
    chunk.logical_screen_desc(30, 20, 0xf7);
    chunk.global_color_table(&palette(256));
    chunk.image_desc(0, 0, 30, 20);
    chunk.image_data(&data);
    chunk.trailer();
    let bytes = chunk.freeze();
    assert_ne!(&bytes[bytes.len() - 601..bytes.len() - 1], &data[..]);
    let mut seen = None;
    for block in Decoder::new(&bytes[..]).into_blocks() {
        if let Block::ImageData(image) = block.unwrap() {
            seen = Some(image.data().to_vec());
        }
    }
    assert_eq!(seen, Some(data));
}

#[test]
fn chunk_image_data_of_small_values() {
    let mut chunk = Chunk::new();
    chunk.image_data(&[1, 0, 0, 1]);
    assert_eq!(&chunk.freeze()[..], &[2, 2, 12, 16, 0]);
}

#[test]
fn chunk_appends_blocks_in_order() {
    let mut chunk = Chunk::new();
    chunk.header();
    chunk.image_desc(0, 0, 1, 1);
    chunk.trailer();
    let bytes = chunk.freeze();
    assert_eq!(bytes.len(), 17);
    assert_eq!(&bytes[..6], b"GIF89a");
    assert_eq!(bytes[6], 0x2c);
    assert_eq!(bytes[16], 0x3b);
    assert!(Chunk::new().freeze().is_empty());
}

#[test]
fn comment_new_limits_the_length() {
    assert!(Comment::new(vec![]).is_some());
    assert!(Comment::new(vec![b'a'; 255]).is_some());
    assert!(Comment::new(vec![b'a'; 256]).is_none());
    assert_eq!(Comment::new(b"abc".to_vec()).unwrap().as_bytes(), b"abc");
}

#[test]
fn theme_new_decodes_a_sheet() {
    let data = pixels();
    let theme = Theme::try_new(&sheet_gif(720, 720, 256, &data)).unwrap();
    assert_eq!(theme.sheet(), &data);
    assert_eq!(theme.global_color_table(), &palette(256));
    assert_eq!(theme.table_flags(), 0xf7);
    assert_eq!(theme.bar_color(), BAR);
    assert_eq!(theme.transparent_color(), CLEAR);
    let config = theme.color_table_config();
    assert!(config.present);
    assert!(!config.sorted);
    assert_eq!(config.len, 256);
}

#[test]
fn theme_new_with_a_small_palette() {
    let data = vec![3u8; 720 * 720];
    let theme = Theme::try_new(&sheet_gif(720, 720, 4, &data)).unwrap();
    assert_eq!(theme.table_flags(), 0x91);
    assert_eq!(theme.color_table_config().len, 4);
    assert_eq!(theme.global_color_table().len(), 12);
    assert_eq!(theme.bar_color(), 3);
}

#[test]
fn theme_new_rejects_what_is_no_sheet() {
    assert!(Theme::try_new(&[]).is_none());
    assert!(Theme::try_new(b"GIF89a").is_none());
    assert!(Theme::try_new(b"not a gif at all").is_none());
    assert!(Theme::try_new(&sheet_gif(90, 90, 256, &vec![1u8; 8100])).is_none());
    assert!(Theme::try_new(&sheet_gif(720, 719, 256, &vec![1u8; 720 * 719])).is_none());
    let full = sheet_gif(720, 720, 256, &pixels());
    assert!(Theme::try_new(&full[..full.len() / 2]).is_none());
}

#[test]
fn theme_new_rejects_a_sheet_of_another_shape() {
    assert!(Theme::try_new(&sheet_gif(720, 720, 256, &vec![1u8; 720 * 720])).is_some());
    assert!(Theme::try_new(&sheet_gif(360, 1440, 256, &vec![1u8; 720 * 720])).is_none());
    assert!(Theme::try_new(&sheet_gif(1440, 360, 256, &vec![1u8; 720 * 720])).is_none());
}

#[test]
fn theme_new_gives_what_try_new_gives() {
    let data = sheet_gif(720, 720, 256, &pixels());
    let theme = Theme::new(&data);
    let tried = Theme::try_new(&data).unwrap();
    assert_eq!(theme.sheet(), tried.sheet());
    assert_eq!(theme.global_color_table(), tried.global_color_table());
    assert_eq!(theme.table_flags(), tried.table_flags());
    let themes = Themes::new(1, &vec![vec![data.clone()], vec![data]]);
    assert_eq!(themes.get(BoardTheme(1), PieceSet(0)).sheet(), theme.sheet());
}

#[test]
fn theme_try_new_takes_a_long_sheet() {
    let mut noisy: Vec<u8> = Vec::with_capacity(720 * 720);
    let mut seed: u32 = 12345;
    for _ in 0..720 * 720 {
        seed = seed.wrapping_mul(1664525).wrapping_add(1013904223);
        noisy.push((seed >> 24) as u8 % 200);
    }
    let data = sheet_gif(720, 720, 256, &noisy);
    assert!(data.len() > 400_000);
    let theme = Theme::try_new(&data).unwrap();
    assert_eq!(theme.sheet(), &noisy);
    let mut padded = data.clone();
    padded.extend_from_slice(&[0u8; 1000]);
    assert_eq!(Theme::try_new(&padded).unwrap().sheet(), &noisy);
}

#[test]
fn theme_from_sheet_checks_the_sheet() {
    assert!(Theme::from_sheet(sheet()).is_some());
    let mut bad = sheet();
    bad.pixels.pop();
    assert!(Theme::from_sheet(bad).is_none());
    let mut bad = sheet();
    bad.width = 719;
    assert!(Theme::from_sheet(bad).is_none());
    let mut bad = sheet();
    bad.height = 721;
    assert!(Theme::from_sheet(bad).is_none());
    let mut bad = sheet();
    bad.width = 360;
    bad.height = 1440;
    assert!(Theme::from_sheet(bad).is_none());
    let mut bad = sheet();
    bad.table_flags = 0x77;
    assert!(Theme::from_sheet(bad).is_none());
    let mut bad = sheet();
    bad.table_flags = 0xf6;
    assert!(Theme::from_sheet(bad).is_none());
    let mut small = sheet();
    small.table_flags = 0x80;
    small.palette = palette(2);
    assert!(Theme::from_sheet(small).is_some());
}

#[test]
fn theme_from_sheet_refuses_index_255_where_it_is_drawn() {
    for at in [0, 359, 360, 660, 89 * 720 + 359, 90 * 720, 90 * 720 + 360, 90 * 720 + 719, 1000, 720 * 720 - 1] {
        let mut bad = sheet();
        bad.pixels[at] = 255;
        assert!(Theme::from_sheet(bad).is_none());
        let mut good = sheet();
        good.pixels[at] = 254;
        assert!(Theme::from_sheet(good).is_some());
    }
}

#[test]
fn theme_from_sheet_admits_index_255_where_nothing_is_drawn() {
    let mut sheet = sheet();
    for row in 0..90 {
        for col in 360..720 {
            if (row, col) != (0, 360) && (row, col) != (0, 660) {
                sheet.pixels[row * 720 + col] = 255;
            }
        }
    }
    let theme = Theme::from_sheet(sheet).unwrap();
    assert_eq!(theme.bar_color(), BAR);
    assert_eq!(theme.transparent_color(), CLEAR);
    assert_eq!(theme.sheet()[361], 255);
}

#[test]
fn theme_constants() {
    let theme = theme();
    assert_eq!(theme.square(), 90);
    assert_eq!(theme.width(), 720);
    assert_eq!(theme.height(), 720);
    assert_eq!(theme.bar_height(), 60);
}

#[test]
fn theme_sprite_is_the_tile_of_the_key() {
    let theme = theme();
    let key = SpriteKey {
        piece: Some(Piece { color: Color::White, role: Role::Bishop }),
        dark_square: true,
        highlight: false,
        check: false,
    };
    let region = theme.sprite_region(key);
    assert_eq!((region.top, region.left, region.bottom, region.right), (270, 450, 360, 540));
    let tile = theme.sprite(key);
    assert_eq!(tile.len(), 8100);
    for row in 0..90 {
        for col in 0..90 {
            assert_eq!(tile[row * 90 + col], pixel(270 + row, 450 + col));
        }
    }
    let key = SpriteKey {
        piece: Some(Piece { color: Color::Black, role: Role::King }),
        dark_square: false,
        highlight: true,
        check: true,
    };
    let tile = theme.sprite(key);
    assert_eq!(tile[0], pixel(630, 180));
    assert_eq!(tile[8099], pixel(719, 269));
    let empty = SpriteKey { piece: None, dark_square: false, highlight: false, check: false };
    assert_eq!(theme.sprite(empty)[91], pixel(1, 1));
}

#[test]
fn themes_registry_looks_up_by_pair() {
    let a = sheet_gif(720, 720, 256, &vec![1u8; 720 * 720]);
    let b = sheet_gif(720, 720, 256, &vec![2u8; 720 * 720]);
    let c = sheet_gif(720, 720, 256, &vec![3u8; 720 * 720]);
    let d = sheet_gif(720, 720, 256, &vec![4u8; 720 * 720]);
    let themes = Themes::try_new(2, &vec![vec![a.clone(), b.clone()], vec![c, d]]).unwrap();
    assert_eq!(themes.get(BoardTheme(0), PieceSet(0)).bar_color(), 1);
    assert_eq!(themes.get(BoardTheme(0), PieceSet(1)).bar_color(), 2);
    assert_eq!(themes.get(BoardTheme(1), PieceSet(0)).bar_color(), 3);
    assert_eq!(themes.get(BoardTheme(1), PieceSet(1)).bar_color(), 4);
    assert!(themes.contains(BoardTheme(1), PieceSet(1)));
    assert!(!themes.contains(BoardTheme(2), PieceSet(0)));
    assert!(!themes.contains(BoardTheme(0), PieceSet(2)));
    assert!(Themes::try_new(2, &vec![vec![a.clone()]]).is_none());
    assert!(Themes::try_new(1, &vec![vec![a.clone()], vec![vec![1, 2, 3]]]).is_none());
    assert!(Themes::try_new(1, &vec![vec![a], vec![b]]).is_some());
    assert!(Themes::try_new(3, &vec![]).is_some());
}
