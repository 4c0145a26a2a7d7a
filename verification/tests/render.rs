use gift::block::{
    Block, ColorTableConfig, ColorTableExistence, ColorTableOrdering, DisposalMethod,
    GlobalColorTable, Header, ImageData, ImageDesc, LogicalScreenDesc, Trailer,
};
use gift::{Decoder, Encoder};
use lila_gif::api::{Comment, PlayerName, RequestBody, RequestFrame, RequestParams};
use lila_gif::board::{Board, Orientation, Square, Uci};
use lila_gif::frame::RenderFrame;
use lila_gif::gif::Sheet;
use lila_gif::compose::render_diff;
use lila_gif::render::{default_comment_bytes, PlayerBars, Render};
use lila_gif::theme::{BoardTheme, PieceSet, Theme, Themes};

const BAR: u8 = 200;
const CLEAR: u8 = 201;

fn pixel(row: usize, col: usize) -> u8 {
    if row == 0 && col == 360 {
        BAR
    } else if row == 0 && col == 660 {
        CLEAR
    } else {
        let tile = 8 * (row / 90) + col / 90;
        let part = if row % 90 >= 30 {
            2
        } else if col % 90 >= 30 {
            1
        } else {
            0
        };
        (3 * tile + part) as u8
    }
}

fn pixels() -> Vec<u8> {
    let mut out = Vec::with_capacity(720 * 720);
    for row in 0..720 {
        for col in 0..720 {
            out.push(pixel(row, col));
        }
    }
    out
}

fn palette() -> Vec<u8> {
    (0..768usize).map(|i| (i % 251) as u8).collect()
}

fn theme() -> Theme {
    Theme::from_sheet(Sheet {
        table_flags: 0xf7,
        palette: palette(),
        width: 720,
        height: 720,
        pixels: pixels(),
    })
    .unwrap()
}

fn themes() -> Themes {
    let config =
        ColorTableConfig::new(ColorTableExistence::Present, ColorTableOrdering::NotSorted, 256);
    let mut out = Vec::new();
    let mut enc = Encoder::new(&mut out).into_block_enc();
    enc.encode(Header::default()).unwrap();
    enc.encode(
        LogicalScreenDesc::default()
            .with_screen_width(720)
            .with_screen_height(720)
            .with_color_table_config(config),
    )
    .unwrap();
    enc.encode(GlobalColorTable::with_colors(&palette())).unwrap();
    enc.encode(ImageDesc::default().with_width(720).with_height(720)).unwrap();
    let mut image = ImageData::new(720 * 720);
    image.data_mut().extend_from_slice(&pixels());
    enc.encode(image).unwrap();
    enc.encode(Trailer::default()).unwrap();
    Themes::try_new(1, &vec![vec![out]]).unwrap()
}

fn sq(index: u8) -> Square {
    Square::new(index).unwrap()
}

/// The sets of a position: pawns, knights, bishops, rooks, queens, kings, white.
type Sets = [u64; 7];

const START: Sets = [
    0x00ff_0000_0000_ff00,
    0x4200_0000_0000_0042,
    0x2400_0000_0000_0024,
    0x8100_0000_0000_0081,
    0x0800_0000_0000_0008,
    0x1000_0000_0000_0010,
    0x0000_0000_0000_ffff,
];

/// The start position after the pawn went from a2 to a4.
const A4: Sets = [
    0x00ff_0000_0100_fe00,
    0x4200_0000_0000_0042,
    0x2400_0000_0000_0024,
    0x8100_0000_0000_0081,
    0x0800_0000_0000_0008,
    0x1000_0000_0000_0010,
    0x0000_0000_0100_feff,
];

/// The position after a2-a4 and the black pawn from h7 to h5.
const H5: Sets = [
    0x007f_0080_0100_fe00,
    0x4200_0000_0000_0042,
    0x2400_0000_0000_0024,
    0x8100_0000_0000_0081,
    0x0800_0000_0000_0008,
    0x1000_0000_0000_0010,
    0x0000_0000_0100_feff,
];

fn board(sets: Sets) -> Board {
    Board::new(sets[0], sets[1], sets[2], sets[3], sets[4], sets[5], sets[6]).unwrap()
}

/// What a frame shows, as the tests see it.
#[derive(Clone, Copy)]
struct Shown {
    sets: Sets,
    highlighted: u64,
    checked: u64,
}

impl Shown {
    fn frame(&self, delay: Option<u16>) -> RenderFrame {
        let squares: Vec<u8> = (0..64).filter(|i| self.highlighted >> i & 1 == 1).collect();
        let last_move = match squares.len() {
            0 => None,
            1 => Some(Uci::Put { to: sq(squares[0]) }),
            _ => Some(Uci::Normal { from: sq(squares[0]), to: sq(squares[1]) }),
        };
        let check = (0..64).find(|i| self.checked >> i & 1 == 1).map(sq);
        RenderFrame::new(board(self.sets), last_move, check, delay)
    }

    /// Row and column, on the sheet, of the tile for a square.
    fn tile(&self, square: usize) -> (usize, usize) {
        let bit = |set: u64| (set >> square & 1) as usize;
        let role = (0..6).find(|&r| bit(self.sets[r]) == 1).map_or(0, |r| r + 1);
        let dark = (square / 8 + square % 8 + 1) % 2;
        let x = if role > 0 { 4 * bit(self.sets[6]) } else { 0 } + 2 * bit(self.highlighted) + dark;
        let y = if role == 6 && bit(self.checked) == 1 { 7 } else { role };
        (y, x)
    }

    fn differs(&self, other: &Shown, square: usize) -> bool {
        let bit = |set: u64| set >> square & 1;
        (0..7).any(|i| bit(self.sets[i]) != bit(other.sets[i]))
            || bit(self.highlighted) != bit(other.highlighted)
            || bit(self.checked) != bit(other.checked)
    }
}

fn cell_of(white_below: bool, square: usize) -> (usize, usize) {
    if white_below {
        (square % 8, 7 - square / 8)
    } else {
        (7 - square % 8, square / 8)
    }
}

/// Left, top, width, height and pixels of the image that leads from `prev` to `next`.
fn expected(
    white_below: bool,
    prev: Option<&Shown>,
    next: &Shown,
) -> (usize, usize, usize, usize, Vec<u8>) {
    let changed: Vec<usize> =
        (0..64).filter(|&s| prev.map_or(true, |p| p.differs(next, s))).collect();
    let xs: Vec<usize> = changed.iter().map(|&s| cell_of(white_below, s).0).collect();
    let ys: Vec<usize> = changed.iter().map(|&s| cell_of(white_below, s).1).collect();
    let x_min = xs.iter().copied().min().unwrap_or(0);
    let y_min = ys.iter().copied().min().unwrap_or(0);
    let width = 90 * (xs.iter().copied().max().unwrap_or(0) + 1 - x_min);
    let height = 90 * (ys.iter().copied().max().unwrap_or(0) + 1 - y_min);
    let mut image = vec![CLEAR; width * height];
    for &s in &changed {
        let (x, y) = cell_of(white_below, s);
        let (tile_row, tile_col) = next.tile(s);
        for row in 0..90 {
            for col in 0..90 {
                image[(90 * (y - y_min) + row) * width + 90 * (x - x_min) + col] =
                    pixel(90 * tile_row + row, 90 * tile_col + col);
            }
        }
    }
    (90 * x_min, 90 * y_min, width, height, image)
}

fn orientation(white_below: bool) -> Orientation {
    if white_below {
        Orientation::White
    } else {
        Orientation::Black
    }
}

fn blocks_of(chunks: &[Vec<u8>]) -> Vec<Block> {
    let file: Vec<u8> = chunks.concat();
    Decoder::new(&file[..]).into_blocks().map(|block| block.unwrap()).collect()
}

fn pull_all(render: &mut Render) -> Vec<Vec<u8>> {
    let mut chunks = Vec::new();
    while let Some(chunk) = render.next() {
        chunks.push(chunk.to_vec());
        assert!(chunks.len() < 100);
    }
    chunks
}

fn still(shown: &Shown, white_below: bool, comment: Option<&[u8]>) -> RequestParams {
    let frame = shown.frame(None);
    RequestParams {
        white: None,
        black: None,
        comment: comment.map(|text| Comment::new(text.to_vec()).unwrap()),
        board: board(shown.sets),
        last_move: match frame.highlighted() {
            0 => None,
            bits => Some(Uci::Put { to: sq(bits.trailing_zeros() as u8) }),
        },
        check: None,
        orientation: orientation(white_below),
        theme: BoardTheme(0),
        piece: PieceSet(0),
    }
}

fn request_frame(shown: &Shown, delay: Option<u16>, from_to: Option<(u8, u8)>) -> RequestFrame {
    RequestFrame {
        board: board(shown.sets),
        delay,
        last_move: from_to.map(|(from, to)| Uci::Normal { from: sq(from), to: sq(to) }),
        check: (0..64).find(|i| shown.checked >> i & 1 == 1).map(sq),
    }
}

fn animation(frames: Vec<RequestFrame>, delay: u16, white: Option<&str>) -> RequestBody {
    RequestBody {
        white: white.map(|name| PlayerName(name.to_string())),
        black: None,
        comment: None,
        frames,
        orientation: Orientation::White,
        delay,
        theme: BoardTheme(0),
        piece: PieceSet(0),
    }
}

const PLAIN: Shown = Shown { sets: START, highlighted: 0, checked: 0 };
const MOVED: Shown = Shown { sets: A4, highlighted: 1 << 8 | 1 << 24, checked: 0 };
const REPLIED: Shown = Shown { sets: H5, highlighted: 1 << 55 | 1 << 39, checked: 0 };

#[test]
fn player_bars_from_either_name() {
    let name = |text: &str| Some(PlayerName(text.to_string()));
    assert!(PlayerBars::from(None, None).is_none());
    assert!(PlayerBars::from(name("a"), None).is_some());
    assert!(PlayerBars::from(None, name("b")).is_some());
    assert!(PlayerBars::from(name("a"), name("b")).is_some());
    assert!(PlayerBars::from(name(""), None).is_some());
}

#[test]
fn default_comment_is_the_project_address() {
    assert_eq!(default_comment_bytes(), b"https://github.com/lichess-org/lila-gif".to_vec());
}

#[test]
fn render_diff_first_frame_covers_the_canvas() {
    let theme = theme();
    for white_below in [true, false] {
        for shown in [PLAIN, MOVED, Shown { sets: [0; 7], highlighted: 0, checked: 0 }] {
            let mut buffer = vec![7u8; 720 * 720];
            let rect =
                render_diff(&mut buffer, &theme, orientation(white_below), None, &shown.frame(None));
            assert_eq!(rect, ((0, 0), (720, 720)));
            let (_, _, _, _, image) = expected(white_below, None, &shown);
            assert!(buffer == image);
        }
    }
}

#[test]
fn render_diff_first_frame_places_tiles() {
    let theme = theme();
    let mut buffer = vec![0u8; 720 * 720];
    render_diff(&mut buffer, &theme, Orientation::White, None, &PLAIN.frame(None));
    // a1, bottom left: white rook on a dark square.
    assert_eq!(buffer[630 * 720], pixel(4 * 90, 5 * 90));
    // h8, top right: black rook on a dark square.
    assert_eq!(buffer[630], pixel(4 * 90, 90));
    // e4, empty light square.
    assert_eq!(buffer[4 * 90 * 720 + 4 * 90 + 91], pixel(0, 91));
    let mut buffer = vec![0u8; 720 * 720];
    render_diff(&mut buffer, &theme, Orientation::Black, None, &PLAIN.frame(None));
    // a1 is now top right, h8 bottom left.
    assert_eq!(buffer[630], pixel(4 * 90, 5 * 90));
    assert_eq!(buffer[630 * 720], pixel(4 * 90, 90));
}

#[test]
fn render_diff_of_one_square_is_one_tile() {
    let theme = theme();
    for white_below in [true, false] {
        for square in [0usize, 7, 12, 28, 35, 56, 63] {
            let prev = Shown { sets: [0; 7], highlighted: 0, checked: 0 };
            let mut next = prev;
            next.sets[4] |= 1 << square;
            next.sets[6] |= 1 << square;
            let mut buffer = vec![9u8; 720 * 720];
            let rect = render_diff(
                &mut buffer,
                &theme,
                orientation(white_below),
                Some(&prev.frame(None)),
                &next.frame(Some(5)),
            );
            let (x, y) = cell_of(white_below, square);
            assert_eq!(rect, ((90 * x, 90 * y), (90, 90)));
            let dark = (square / 8 + square % 8 + 1) % 2;
            for row in 0..90 {
                for col in 0..90 {
                    assert_eq!(buffer[row * 90 + col], pixel(450 + row, 90 * (4 + dark) + col));
                }
            }
            assert!(buffer[8100..].iter().all(|&p| p == 9));
        }
    }
}

#[test]
fn render_diff_without_change_is_one_transparent_tile() {
    let theme = theme();
    for white_below in [true, false] {
        let mut buffer = vec![9u8; 720 * 720];
        let rect = render_diff(
            &mut buffer,
            &theme,
            orientation(white_below),
            Some(&MOVED.frame(Some(1))),
            &MOVED.frame(Some(2)),
        );
        assert_eq!(rect, ((0, 0), (90, 90)));
        assert!(buffer[..8100].iter().all(|&p| p == CLEAR));
        assert!(buffer[8100..].iter().all(|&p| p == 9));
    }
}

#[test]
fn render_diff_spans_the_squares_of_a_move() {
    let theme = theme();
    let mut buffer = vec![9u8; 720 * 720];
    let rect = render_diff(
        &mut buffer,
        &theme,
        Orientation::White,
        Some(&PLAIN.frame(None)),
        &MOVED.frame(None),
    );
    assert_eq!(rect, ((0, 360), (90, 270)));
    let (left, top, width, height, image) = expected(true, Some(&PLAIN), &MOVED);
    assert_eq!((left, top, width, height), (0, 360, 90, 270));
    assert!(buffer[..90 * 270] == image[..]);
    // a4 on top: a white pawn on a highlighted light square.
    assert_eq!(buffer[0], pixel(90, 6 * 90));
    // a3 between them did not change.
    assert!(buffer[8100..16200].iter().all(|&p| p == CLEAR));
    // a2 below: an empty highlighted light square.
    assert_eq!(buffer[16200], pixel(0, 2 * 90));
    assert!(buffer[90 * 270..].iter().all(|&p| p == 9));
    let rect = render_diff(
        &mut buffer,
        &theme,
        Orientation::Black,
        Some(&PLAIN.frame(None)),
        &MOVED.frame(None),
    );
    assert_eq!(rect, ((630, 90), (90, 270)));
}

#[test]
fn render_diff_marks_the_king_in_check() {
    let theme = theme();
    let checked = Shown { sets: START, highlighted: 0, checked: 1 << 4 };
    let mut buffer = vec![0u8; 720 * 720];
    let rect = render_diff(
        &mut buffer,
        &theme,
        Orientation::White,
        Some(&PLAIN.frame(None)),
        &checked.frame(None),
    );
    assert_eq!(rect, ((360, 630), (90, 90)));
    assert_eq!(buffer[0], pixel(7 * 90, 5 * 90));
    assert_eq!(buffer[8099], pixel(7 * 90 + 89, 5 * 90 + 89));
}

#[test]
fn still_image_is_two_chunks() {
    let themes = themes();
    for white_below in [true, false] {
        let mut render = Render::new_image(&themes, still(&PLAIN, white_below, None));
        let chunks = pull_all(&mut render);
        assert_eq!(chunks.len(), 2);
        assert_eq!(&chunks[0][..6], b"GIF89a");
        assert_eq!(&chunks[0][6..13], &[0xd0, 0x02, 0xd0, 0x02, 0xf7, 0, 0]);
        assert_eq!(&chunks[0][13..781], &palette()[..]);
        assert_eq!(chunks[1], vec![0x3b]);
        let blocks = blocks_of(&chunks);
        assert_eq!(blocks.len(), 8);
        assert!(matches!(blocks[0], Block::Header(_)));
        assert!(matches!(blocks[1], Block::LogicalScreenDesc(_)));
        assert!(matches!(blocks[2], Block::GlobalColorTable(_)));
        match &blocks[3] {
            Block::Application(app) => assert_eq!(app.loop_count(), Some(0)),
            _ => panic!("application"),
        }
        match &blocks[4] {
            Block::Comment(comment) => assert_eq!(
                comment.comments(),
                &vec![b"https://github.com/lichess-org/lila-gif".to_vec()]
            ),
            _ => panic!("comment"),
        }
        match &blocks[5] {
            Block::ImageDesc(desc) => {
                assert_eq!((desc.left(), desc.top(), desc.width(), desc.height()), (0, 0, 720, 720))
            }
            _ => panic!("image desc"),
        }
        match &blocks[6] {
            Block::ImageData(data) => {
                assert!(data.data() == &expected(white_below, None, &PLAIN).4[..])
            }
            _ => panic!("image data"),
        }
        assert!(matches!(blocks[7], Block::Trailer(_)));
    }
}

#[test]
fn exhausted_render_stays_exhausted() {
    let themes = themes();
    let mut render = Render::new_image(&themes, still(&PLAIN, true, None));
    assert!(render.next().is_some());
    assert!(render.next().is_some());
    for _ in 0..10 {
        assert!(render.next().is_none());
    }
    let frames = vec![request_frame(&PLAIN, None, None)];
    let mut render = Render::new_animation(&themes, animation(frames, 10, None));
    assert_eq!(pull_all(&mut render).len(), 2);
    for _ in 0..10 {
        assert!(render.next().is_none());
    }
}

#[test]
fn still_image_shows_the_last_move() {
    let themes = themes();
    let shown = Shown { sets: START, highlighted: 1 << 20, checked: 0 };
    let mut render = Render::new_image(&themes, still(&shown, true, None));
    let blocks = blocks_of(&pull_all(&mut render));
    match &blocks[6] {
        Block::ImageData(data) => assert!(data.data() == &expected(true, None, &shown).4[..]),
        _ => panic!("image data"),
    }
}

#[test]
fn comment_of_the_caller_is_written() {
    let themes = themes();
    let mut render = Render::new_image(&themes, still(&PLAIN, true, Some(b"hello")));
    let blocks = blocks_of(&pull_all(&mut render));
    match &blocks[4] {
        Block::Comment(comment) => assert_eq!(comment.comments(), &vec![b"hello".to_vec()]),
        _ => panic!("comment"),
    }
}

#[test]
fn empty_comment_is_left_out() {
    let themes = themes();
    let mut render = Render::new_image(&themes, still(&PLAIN, true, Some(b"")));
    let blocks = blocks_of(&pull_all(&mut render));
    assert_eq!(blocks.len(), 7);
    assert!(matches!(blocks[3], Block::Application(_)));
    assert!(matches!(blocks[4], Block::ImageDesc(_)));
}

#[test]
fn animation_of_three_frames() {
    let themes = themes();
    let frames = vec![
        request_frame(&PLAIN, None, None),
        request_frame(&MOVED, Some(10), Some((8, 24))),
        request_frame(&REPLIED, None, Some((55, 39))),
    ];
    let mut render = Render::new_animation(&themes, animation(frames, 50, None));
    let chunks = pull_all(&mut render);
    assert_eq!(chunks.len(), 4);
    assert_eq!(*chunks[3].last().unwrap(), 0x3b);
    let first = blocks_of(&[chunks[0].clone(), vec![0x3b]]);
    assert_eq!(first.len(), 9);
    match &first[5] {
        Block::GraphicControl(ctrl) => {
            assert_eq!(ctrl.delay_time_cs(), 50);
            assert_eq!(ctrl.disposal_method(), DisposalMethod::NoAction);
            assert_eq!(ctrl.transparent_color(), None);
            assert_eq!(ctrl.flags(), 0);
        }
        _ => panic!("graphic control"),
    }
    let blocks = blocks_of(&chunks);
    assert_eq!(blocks.len(), 18);
    match &blocks[6] {
        Block::ImageDesc(desc) => {
            assert_eq!((desc.left(), desc.top(), desc.width(), desc.height()), (0, 0, 720, 720))
        }
        _ => panic!("image desc"),
    }
    match &blocks[7] {
        Block::ImageData(data) => assert!(data.data() == &expected(true, None, &PLAIN).4[..]),
        _ => panic!("image data"),
    }
    // The second frame: its own delay, and the squares a2 to a4.
    match &blocks[8] {
        Block::GraphicControl(ctrl) => {
            assert_eq!(ctrl.delay_time_cs(), 10);
            assert_eq!(ctrl.disposal_method(), DisposalMethod::Keep);
            assert_eq!(ctrl.transparent_color(), Some(CLEAR));
            assert_eq!(ctrl.flags(), 5);
        }
        _ => panic!("graphic control"),
    }
    match &blocks[9] {
        Block::ImageDesc(desc) => {
            assert_eq!((desc.left(), desc.top(), desc.width(), desc.height()), (0, 360, 90, 270))
        }
        _ => panic!("image desc"),
    }
    match &blocks[10] {
        Block::ImageData(data) => {
            let image = expected(true, Some(&PLAIN), &MOVED).4;
            assert_eq!(data.data().len(), 90 * 270);
            assert!(data.data() == &image[..]);
            assert!(data.data()[8100..16200].iter().all(|&p| p == CLEAR));
        }
        _ => panic!("image data"),
    }
    // The third frame: the delay of the request.
    match &blocks[11] {
        Block::GraphicControl(ctrl) => {
            assert_eq!(ctrl.delay_time_cs(), 50);
            assert_eq!(ctrl.disposal_method(), DisposalMethod::Keep);
            assert_eq!(ctrl.transparent_color(), Some(CLEAR));
        }
        _ => panic!("graphic control"),
    }
    let (left, top, width, height, image) = expected(true, Some(&MOVED), &REPLIED);
    assert_eq!((left, top, width, height), (0, 90, 720, 540));
    match &blocks[12] {
        Block::ImageDesc(desc) => assert_eq!(
            (desc.left(), desc.top(), desc.width(), desc.height()),
            (left as u16, top as u16, width as u16, height as u16)
        ),
        _ => panic!("image desc"),
    }
    match &blocks[13] {
        Block::ImageData(data) => assert!(data.data() == &image[..]),
        _ => panic!("image data"),
    }
    // The filler frame and the trailer.
    match &blocks[14] {
        Block::GraphicControl(ctrl) => {
            assert_eq!(ctrl.delay_time_cs(), 1);
            assert_eq!(ctrl.disposal_method(), DisposalMethod::Keep);
            assert_eq!(ctrl.transparent_color(), Some(CLEAR));
        }
        _ => panic!("graphic control"),
    }
    match &blocks[15] {
        Block::ImageDesc(desc) => {
            assert_eq!((desc.left(), desc.top(), desc.width(), desc.height()), (0, 0, 720, 720))
        }
        _ => panic!("image desc"),
    }
    match &blocks[16] {
        Block::ImageData(data) => {
            assert_eq!(data.data().len(), 720 * 720);
            assert!(data.data().iter().all(|&p| p == BAR));
        }
        _ => panic!("image data"),
    }
    assert!(matches!(blocks[17], Block::Trailer(_)));
}

#[test]
fn every_image_has_the_size_it_declares() {
    let themes = themes();
    let frames = vec![
        request_frame(&PLAIN, None, None),
        request_frame(&PLAIN, None, None),
        request_frame(&MOVED, Some(0), Some((8, 24))),
        request_frame(&REPLIED, Some(65535), Some((55, 39))),
    ];
    let mut render = Render::new_animation(&themes, animation(frames, 3, Some("white")));
    let chunks = pull_all(&mut render);
    assert_eq!(chunks.len(), 5);
    let file: Vec<u8> = chunks.concat();
    let mut images = 0;
    for frame in Decoder::new(&file[..]).into_frames() {
        let frame = frame.unwrap();
        assert_eq!(
            frame.image_data.data().len(),
            frame.image_desc.width() as usize * frame.image_desc.height() as usize
        );
        assert!(frame.image_desc.width() >= 90 && frame.image_desc.height() >= 90);
        images += 1;
    }
    assert_eq!(images, 5);
    assert_eq!(*file.last().unwrap(), 0x3b);
}

#[test]
fn unchanged_frame_is_one_transparent_tile() {
    let themes = themes();
    let frames = vec![request_frame(&PLAIN, None, None), request_frame(&PLAIN, Some(4), None)];
    let mut render = Render::new_animation(&themes, animation(frames, 20, None));
    let chunks = pull_all(&mut render);
    let second = blocks_of(&[chunks[..2].concat(), vec![0x3b]]);
    match &second[9] {
        Block::ImageDesc(desc) => {
            assert_eq!((desc.left(), desc.top(), desc.width(), desc.height()), (0, 0, 90, 90))
        }
        _ => panic!("image desc"),
    }
    match &second[10] {
        Block::ImageData(data) => {
            assert_eq!(data.data().len(), 8100);
            assert!(data.data().iter().all(|&p| p == CLEAR));
        }
        _ => panic!("image data"),
    }
}

#[test]
fn bars_shift_later_frames_down() {
    let themes = themes();
    let frames = || {
        vec![request_frame(&PLAIN, None, None), request_frame(&MOVED, None, Some((8, 24)))]
    };
    let mut render = Render::new_animation(&themes, animation(frames(), 20, Some("white")));
    let blocks = blocks_of(&pull_all(&mut render));
    match &blocks[6] {
        Block::ImageDesc(desc) => {
            assert_eq!((desc.left(), desc.top(), desc.width(), desc.height()), (0, 0, 720, 720))
        }
        _ => panic!("image desc"),
    }
    match &blocks[9] {
        Block::ImageDesc(desc) => {
            assert_eq!((desc.left(), desc.top(), desc.width(), desc.height()), (0, 420, 90, 270))
        }
        _ => panic!("image desc"),
    }
    let mut render = Render::new_animation(&themes, animation(frames(), 20, None));
    let blocks = blocks_of(&pull_all(&mut render));
    match &blocks[9] {
        Block::ImageDesc(desc) => assert_eq!(desc.top(), 360),
        _ => panic!("image desc"),
    }
}

#[test]
fn animation_of_one_frame_ends_with_the_filler() {
    let themes = themes();
    let frames = vec![request_frame(&MOVED, None, Some((8, 24)))];
    let mut render = Render::new_animation(&themes, animation(frames, 10, None));
    let blocks = blocks_of(&pull_all(&mut render));
    assert_eq!(blocks.len(), 12);
    match &blocks[5] {
        Block::GraphicControl(ctrl) => assert_eq!(ctrl.delay_time_cs(), 10),
        _ => panic!("graphic control"),
    }
    match &blocks[7] {
        Block::ImageData(data) => assert!(data.data() == &expected(true, None, &MOVED).4[..]),
        _ => panic!("image data"),
    }
    assert!(matches!(blocks[8], Block::GraphicControl(_)));
    match &blocks[10] {
        Block::ImageData(data) => assert!(data.data().iter().all(|&p| p == BAR)),
        _ => panic!("image data"),
    }
    assert!(matches!(blocks[11], Block::Trailer(_)));
}

#[test]
fn renders_of_the_same_request_are_the_same() {
    let themes = themes();
    let frames = || {
        vec![
            request_frame(&PLAIN, None, None),
            request_frame(&MOVED, Some(10), Some((8, 24))),
            request_frame(&REPLIED, None, Some((55, 39))),
        ]
    };
    let mut a = Render::new_animation(&themes, animation(frames(), 50, None));
    let mut b = Render::new_animation(&themes, animation(frames(), 50, None));
    assert!(pull_all(&mut a) == pull_all(&mut b));
    let mut a = Render::new_image(&themes, still(&MOVED, false, Some(b"x")));
    let mut b = Render::new_image(&themes, still(&MOVED, false, Some(b"x")));
    assert!(pull_all(&mut a) == pull_all(&mut b));
}

#[test]
fn painting_the_frames_gives_each_picture() {
    let theme = theme();
    for white_below in [true, false] {
        let checked = Shown { sets: H5, highlighted: 1 << 3 | 1 << 39, checked: 1 << 60 };
        let shown = [PLAIN, MOVED, MOVED, REPLIED, checked, PLAIN];
        let frames = shown.iter().map(|s| s.frame(None)).collect::<Vec<_>>();
        let mut canvas = vec![0u8; 720 * 720];
        let mut buffer = vec![0u8; 720 * 720];
        for (i, frame) in frames.iter().enumerate() {
            let prev = if i == 0 { None } else { Some(&frames[i - 1]) };
            let ((left, top), (width, height)) =
                render_diff(&mut buffer, &theme, orientation(white_below), prev, frame);
            for row in 0..height {
                for col in 0..width {
                    let p = buffer[row * width + col];
                    if i == 0 || p != CLEAR {
                        canvas[(top + row) * 720 + left + col] = p;
                    }
                }
            }
            assert!(canvas == expected(white_below, None, &shown[i]).4);
        }
    }
}
