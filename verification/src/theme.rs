//! Sprite sheets: for each pair of a board skin and a piece set, one sheet
//! of 8 by 8 tiles that holds every square the renderer can draw.

use crate::board::{Color, Piece, Role};
use crate::gif::{decode_sheet, decoded_sheet, table_len, table_len_of, Sheet};
use crate::raster::{cell, copy_region, lemma_index_row_col, Region};
use crate::scan::{is_safe_sheet, safe_sheet};
use vstd::prelude::*;

verus! {

/// The side of a tile, and of a square on the canvas, in pixels.
pub const SQUARE: usize = 90;

/// The side of a sheet, and of the canvas, in pixels: 8 tiles.
pub const SIDE: usize = 720;

/// The number of pixels of a sheet, and of the canvas.
pub const AREA: usize = 518400;

/// The height of a bar with a player's name, in pixels.
pub const BAR_HEIGHT: usize = 60;

/// Where the sheet shows the colour of the bars: on its first row.
pub const BAR_COLOR_AT: usize = 360;

/// Where the sheet shows the colour that stands for transparency: on its first row.
pub const TRANSPARENT_COLOR_AT: usize = 660;

/// The row of tiles that holds the king in check.
pub const CHECK_ROW: usize = 7;

/// What to draw on a square.
#[derive(Clone, Copy, Debug)]
pub struct SpriteKey {
    pub piece: Option<Piece>,
    pub dark_square: bool,
    pub highlight: bool,
    pub check: bool,
}

impl SpriteKey {
    /// The column of the tile on the sheet: 4 for a white piece, plus 2 for
    /// a highlighted square, plus 1 for a dark square.
    pub open spec fn spec_x(self) -> int {
        (if self.piece matches Some(p) && p.color == Color::White {
            4int
        } else {
            0int
        }) + (if self.highlight {
            2int
        } else {
            0int
        }) + (if self.dark_square {
            1int
        } else {
            0int
        })
    }

    /// The row of the tile on the sheet: 7 for a king in check, else the
    /// number of the piece's role, and 0 for an empty square.
    pub open spec fn spec_y(self) -> int {
        match self.piece {
            Some(piece) => if self.check && piece.role == Role::King {
                7
            } else {
                piece.role.spec_index()
            },
            None => 0,
        }
    }

    /// The column of the tile on the sheet, from 0 to 7.
    pub fn x(&self) -> (x: usize)
        ensures
            x == self.spec_x(),
            x < 8,
    {
        let white: usize = match self.piece {
            Some(p) => if p.color.is_white() {
                4
            } else {
                0
            },
            None => 0,
        };
        let highlight: usize = if self.highlight {
            2
        } else {
            0
        };
        let dark: usize = if self.dark_square {
            1
        } else {
            0
        };
        white + highlight + dark
    }

    /// The row of the tile on the sheet, from 0 to 7.
    pub fn y(&self) -> (y: usize)
        ensures
            y == self.spec_y(),
            y < 8,
    {
        match self.piece {
            Some(piece) => {
                if self.check && piece.role == Role::King {
                    CHECK_ROW
                } else {
                    piece.role.index()
                }
            },
            None => 0,
        }
    }
}

/// How the global colour table of a theme is laid out.
#[derive(Clone, Copy, Debug, PartialEq, Eq, Structural)]
pub struct ColorTableConfig {
    /// Whether the file holds a global colour table.
    pub present: bool,
    /// Whether its colours are sorted by importance.
    pub sorted: bool,
    /// The number of its colours.
    pub len: usize,
}

/// What a theme is made of.
pub struct ThemeView {
    /// The flags of the sheet's logical screen descriptor.
    pub table_flags: u8,
    /// The colours of the palette, three bytes each.
    pub palette: Seq<u8>,
    /// The pixels of the sheet, row by row.
    pub sprite: Seq<u8>,
}

/// Whether the pixel at place `i` of a sheet can be written to an image: the
/// two colour cells can, and so can every tile but the four in the top row
/// that stand for a piece on an empty square, which no key selects.
pub open spec fn drawn(i: int) -> bool {
    ||| i == BAR_COLOR_AT
    ||| i == TRANSPARENT_COLOR_AT
    ||| i / (SIDE as int) >= SQUARE
    ||| i % (SIDE as int) < 4 * SQUARE
}

/// The tile of every key lies where the sheet can be written to an image.
pub proof fn lemma_tile_drawn(key: SpriteKey, row: int, col: int)
    requires
        0 <= row < SQUARE,
        0 <= col < SQUARE,
    ensures
        0 <= (SQUARE * key.spec_y() + row) * SIDE + (SQUARE * key.spec_x() + col) < AREA,
        drawn((SQUARE * key.spec_y() + row) * SIDE + (SQUARE * key.spec_x() + col)),
{
    let y = SQUARE * key.spec_y() + row;
    let x = SQUARE * key.spec_x() + col;
    assert(0 <= key.spec_x() < 8 && 0 <= key.spec_y() < 8);
    assert(key.spec_y() == 0 ==> key.spec_x() < 4);
    lemma_index_row_col(SIDE as int, y, x);
}

impl ThemeView {
    /// The sheet has 720 by 720 pixels, and none of those that can be
    /// written to an image has index 255, which cannot be written; the flags
    /// announce a colour table, and the palette has the size that they give.
    pub open spec fn wf(self) -> bool {
        &&& self.sprite.len() == AREA
        &&& forall|i: int|
            0 <= i < self.sprite.len() && drawn(i) ==> #[trigger] self.sprite[i] < 255
        &&& self.table_flags >= 128
        &&& self.palette.len() == 3 * table_len(self.table_flags)
    }

    /// The palette index that fills the name bars.
    pub open spec fn bar_color(self) -> u8 {
        self.sprite[BAR_COLOR_AT as int]
    }

    /// The palette index that stands for a transparent pixel.
    pub open spec fn transparent_color(self) -> u8 {
        self.sprite[TRANSPARENT_COLOR_AT as int]
    }

    /// The pixel on row `row` and column `col` of the tile for `key`.
    pub open spec fn tile_pixel(self, key: SpriteKey, row: int, col: int) -> u8 {
        cell(self.sprite, SIDE as int, SQUARE * key.spec_y() + row, SQUARE * key.spec_x() + col)
    }

    /// The tile for `key`: 90 rows of 90 pixels.
    pub open spec fn tile(self, key: SpriteKey) -> Seq<u8> {
        Seq::new(
            (SQUARE * SQUARE) as nat,
            |i: int| self.tile_pixel(key, i / (SQUARE as int), i % (SQUARE as int)),
        )
    }

    /// How the colour table is laid out.
    pub open spec fn color_table_config(self) -> ColorTableConfig {
        ColorTableConfig {
            present: self.table_flags >= 128,
            sorted: (self.table_flags / 8) % 2 == 1,
            len: table_len(self.table_flags) as usize,
        }
    }
}

/// The theme that a decoded sheet gives, if the sheet can serve as one: its
/// first frame is 720 pixels wide and 720 high, and the rest is as a theme
/// needs it.
pub open spec fn theme_of(sheet: Option<(u8, Seq<u8>, u16, u16, Seq<u8>)>) -> Option<ThemeView> {
    match sheet {
        Some((table_flags, palette, width, height, sprite)) => {
            let theme = ThemeView { table_flags, palette, sprite };
            if width == SIDE && height == SIDE && theme.wf() {
                Some(theme)
            } else {
                None
            }
        },
        None => None,
    }
}

/// The pieces and squares of one board skin and piece set, with their palette.
pub struct Theme {
    table_flags: u8,
    palette: Vec<u8>,
    sprite: Vec<u8>,
}

/// The abstract value of a theme that may be missing.
pub open spec fn theme_view(theme: Option<Theme>) -> Option<ThemeView> {
    match theme {
        Some(t) => Some(t@),
        None => None,
    }
}

/// Whether the pixel at place `i` of a sheet can be written to an image.
fn is_drawn(i: usize) -> (yes: bool)
    ensures
        yes == drawn(i as int),
{
    i == BAR_COLOR_AT || i == TRANSPARENT_COLOR_AT || i / SIDE >= SQUARE || i % SIDE < 4 * SQUARE
}

/// Whether every pixel that can be written to an image is below 255.
fn drawn_below_255(pixels: &Vec<u8>) -> (ok: bool)
    ensures
        ok <==> (forall|i: int| 0 <= i < pixels.len() && drawn(i) ==> #[trigger] pixels[i] < 255),
{
    let mut i: usize = 0;
    while i < pixels.len()
        invariant
            i <= pixels.len(),
            forall|j: int| 0 <= j < i && drawn(j) ==> #[trigger] pixels[j] < 255,
        decreases pixels.len() - i,
    {
        if pixels[i] == 255 && is_drawn(i) {
            return false;
        }
        i += 1;
    }
    true
}

impl Theme {
    /// What the theme is made of.
    pub closed spec fn view(&self) -> ThemeView {
        ThemeView { table_flags: self.table_flags, palette: self.palette@, sprite: self.sprite@ }
    }

    /// Holds of every theme that `new` and `from_sheet` hand out.
    pub open spec fn wf(&self) -> bool {
        self@.wf()
    }

    /// The theme of a sprite sheet in GIF format. The sheet must be one that
    /// gives a theme; `try_new` tests it.
    pub fn new(sprite_data: &[u8]) -> (theme: Theme)
        requires
            sheet_theme(sprite_data@).is_some(),
        ensures
            Some(theme@) == sheet_theme(sprite_data@),
            theme.wf(),
    {
        let sheet = decode_sheet(sprite_data).unwrap();
        Theme::from_sheet(sheet).unwrap()
    }

    /// The theme of a sprite sheet in GIF format, if the sheet gives one:
    /// the decoder can take the codes of its first image, the data can be
    /// decoded, and what comes out can serve as a theme.
    pub fn try_new(sprite_data: &[u8]) -> (theme: Option<Theme>)
        ensures
            theme_view(theme) == sheet_theme(sprite_data@),
            theme matches Some(t) ==> t.wf(),
    {
        if !is_safe_sheet(sprite_data) {
            return None;
        }
        match decode_sheet(sprite_data) {
            Some(sheet) => Theme::from_sheet(sheet),
            None => None,
        }
    }

    /// The theme of a decoded sheet, if the sheet can serve as one: it is
    /// 720 pixels wide and 720 high, no pixel that can be written to an
    /// image has index 255, and the palette has the size that the flags
    /// announce.
    pub fn from_sheet(sheet: Sheet) -> (theme: Option<Theme>)
        ensures
            theme_view(theme) == theme_of(Some(sheet@)),
            theme matches Some(t) ==> t.wf(),
    {
        if sheet.width != SIDE as u16 || sheet.height != SIDE as u16 || sheet.pixels.len() != AREA
            || sheet.table_flags < 128 || sheet.palette.len() != 3 * table_len_of(
            sheet.table_flags,
        ) || !drawn_below_255(&sheet.pixels) {
            return None;
        }
        Some(Theme { table_flags: sheet.table_flags, palette: sheet.palette, sprite: sheet.pixels })
    }

    /// How the colour table is laid out.
    pub fn color_table_config(&self) -> (config: ColorTableConfig)
        ensures
            config == self@.color_table_config(),
    {
        ColorTableConfig {
            present: self.table_flags >= 128,
            sorted: (self.table_flags / 8) % 2 == 1,
            len: table_len_of(self.table_flags),
        }
    }

    /// The flags of the colour table, as the sheet's file had them.
    pub fn table_flags(&self) -> (flags: u8)
        ensures
            flags == self@.table_flags,
    {
        self.table_flags
    }

    /// The colours of the palette, three bytes each.
    pub fn global_color_table(&self) -> (colors: &Vec<u8>)
        ensures
            colors@ == self@.palette,
    {
        &self.palette
    }

    /// The pixels of the sheet, row by row.
    pub fn sheet(&self) -> (pixels: &Vec<u8>)
        ensures
            pixels@ == self@.sprite,
    {
        &self.sprite
    }

    /// The palette index that fills the name bars.
    pub fn bar_color(&self) -> (color: u8)
        requires
            self.wf(),
        ensures
            color == self@.bar_color(),
            color < 255,
    {
        self.sprite[BAR_COLOR_AT]
    }

    /// The palette index that stands for a transparent pixel.
    pub fn transparent_color(&self) -> (color: u8)
        requires
            self.wf(),
        ensures
            color == self@.transparent_color(),
            color < 255,
    {
        self.sprite[TRANSPARENT_COLOR_AT]
    }

    /// The side of a square, in pixels.
    pub fn square(&self) -> (side: usize)
        ensures
            side == SQUARE,
    {
        SQUARE
    }

    /// The width of the board, in pixels.
    pub fn width(&self) -> (width: usize)
        ensures
            width == SIDE,
    {
        self.square() * 8
    }

    /// The height of a name bar, in pixels.
    pub fn bar_height(&self) -> (height: usize)
        ensures
            height == BAR_HEIGHT,
    {
        BAR_HEIGHT
    }

    /// The height of the board, in pixels.
    pub fn height(&self) -> (height: usize)
        ensures
            height == SIDE,
    {
        self.width()
    }

    /// Where the tile for `key` lies on the sheet.
    pub fn sprite_region(&self, key: SpriteKey) -> (region: Region)
        ensures
            region.top == SQUARE * key.spec_y(),
            region.left == SQUARE * key.spec_x(),
            region.bottom == region.top + SQUARE,
            region.right == region.left + SQUARE,
            region.fits(SIDE as int, SIDE as int),
    {
        let y = key.y();
        let x = key.x();
        Region {
            top: SQUARE * y,
            left: SQUARE * x,
            bottom: SQUARE + SQUARE * y,
            right: SQUARE + SQUARE * x,
        }
    }

    /// The tile for `key`: 90 rows of 90 pixels.
    pub fn sprite(&self, key: SpriteKey) -> (tile: Vec<u8>)
        requires
            self.wf(),
        ensures
            tile@ == self@.tile(key),
    {
        let mut tile = vec![0u8; SQUARE * SQUARE];
        let from = self.sprite_region(key);
        let to = Region { top: 0, left: 0, bottom: SQUARE, right: SQUARE };
        copy_region(&mut tile, SQUARE, SQUARE, to, &self.sprite, SIDE, SIDE, from);
        proof {
            assert forall|i: int| 0 <= i < SQUARE * SQUARE implies tile@[i] == self@.tile(key)[i] by {
                let row = i / (SQUARE as int);
                let col = i % (SQUARE as int);
                assert(tile@[i] == cell(tile@, SQUARE as int, row, col));
            }
            assert(tile@ =~= self@.tile(key));
        }
        tile
    }
}

/// A board skin, by its number in the registry.
#[derive(Clone, Copy, Debug)]
pub struct BoardTheme(pub usize);

/// A piece set, by its number in the registry.
#[derive(Clone, Copy, Debug)]
pub struct PieceSet(pub usize);

/// The theme that the data of a sheet gives: none if the decoder cannot
/// take the codes of its first image, if the data cannot be decoded, or if
/// what comes out cannot serve as a theme.
pub open spec fn sheet_theme(data: Seq<u8>) -> Option<ThemeView> {
    if safe_sheet(data) {
        theme_of(decoded_sheet(data))
    } else {
        None
    }
}

/// Whether each sheet of a list gives a theme.
pub open spec fn row_ok(row: Seq<Vec<u8>>) -> bool {
    forall|p: int| 0 <= p < row.len() ==> sheet_theme(#[trigger] row[p]@).is_some()
}

/// Whether the lists of sheets can make a registry: there is a list of
/// `pieces` sheets for each board skin, and each sheet gives a theme.
pub open spec fn sheets_ok(pieces: usize, sheets: Seq<Vec<Vec<u8>>>) -> bool {
    forall|b: int|
        0 <= b < sheets.len() ==> (#[trigger] sheets[b])@.len() == pieces && row_ok(sheets[b]@)
}

/// Whether each sheet of a list gives a theme.
fn check_row(row: &Vec<Vec<u8>>) -> (ok: bool)
    ensures
        ok == row_ok(row@),
{
    let mut p: usize = 0;
    while p < row.len()
        invariant
            p <= row@.len(),
            forall|j: int| 0 <= j < p ==> sheet_theme(#[trigger] row@[j]@).is_some(),
        decreases row@.len() - p,
    {
        if Theme::try_new(row[p].as_slice()).is_none() {
            assert(sheet_theme(row@[p as int]@).is_none());
            return false;
        }
        p += 1;
    }
    true
}

/// The themes of a list of sheets.
fn themes_of_row(row: &Vec<Vec<u8>>) -> (themes: Vec<Theme>)
    requires
        row_ok(row@),
    ensures
        themes@.len() == row@.len(),
        forall|p: int|
            0 <= p < row@.len() ==> (#[trigger] themes@[p]).wf() && Some(themes@[p]@)
                == sheet_theme(row@[p]@),
{
    let mut themes: Vec<Theme> = Vec::new();
    let mut p: usize = 0;
    while p < row.len()
        invariant
            p <= row@.len(),
            row_ok(row@),
            themes@.len() == p,
            forall|j: int|
                0 <= j < p ==> (#[trigger] themes@[j]).wf() && Some(themes@[j]@) == sheet_theme(
                    row@[j]@,
                ),
        decreases row@.len() - p,
    {
        assert(sheet_theme(row@[p as int]@).is_some());
        themes.push(Theme::new(row[p].as_slice()));
        p += 1;
    }
    themes
}

/// One theme for each pair of a board skin and a piece set.
pub struct Themes {
    map: Vec<Vec<Theme>>,
    pieces: usize,
}

impl Themes {
    /// The themes of each board skin, by piece set.
    pub closed spec fn view(&self) -> Seq<Seq<ThemeView>> {
        Seq::new(self.map@.len(), |b: int| Seq::new(self.map@[b]@.len(), |p: int| self.map@[b]@[p]@))
    }

    /// The number of board skins.
    pub closed spec fn boards(&self) -> nat {
        self.map@.len()
    }

    /// The number of piece sets.
    pub closed spec fn piece_sets(&self) -> nat {
        self.pieces as nat
    }

    /// Every board skin has a theme for every piece set, and each can serve.
    pub closed spec fn wf(&self) -> bool {
        forall|b: int|
            0 <= b < self.map@.len() ==> {
                &&& (#[trigger] self.map@[b])@.len() == self.pieces
                &&& forall|p: int| 0 <= p < self.pieces ==> (#[trigger] self.map@[b]@[p]).wf()
            }
    }

    /// The registry holds, for each board skin and each of the `pieces`
    /// piece sets, the theme that the sheet of the pair gives.
    pub open spec fn holds(&self, pieces: usize, sheets: Seq<Vec<Vec<u8>>>) -> bool {
        &&& self.boards() == sheets.len()
        &&& self.piece_sets() == pieces
        &&& forall|b: int, p: int|
            0 <= b < sheets.len() && 0 <= p < pieces ==> Some(#[trigger] self@[b][p])
                == sheet_theme(sheets[b]@[p]@)
    }

    /// Whether the registry has a theme for the pair.
    pub open spec fn has_theme(&self, board: BoardTheme, pieces: PieceSet) -> bool {
        board.0 < self.boards() && pieces.0 < self.piece_sets()
    }

    /// The registry of the themes whose sheets are given: for each board
    /// skin a list with the sheet, in GIF format, of each of the `pieces`
    /// piece sets. Each list must have that length and each sheet must give
    /// a theme; `try_new` tests it.
    pub fn new(pieces: usize, sheets: &Vec<Vec<Vec<u8>>>) -> (themes: Themes)
        requires
            sheets_ok(pieces, sheets@),
        ensures
            themes.wf(),
            themes.holds(pieces, sheets@),
    {
        let mut map: Vec<Vec<Theme>> = Vec::new();
        let mut b: usize = 0;
        while b < sheets.len()
            invariant
                b <= sheets@.len(),
                sheets_ok(pieces, sheets@),
                map@.len() == b,
                forall|i: int|
                    0 <= i < b ==> {
                        &&& (#[trigger] map@[i])@.len() == pieces
                        &&& forall|p: int|
                            0 <= p < pieces ==> (#[trigger] map@[i]@[p]).wf() && Some(map@[i]@[p]@)
                                == sheet_theme(sheets@[i]@[p]@)
                    },
            decreases sheets@.len() - b,
        {
            let row = &sheets[b];
            assert(sheets@[b as int]@.len() == pieces && row_ok(sheets@[b as int]@));
            map.push(themes_of_row(row));
            b += 1;
        }
        Themes { map, pieces }
    }

    /// The registry of the themes whose sheets are given, if each list has
    /// `pieces` sheets and each sheet gives a theme. Every sheet is tested
    /// before the registry is built.
    pub fn try_new(pieces: usize, sheets: &Vec<Vec<Vec<u8>>>) -> (themes: Option<Themes>)
        ensures
            themes.is_some() <==> sheets_ok(pieces, sheets@),
            themes matches Some(t) ==> t.wf() && t.holds(pieces, sheets@),
    {
        let mut b: usize = 0;
        while b < sheets.len()
            invariant
                b <= sheets@.len(),
                forall|i: int|
                    0 <= i < b ==> (#[trigger] sheets@[i])@.len() == pieces && row_ok(sheets@[i]@),
            decreases sheets@.len() - b,
        {
            let row = &sheets[b];
            if row.len() != pieces || !check_row(row) {
                return None;
            }
            b += 1;
        }
        Some(Themes::new(pieces, sheets))
    }

    /// Whether the registry has a theme for the pair.
    pub fn contains(&self, board: BoardTheme, pieces: PieceSet) -> (found: bool)
        ensures
            found == self.has_theme(board, pieces),
    {
        board.0 < self.map.len() && pieces.0 < self.pieces
    }

    /// The theme of a board skin and a piece set.
    pub fn get(&self, board: BoardTheme, pieces: PieceSet) -> (theme: &Theme)
        requires
            self.wf(),
            self.has_theme(board, pieces),
        ensures
            theme.wf(),
            theme@ == self@[board.0 as int][pieces.0 as int],
    {
        &self.map[board.0][pieces.0]
    }
}

} // verus!
