//! Composing a frame: which squares to draw, where on the canvas the image
//! of them goes, and what the image holds.

use crate::board::{
    contains, lemma_cell_of_square_at, lemma_member_full_empty, lemma_same_piece,
    lemma_square_at, member, Orientation, Square, FULL,
};
use crate::frame::{
    bounding_box, changed, frame_view, lemma_frame_diff, lemma_full_box, lemma_no_change,
    lemma_single_box, lemma_tile_box, tile_box, FrameView, RenderFrame, TileBox,
};
use crate::raster::{
    cell, copy_region, fill_grid, lemma_cell_in_grid, lemma_index_row_col, lemma_row_col,
    lemma_shift_tiles, Region,
};
use crate::theme::{lemma_tile_drawn, Theme, ThemeView, AREA, SIDE, SQUARE};
use vstd::prelude::*;

verus! {

/// The pixel on row `row` and column `col` of the image that shows the
/// squares `diff` of `frame` within the rectangle `bx`: the pixel of the
/// square's tile where the square is one to draw, a transparent one elsewhere.
pub open spec fn composed_pixel(
    theme: ThemeView,
    o: Orientation,
    frame: FrameView,
    diff: u64,
    bx: TileBox,
    row: int,
    col: int,
) -> u8 {
    let sq = o.square_at(bx.x_min + col / (SQUARE as int), bx.y_min + row / (SQUARE as int));
    if member(diff, sq) {
        theme.tile_pixel(frame.key_at(sq), row % (SQUARE as int), col % (SQUARE as int))
    } else {
        theme.transparent_color()
    }
}

/// Where on the canvas the image for the squares `diff` goes, and how large
/// it is: the pixel of its top left corner as column and row, then its
/// width and height.
pub open spec fn rect_of(o: Orientation, diff: u64) -> ((usize, usize), (usize, usize)) {
    let bx = tile_box(o, diff);
    (
        ((SQUARE * bx.x_min) as usize, (SQUARE * bx.y_min) as usize),
        ((SQUARE * bx.cols()) as usize, (SQUARE * bx.rows()) as usize),
    )
}

/// The number of pixels of the image for the squares `diff`.
pub open spec fn image_len(o: Orientation, diff: u64) -> nat {
    let bx = tile_box(o, diff);
    ((SQUARE * bx.cols()) * (SQUARE * bx.rows())) as nat
}

/// An image has at most as many pixels as the canvas.
pub proof fn lemma_image_len(o: Orientation, diff: u64)
    ensures
        0 < image_len(o, diff) <= AREA,
{
    let bx = tile_box(o, diff);
    lemma_tile_box(o, diff);
    assert(0 < (SQUARE * bx.cols()) * (SQUARE * bx.rows()) <= AREA) by (nonlinear_arith)
        requires
            0 < bx.cols() <= 8,
            0 < bx.rows() <= 8,
    ;
}

/// The image that turns the canvas showing `prev` into one showing `frame`,
/// row by row: the whole board if nothing is on screen.
pub open spec fn composed(
    theme: ThemeView,
    o: Orientation,
    prev: Option<FrameView>,
    frame: FrameView,
) -> Seq<u8> {
    let diff = changed(prev, frame);
    let bx = tile_box(o, diff);
    let width = SQUARE * bx.cols();
    let height = SQUARE * bx.rows();
    Seq::new(
        (width * height) as nat,
        |i: int| composed_pixel(theme, o, frame, diff, bx, i / width, i % width),
    )
}

/// The pixel of the image while it is drawn: squares below `upto` are done.
spec fn partial_pixel(
    theme: ThemeView,
    o: Orientation,
    frame: FrameView,
    diff: u64,
    bx: TileBox,
    upto: u8,
    base: Seq<u8>,
    row: int,
    col: int,
) -> u8 {
    let sq = o.square_at(bx.x_min + col / (SQUARE as int), bx.y_min + row / (SQUARE as int));
    if member(diff, sq) && sq < upto {
        theme.tile_pixel(frame.key_at(sq), row % (SQUARE as int), col % (SQUARE as int))
    } else {
        cell(base, SQUARE * bx.cols(), row, col)
    }
}

/// Drawing the tile of square `sq` takes the image from one where the
/// squares below `sq` are done to one where those up to `sq` are.
proof fn lemma_draw_step(
    theme: ThemeView,
    o: Orientation,
    frame: FrameView,
    diff: u64,
    bx: TileBox,
    sq: u8,
    base: Seq<u8>,
    prior: Seq<u8>,
    after: Seq<u8>,
    to: Region,
    from: Region,
    row: int,
    col: int,
)
    requires
        bx.wf(),
        sq < 64,
        member(diff, sq),
        bx.x_min <= o.spec_x(sq) < bx.x_max,
        bx.y_min <= o.spec_y(sq) < bx.y_max,
        0 <= row < SQUARE * bx.rows(),
        0 <= col < SQUARE * bx.cols(),
        to.left == (o.spec_x(sq) - bx.x_min) * SQUARE,
        to.top == (o.spec_y(sq) - bx.y_min) * SQUARE,
        to.right == to.left + SQUARE,
        to.bottom == to.top + SQUARE,
        from.top == SQUARE * frame.key_at(sq).spec_y(),
        from.left == SQUARE * frame.key_at(sq).spec_x(),
        cell(prior, SQUARE * bx.cols(), row, col) == partial_pixel(
            theme,
            o,
            frame,
            diff,
            bx,
            sq,
            base,
            row,
            col,
        ),
        cell(after, SQUARE * bx.cols(), row, col) == (if to.covers(row, col) {
            cell(theme.sprite, SIDE as int, from.top + row - to.top, from.left + col - to.left)
        } else {
            cell(prior, SQUARE * bx.cols(), row, col)
        }),
    ensures
        cell(after, SQUARE * bx.cols(), row, col) == partial_pixel(
            theme,
            o,
            frame,
            diff,
            bx,
            (sq + 1) as u8,
            base,
            row,
            col,
        ),
{
    let cx = bx.x_min + col / (SQUARE as int);
    let cy = bx.y_min + row / (SQUARE as int);
    lemma_cell_of_square_at(o, cx, cy);
    lemma_square_at(o, sq);
    let at = o.square_at(cx, cy);
    assert(to.covers(row, col) <==> at == sq);
    if to.covers(row, col) {
        assert(row - to.top == row % (SQUARE as int));
        assert(col - to.left == col % (SQUARE as int));
    }
}

/// Draws into `buffer` the image that turns the canvas showing `prev` into
/// one showing `frame`, and says where on the canvas it goes: the pixel of
/// its top left corner as column and row, then its width and height. The
/// image takes the first width times height pixels of the buffer, row by
/// row; the rest of the buffer is left alone.
pub fn render_diff(
    buffer: &mut Vec<u8>,
    theme: &Theme,
    orientation: Orientation,
    prev: Option<&RenderFrame>,
    frame: &RenderFrame,
) -> (rect: ((usize, usize), (usize, usize)))
    requires
        theme.wf(),
        old(buffer).len() >= image_len(orientation, changed(frame_view(prev), frame@)),
    ensures
        rect == rect_of(orientation, changed(frame_view(prev), frame@)),
        rect.1.0 * rect.1.1 <= AREA,
        final(buffer).len() == old(buffer).len(),
        final(buffer)@.subrange(0, rect.1.0 * rect.1.1) == composed(
            theme@,
            orientation,
            frame_view(prev),
            frame@,
        ),
        forall|i: int|
            rect.1.0 * rect.1.1 <= i < old(buffer).len() ==> #[trigger] final(buffer)[i] == old(
                buffer,
            )[i],
{
    let ghost before = buffer@;
    let diff = match prev {
        Some(p) => p.diff(frame),
        None => FULL,
    };
    let (x_min, y_min, x_max, y_max) = bounding_box(orientation, diff);
    let ghost bx = tile_box(orientation, diff);
    let square = theme.square();
    assert(square == 90 && x_min < x_max <= 8 && y_min < y_max <= 8);
    let width = (x_max - x_min) * square;
    let height = (y_max - y_min) * square;
    assert(width == SQUARE * bx.cols() && height == SQUARE * bx.rows());
    assert(width * height <= AREA && height * width == width * height) by (nonlinear_arith)
        requires
            0 < width <= 720,
            0 < height <= 720,
    ;
    assert(width * height == image_len(orientation, diff));
    let transparent = theme.transparent_color();
    if prev.is_some() {
        fill_grid(buffer, height, width, transparent);
    }
    let ghost base = buffer@;
    proof {
        if prev.is_some() {
            assert forall|row: int, col: int| 0 <= row < height && 0 <= col < width implies cell(
                base,
                width as int,
                row,
                col,
            ) == transparent by {
                lemma_cell_in_grid(height as int, width as int, row, col);
            }
        }
    }
    let mut i: u8 = 0;
    while i < 64
        invariant
            i <= 64,
            theme.wf(),
            bx == tile_box(orientation, diff),
            bx.wf(),
            forall|sq: u8| #[trigger]
                member(diff, sq) ==> bx.x_min <= orientation.spec_x(sq) < bx.x_max && bx.y_min
                    <= orientation.spec_y(sq) < bx.y_max,
            x_min == bx.x_min,
            y_min == bx.y_min,
            square == SQUARE,
            width == SQUARE * bx.cols(),
            height == SQUARE * bx.rows(),
            width * height <= AREA,
            buffer.len() == before.len(),
            before.len() >= width * height,
            forall|k: int| width * height <= k < before.len() ==> #[trigger] buffer[k] == before[k],
            forall|row: int, col: int|
                0 <= row < height && 0 <= col < width ==> #[trigger] cell(
                    buffer@,
                    width as int,
                    row,
                    col,
                ) == partial_pixel(theme@, orientation, frame@, diff, bx, i, base, row, col),
        decreases 64 - i,
    {
        if contains(diff, i) {
            let sq = Square::new(i).unwrap();
            let key = frame.key_at(sq);
            let x = orientation.x(sq);
            let y = orientation.y(sq);
            proof {
                lemma_square_at(orientation, i);
            }
            let left = (x - x_min) * square;
            let top = (y - y_min) * square;
            let to = Region { top, left, bottom: top + square, right: left + square };
            let from = theme.sprite_region(key);
            let ghost prior = buffer@;
            copy_region(buffer, height, width, to, theme.sheet(), SIDE, SIDE, from);
            proof {
                assert forall|row: int, col: int|
                    0 <= row < height && 0 <= col < width implies #[trigger] cell(
                    buffer@,
                    width as int,
                    row,
                    col,
                ) == partial_pixel(
                    theme@,
                    orientation,
                    frame@,
                    diff,
                    bx,
                    (i + 1) as u8,
                    base,
                    row,
                    col,
                ) by {
                    lemma_draw_step(
                        theme@,
                        orientation,
                        frame@,
                        diff,
                        bx,
                        i,
                        base,
                        prior,
                        buffer@,
                        to,
                        from,
                        row,
                        col,
                    );
                }
            }
        }
        i += 1;
    }
    proof {
        let image = composed(theme@, orientation, frame_view(prev), frame@);
        assert forall|k: int| 0 <= k < width * height implies buffer@[k] == image[k] by {
            lemma_row_col(k, height as int, width as int);
            let row = k / (width as int);
            let col = k % (width as int);
            let cx = bx.x_min + col / (SQUARE as int);
            let cy = bx.y_min + row / (SQUARE as int);
            lemma_cell_of_square_at(orientation, cx, cy);
            if prev.is_none() {
                lemma_member_full_empty(orientation.square_at(cx, cy));
            }
            assert(cell(buffer@, width as int, row, col) == partial_pixel(
                theme@,
                orientation,
                frame@,
                diff,
                bx,
                64,
                base,
                row,
                col,
            ));
        }
        assert(buffer@.subrange(0, width * height) =~= image);
    }
    ((square * x_min, square * y_min), (width, height))
}

/// No pixel of a composed image has index 255.
pub proof fn lemma_composed_pixels(
    theme: ThemeView,
    o: Orientation,
    prev: Option<FrameView>,
    frame: FrameView,
)
    requires
        theme.wf(),
    ensures
        forall|i: int|
            0 <= i < composed(theme, o, prev, frame).len() ==> #[trigger] composed(
                theme,
                o,
                prev,
                frame,
            )[i] < 255,
{
    let image = composed(theme, o, prev, frame);
    let diff = changed(prev, frame);
    let bx = tile_box(o, diff);
    let width = SQUARE * bx.cols();
    assert forall|i: int| 0 <= i < image.len() implies #[trigger] image[i] < 255 by {
        let row = i / width;
        let col = i % width;
        let sq = o.square_at(bx.x_min + col / (SQUARE as int), bx.y_min + row / (SQUARE as int));
        let key = frame.key_at(sq);
        let r = row % (SQUARE as int);
        let c = col % (SQUARE as int);
        lemma_tile_drawn(key, r, c);
    }
}

/// The image that a frame's chunk holds has as many pixels as the
/// rectangle that the chunk announces, which is not empty and fits into
/// 16-bit numbers.
pub proof fn lemma_composed_len(
    theme: ThemeView,
    o: Orientation,
    prev: Option<FrameView>,
    frame: FrameView,
)
    ensures
        composed(theme, o, prev, frame).len() == rect_of(o, changed(prev, frame)).1.0 * rect_of(
            o,
            changed(prev, frame),
        ).1.1,
        0 < rect_of(o, changed(prev, frame)).1.0 <= SIDE,
        0 < rect_of(o, changed(prev, frame)).1.1 <= SIDE,
        rect_of(o, changed(prev, frame)).0.0 + rect_of(o, changed(prev, frame)).1.0 <= SIDE,
        rect_of(o, changed(prev, frame)).0.1 + rect_of(o, changed(prev, frame)).1.1 <= SIDE,
{
    let bx = tile_box(o, changed(prev, frame));
    lemma_tile_box(o, changed(prev, frame));
    assert(0 < (SQUARE * bx.cols()) * (SQUARE * bx.rows())) by (nonlinear_arith)
        requires
            0 < bx.cols(),
            0 < bx.rows(),
    ;
}

/// The first image always covers the whole canvas, whatever the frame
/// shows, a board without pieces included.
pub proof fn lemma_first_frame(theme: ThemeView, o: Orientation, frame: FrameView)
    ensures
        rect_of(o, changed(None, frame)) == ((0usize, 0usize), (SIDE, SIDE)),
        composed(theme, o, None, frame).len() == AREA,
{
    lemma_full_box(o);
    lemma_composed_len(theme, o, None, frame);
    assert((SQUARE * 8) * (SQUARE * 8) == AREA) by (nonlinear_arith);
}

/// Where two frames differ on one square only, the image that leads from
/// the one to the other is the tile of that square, at the place of that
/// square on the canvas, under either orientation.
pub proof fn lemma_one_square(
    theme: ThemeView,
    o: Orientation,
    prev: FrameView,
    frame: FrameView,
    sq: u8,
)
    requires
        sq < 64,
        forall|other: u8| other < 64 ==> (prev.same_at(frame, other) <==> other != sq),
    ensures
        rect_of(o, changed(Some(prev), frame)) == (
            ((SQUARE * o.spec_x(sq)) as usize, (SQUARE * o.spec_y(sq)) as usize),
            (SQUARE, SQUARE),
        ),
        composed(theme, o, Some(prev), frame) == theme.tile(frame.key_at(sq)),
{
    let diff = changed(Some(prev), frame);
    assert forall|other: u8| #[trigger] member(diff, other) <==> other == sq by {
        if other < 64 {
            lemma_frame_diff(prev, frame, other);
        }
    }
    lemma_single_box(o, diff, sq);
    lemma_square_at(o, sq);
    let bx = tile_box(o, diff);
    let image = composed(theme, o, Some(prev), frame);
    let tile = theme.tile(frame.key_at(sq));
    assert(SQUARE * bx.cols() == SQUARE && SQUARE * bx.rows() == SQUARE);
    assert(image.len() == tile.len()) by (nonlinear_arith)
        requires
            image.len() == (SQUARE * bx.cols()) * (SQUARE * bx.rows()),
            tile.len() == SQUARE * SQUARE,
            SQUARE * bx.cols() == SQUARE,
            SQUARE * bx.rows() == SQUARE,
    ;
    assert forall|i: int| 0 <= i < image.len() implies image[i] == tile[i] by {
        let row = i / (SQUARE as int);
        let col = i % (SQUARE as int);
        assert(image[i] == composed_pixel(theme, o, frame, diff, bx, row, col));
        assert(o.square_at(bx.x_min + col / (SQUARE as int), bx.y_min + row / (SQUARE as int))
            == sq);
    }
    assert(image =~= tile);
}

/// Where two frames of well-formed boards have the same highlight and the
/// same king in check, and their boards differ in the piece of one square
/// only, the image that leads from the one to the other is the tile of that
/// square, at the place of that square on the canvas.
pub proof fn lemma_one_piece(
    theme: ThemeView,
    o: Orientation,
    prev: FrameView,
    frame: FrameView,
    sq: u8,
)
    requires
        sq < 64,
        prev.board.wf(),
        frame.board.wf(),
        prev.highlighted == frame.highlighted,
        prev.checked == frame.checked,
        forall|other: u8|
            other < 64 ==> (prev.board.piece_at(other) == frame.board.piece_at(other) <==> other
                != sq),
    ensures
        rect_of(o, changed(Some(prev), frame)) == (
            ((SQUARE * o.spec_x(sq)) as usize, (SQUARE * o.spec_y(sq)) as usize),
            (SQUARE, SQUARE),
        ),
        composed(theme, o, Some(prev), frame) == theme.tile(frame.key_at(sq)),
{
    assert forall|other: u8| other < 64 implies (prev.same_at(frame, other) <==> other != sq) by {
        lemma_same_piece(prev.board, frame.board, other);
    }
    lemma_one_square(theme, o, prev, frame, sq);
}

/// Where two frames show the same on every square, the image that leads
/// from the one to the other is not empty: it is one tile in the top left
/// corner of the canvas, all of it transparent.
pub proof fn lemma_same_frame(theme: ThemeView, o: Orientation, prev: FrameView, frame: FrameView)
    requires
        forall|sq: u8| sq < 64 ==> prev.same_at(frame, sq),
    ensures
        rect_of(o, changed(Some(prev), frame)) == ((0usize, 0usize), (SQUARE, SQUARE)),
        composed(theme, o, Some(prev), frame) == Seq::new(
            (SQUARE * SQUARE) as nat,
            |i: int| theme.transparent_color(),
        ),
{
    let diff = changed(Some(prev), frame);
    assert forall|sq: u8| !member(diff, sq) by {
        if sq < 64 {
            lemma_frame_diff(prev, frame, sq);
        }
    }
    lemma_no_change(o, diff);
    let bx = tile_box(o, diff);
    let image = composed(theme, o, Some(prev), frame);
    assert(image.len() == SQUARE * SQUARE) by (nonlinear_arith)
        requires
            image.len() == (SQUARE * bx.cols()) * (SQUARE * bx.rows()),
            SQUARE * bx.cols() == SQUARE,
            SQUARE * bx.rows() == SQUARE,
    ;
    assert(image =~= Seq::new((SQUARE * SQUARE) as nat, |i: int| theme.transparent_color()));
}

/// The pixel on row `row` and column `col` of the canvas that shows `frame`.
pub open spec fn picture_pixel(
    theme: ThemeView,
    o: Orientation,
    frame: FrameView,
    row: int,
    col: int,
) -> u8 {
    theme.tile_pixel(
        frame.key_at(o.square_at(col / (SQUARE as int), row / (SQUARE as int))),
        row % (SQUARE as int),
        col % (SQUARE as int),
    )
}

/// The first image is the picture of the frame.
pub proof fn lemma_first_picture(
    theme: ThemeView,
    o: Orientation,
    frame: FrameView,
    row: int,
    col: int,
)
    requires
        0 <= row < SIDE,
        0 <= col < SIDE,
    ensures
        composed_pixel(theme, o, frame, FULL, tile_box(o, FULL), row, col) == picture_pixel(
            theme,
            o,
            frame,
            row,
            col,
        ),
{
    let x = col / (SQUARE as int);
    let y = row / (SQUARE as int);
    lemma_full_box(o);
    lemma_cell_of_square_at(o, x, y);
    lemma_member_full_empty(o.square_at(x, y));
}

/// The place that lies opposite `at`, seen from the middle of the canvas,
/// at the same place within its square.
pub open spec fn mirrored(at: int) -> int {
    SQUARE * (7 - at / (SQUARE as int)) + at % (SQUARE as int)
}

/// The place opposite lies in the square opposite, at the same place within it.
pub proof fn lemma_mirrored(at: int)
    ensures
        mirrored(at) / (SQUARE as int) == 7 - at / (SQUARE as int),
        mirrored(at) % (SQUARE as int) == at % (SQUARE as int),
{
    let side = SQUARE as int;
    lemma_shift_tiles(at % side, 7 - at / side, side);
    assert(mirrored(at) == at % side + (7 - at / side) * side);
    assert((at % side) / side == 0 && (at % side) % side == at % side);
}

/// Turning the board round mirrors the picture: the pixel that one
/// orientation shows on a square of the canvas, the other shows at the same
/// place within the square that lies opposite, seen from the middle of the
/// board.
pub proof fn lemma_mirrored_image(theme: ThemeView, frame: FrameView, row: int, col: int)
    requires
        0 <= row < SIDE,
        0 <= col < SIDE,
    ensures
        picture_pixel(theme, Orientation::White, frame, row, col) == picture_pixel(
            theme,
            Orientation::Black,
            frame,
            mirrored(row),
            mirrored(col),
        ),
{
    let x = col / (SQUARE as int);
    let y = row / (SQUARE as int);
    lemma_mirrored(row);
    lemma_mirrored(col);
    assert(Orientation::White.square_at(x, y) == Orientation::Black.square_at(7 - x, 7 - y));
}

/// The pixel on row `row` and column `col` of a canvas that showed `prev`,
/// after the image that leads to `frame` was painted over it at its place:
/// within the image, a pixel other than the transparent one replaces what
/// was there; everything else stays.
pub open spec fn painted_pixel(
    theme: ThemeView,
    o: Orientation,
    prev: FrameView,
    frame: FrameView,
    row: int,
    col: int,
) -> u8 {
    let ((left, top), (width, height)) = rect_of(o, changed(Some(prev), frame));
    let image = composed(theme, o, Some(prev), frame);
    if left <= col < left + width && top <= row < top + height && cell(
        image,
        width as int,
        row - top,
        col - left,
    ) != theme.transparent_color() {
        cell(image, width as int, row - top, col - left)
    } else {
        picture_pixel(theme, o, prev, row, col)
    }
}

/// Whether no tile that `frame` shows holds the transparent index.
pub open spec fn opaque_tiles(theme: ThemeView, frame: FrameView) -> bool {
    forall|sq: u8, row: int, col: int|
        sq < 64 && 0 <= row < SQUARE && 0 <= col < SQUARE ==> #[trigger] theme.tile_pixel(
            frame.key_at(sq),
            row,
            col,
        ) != theme.transparent_color()
}

/// The pixel on a row and a column of a composed image is the composed pixel of that place.
pub proof fn lemma_composed_cell(
    theme: ThemeView,
    o: Orientation,
    prev: Option<FrameView>,
    frame: FrameView,
    row: int,
    col: int,
)
    requires
        0 <= row < rect_of(o, changed(prev, frame)).1.1,
        0 <= col < rect_of(o, changed(prev, frame)).1.0,
    ensures
        cell(
            composed(theme, o, prev, frame),
            rect_of(o, changed(prev, frame)).1.0 as int,
            row,
            col,
        ) == composed_pixel(
            theme,
            o,
            frame,
            changed(prev, frame),
            tile_box(o, changed(prev, frame)),
            row,
            col,
        ),
{
    let diff = changed(prev, frame);
    let bx = tile_box(o, diff);
    lemma_tile_box(o, diff);
    let width = SQUARE * bx.cols();
    let height = SQUARE * bx.rows();
    let image = composed(theme, o, prev, frame);
    let k = row * width + col;
    assert(rect_of(o, diff).1.0 == width && rect_of(o, diff).1.1 == height);
    assert(0 <= k < width * height) by {
        lemma_cell_in_grid(height, width, row, col);
        assert(height * width == width * height) by (nonlinear_arith);
    }
    assert(k / width == row && k % width == col) by {
        lemma_index_row_col(width, row, col);
    }
    assert(image.len() == width * height);
    assert(image[k] == composed_pixel(theme, o, frame, diff, bx, k / width, k % width));
    assert(cell(image, width, row, col) == image[k]);
}

/// Painting is exact. On a canvas that shows `prev`, painting the image
/// that leads to `frame` gives the canvas that shows `frame`, pixel for
/// pixel and under either orientation, as long as no tile of `frame` holds
/// the transparent index.
pub proof fn lemma_painting(
    theme: ThemeView,
    o: Orientation,
    prev: FrameView,
    frame: FrameView,
    row: int,
    col: int,
)
    requires
        0 <= row < SIDE,
        0 <= col < SIDE,
        opaque_tiles(theme, frame),
    ensures
        painted_pixel(theme, o, prev, frame, row, col) == picture_pixel(theme, o, frame, row, col),
{
    let side = SQUARE as int;
    let diff = changed(Some(prev), frame);
    let bx = tile_box(o, diff);
    let ((left, top), (width, height)) = rect_of(o, diff);
    lemma_tile_box(o, diff);
    let cx = col / side;
    let cy = row / side;
    let sq = o.square_at(cx, cy);
    lemma_cell_of_square_at(o, cx, cy);
    lemma_frame_diff(prev, frame, sq);
    lemma_shift_tiles(col, -bx.x_min, side);
    lemma_shift_tiles(row, -bx.y_min, side);
    assert(col - left == col + (-bx.x_min) * side && row - top == row + (-bx.y_min) * side);
    let inside = left <= col < left + width && top <= row < top + height;
    assert(inside <==> bx.x_min <= cx < bx.x_max && bx.y_min <= cy < bx.y_max);
    if inside {
        lemma_composed_cell(theme, o, Some(prev), frame, row - top, col - left);
        assert(cell(composed(theme, o, Some(prev), frame), width as int, row - top, col - left)
            == (if member(diff, sq) {
            theme.tile_pixel(frame.key_at(sq), row % side, col % side)
        } else {
            theme.transparent_color()
        }));
    } else {
        assert(!member(diff, sq));
    }
    if !member(diff, sq) {
        assert(prev.same_at(frame, sq));
        assert(prev.key_at(sq) == frame.key_at(sq));
    }
}

} // verus!
