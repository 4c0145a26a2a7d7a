//! Writing a file out, chunk by chunk.

use crate::api::{comment_view, Comment, PlayerName, RequestBody, RequestFrame, RequestParams};
use crate::board::{Orientation, FULL};
use crate::compose::{
    composed, lemma_composed_len, lemma_composed_pixels, lemma_image_len, rect_of, render_diff,
};
use crate::frame::{changed, frame_of, lemma_full_box, lemma_tile_box, FrameView, RenderFrame};
use crate::gif::{
    block_wf, blocks_bytes, bytes_contents, lemma_screen_flags, screen_flags, table_len, Block,
    Chunk, DISPOSAL_KEEP, DISPOSAL_NONE,
};
use crate::raster::fill_grid;
use crate::theme::{Theme, ThemeView, Themes, AREA, BAR_HEIGHT, SIDE};
use bytes::Bytes;
use vstd::prelude::*;
use vstd::slice::slice_subrange;

verus! {

/// Marks a render whose canvas carries name bars above and below the board.
pub struct PlayerBars {}

impl PlayerBars {
    /// Bars are present as soon as either player has a name.
    pub fn from(white: Option<PlayerName>, black: Option<PlayerName>) -> (bars: Option<PlayerBars>)
        ensures
            bars.is_some() <==> (white.is_some() || black.is_some()),
    {
        if white.is_some() || black.is_some() {
            Some(PlayerBars {})
        } else {
            None
        }
    }
}

/// The comment written where the caller gives none.
pub open spec fn default_comment() -> Seq<u8> {
    seq![
        0x68u8, 0x74u8, 0x74u8, 0x70u8, 0x73u8, 0x3au8, 0x2fu8, 0x2fu8, 0x67u8, 0x69u8, 0x74u8,
        0x68u8, 0x75u8, 0x62u8, 0x2eu8, 0x63u8, 0x6fu8, 0x6du8, 0x2fu8, 0x6cu8, 0x69u8, 0x63u8,
        0x68u8, 0x65u8, 0x73u8, 0x73u8, 0x2du8, 0x6fu8, 0x72u8, 0x67u8, 0x2fu8, 0x6cu8, 0x69u8,
        0x6cu8, 0x61u8, 0x2du8, 0x67u8, 0x69u8, 0x66u8,
    ]
}

/// The comment written where the caller gives none: the address of the project.
pub fn default_comment_bytes() -> (text: Vec<u8>)
    ensures
        text@ == default_comment(),
        text@.len() == 39,
{
    let text = vec![
        0x68u8, 0x74u8, 0x74u8, 0x70u8, 0x73u8, 0x3au8, 0x2fu8, 0x2fu8, 0x67u8, 0x69u8, 0x74u8,
        0x68u8, 0x75u8, 0x62u8, 0x2eu8, 0x63u8, 0x6fu8, 0x6du8, 0x2fu8, 0x6cu8, 0x69u8, 0x63u8,
        0x68u8, 0x65u8, 0x73u8, 0x73u8, 0x2du8, 0x6fu8, 0x72u8, 0x67u8, 0x2fu8, 0x6cu8, 0x69u8,
        0x6cu8, 0x61u8, 0x2du8, 0x67u8, 0x69u8, 0x66u8,
    ];
    assert(text@ =~= default_comment());
    text
}

/// Where a render stands.
pub enum Phase {
    /// Nothing has been written.
    Preamble,
    /// The given frame is on screen.
    Frame(FrameView),
    /// The file is closed.
    Complete,
}

/// What a render is made of.
pub struct RenderView {
    /// The theme that supplies tiles and palette.
    pub theme: ThemeView,
    /// Where the render stands.
    pub phase: Phase,
    /// The comment that the caller gave.
    pub comment: Option<Seq<u8>>,
    /// Whether the canvas carries name bars.
    pub bars: bool,
    /// Which side faces the viewer.
    pub orientation: Orientation,
    /// The frames that are still to come.
    pub frames: Seq<FrameView>,
    /// Whether a filler frame ends the file.
    pub kork: bool,
}

impl RenderView {
    /// The theme can serve, the comment is not too long, and a render that
    /// has written nothing has a frame to show.
    pub open spec fn wf(self) -> bool {
        &&& self.theme.wf()
        &&& self.comment matches Some(c) ==> c.len() < 256
        &&& self.phase is Preamble ==> self.frames.len() > 0
    }

    /// The comment block: the caller's text or else the default one, and no
    /// block for an empty text.
    pub open spec fn comment_blocks(self) -> Seq<Block> {
        let text = match self.comment {
            Some(c) => c,
            None => default_comment(),
        };
        if text.len() == 0 {
            Seq::empty()
        } else {
            seq![Block::Comment { text }]
        }
    }

    /// The frame that the first chunk shows: the first of the sequence.
    pub open spec fn first_frame(self) -> FrameView {
        self.frames[0]
    }

    /// The frames that follow the first.
    pub open spec fn rest(self) -> Seq<FrameView> {
        if self.frames.len() > 0 {
            self.frames.skip(1)
        } else {
            self.frames
        }
    }

    /// The control block of the first frame: one with its delay, if it has a delay.
    pub open spec fn first_control(self) -> Seq<Block> {
        match self.first_frame().delay {
            Some(delay) => seq![
                Block::GraphicControl { disposal: DISPOSAL_NONE, delay, transparent: None },
            ],
            None => Seq::empty(),
        }
    }

    /// What stands before the first frame: header, screen descriptor,
    /// palette, the extension that loops for ever, and the comment.
    pub open spec fn head_blocks(self) -> Seq<Block> {
        seq![
            Block::Header,
            Block::LogicalScreenDesc {
                width: SIDE as u16,
                height: SIDE as u16,
                table_flags: self.theme.table_flags,
            },
            Block::GlobalColorTable { colors: self.theme.palette },
            Block::Application { loop_count: 0 },
        ] + self.comment_blocks()
    }

    /// The first chunk: what stands before the first frame, and the first
    /// frame on the whole canvas.
    pub open spec fn preamble_blocks(self) -> Seq<Block> {
        self.head_blocks() + self.first_control() + seq![
            Block::ImageDesc { left: 0, top: 0, width: SIDE as u16, height: SIDE as u16 },
            Block::ImageData {
                pixels: composed(self.theme, self.orientation, None, self.first_frame()),
            },
        ]
    }

    /// How far down the board lies on the canvas: below the upper name bar, if there are bars.
    pub open spec fn bar_offset(self) -> int {
        if self.bars {
            BAR_HEIGHT as int
        } else {
            0
        }
    }

    /// The chunk that turns the canvas showing `prev` into one showing
    /// `frame`: a control block that keeps what is on screen and makes the
    /// theme's transparent index transparent, and the image of the squares
    /// that differ.
    pub open spec fn frame_blocks(self, prev: FrameView, frame: FrameView) -> Seq<Block> {
        let rect = rect_of(self.orientation, changed(Some(prev), frame));
        seq![
            Block::GraphicControl {
                disposal: DISPOSAL_KEEP,
                delay: match frame.delay {
                    Some(delay) => delay,
                    None => 0,
                },
                transparent: Some(self.theme.transparent_color()),
            },
            Block::ImageDesc {
                left: rect.0.0 as u16,
                top: (rect.0.1 + self.bar_offset()) as u16,
                width: rect.1.0 as u16,
                height: rect.1.1 as u16,
            },
            Block::ImageData {
                pixels: composed(self.theme, self.orientation, Some(prev), frame),
            },
        ]
    }

    /// The filler frame: the whole canvas in the colour of the bars, shown
    /// for a hundredth of a second.
    pub open spec fn filler_blocks(self) -> Seq<Block> {
        seq![
            Block::GraphicControl {
                disposal: DISPOSAL_KEEP,
                delay: 1,
                transparent: Some(self.theme.transparent_color()),
            },
            Block::ImageDesc { left: 0, top: 0, width: SIDE as u16, height: SIDE as u16 },
            Block::ImageData { pixels: Seq::new(AREA as nat, |i: int| self.theme.bar_color()) },
        ]
    }

    /// The last chunk: the filler frame, if the render has one, and the trailer.
    pub open spec fn closing_blocks(self) -> Seq<Block> {
        (if self.kork {
            self.filler_blocks()
        } else {
            Seq::empty()
        }) + seq![Block::Trailer]
    }

    /// The blocks of the next chunk, if there is one.
    pub open spec fn pull(self) -> Option<Seq<Block>> {
        match self.phase {
            Phase::Preamble => Some(self.preamble_blocks()),
            Phase::Frame(prev) => if self.frames.len() > 0 {
                Some(self.frame_blocks(prev, self.frames[0]))
            } else {
                Some(self.closing_blocks())
            },
            Phase::Complete => None,
        }
    }

    /// The render after the next chunk.
    pub open spec fn after_pull(self) -> RenderView {
        match self.phase {
            Phase::Preamble => RenderView {
                phase: Phase::Frame(self.first_frame()),
                frames: self.rest(),
                ..self
            },
            Phase::Frame(prev) => if self.frames.len() > 0 {
                RenderView { phase: Phase::Frame(self.frames[0]), frames: self.frames.skip(1), ..self }
            } else {
                RenderView { phase: Phase::Complete, ..self }
            },
            Phase::Complete => self,
        }
    }
}

#[derive(Clone, Copy, Debug)]
enum RenderState {
    Preamble,
    Frame(RenderFrame),
    Complete,
}

/// The writer of one file: it hands out the file chunk by chunk.
pub struct Render<'a> {
    theme: &'a Theme,
    state: RenderState,
    buffer: Vec<u8>,
    comment: Option<Comment>,
    bars: Option<PlayerBars>,
    orientation: Orientation,
    frames: Vec<RenderFrame>,
    at: usize,
    kork: bool,
}

impl<'a> Render<'a> {
    /// What the render is made of.
    pub closed spec fn view(&self) -> RenderView {
        RenderView {
            theme: self.theme@,
            phase: match self.state {
                RenderState::Preamble => Phase::Preamble,
                RenderState::Frame(frame) => Phase::Frame(frame@),
                RenderState::Complete => Phase::Complete,
            },
            comment: comment_view(self.comment),
            bars: self.bars.is_some(),
            orientation: self.orientation,
            frames: Seq::new(
                (self.frames@.len() - self.at) as nat,
                |i: int| self.frames@[self.at + i]@,
            ),
            kork: self.kork,
        }
    }

    /// Holds of every render that `new_image` and `new_animation` hand out,
    /// and after every call of `next`.
    pub closed spec fn wf(&self) -> bool {
        &&& self@.wf()
        &&& self.buffer@.len() == AREA
        &&& self.at <= self.frames@.len()
    }

    /// The render of a still image.
    pub fn new_image(themes: &'a Themes, params: RequestParams) -> (render: Render<'a>)
        requires
            themes.wf(),
            themes.has_theme(params.theme, params.piece),
            params.wf(),
        ensures
            render.wf(),
            render@.wf(),
            render@ == (RenderView {
                theme: themes@[params.theme.0 as int][params.piece.0 as int],
                phase: Phase::Preamble,
                comment: comment_view(params.comment),
                bars: params.white.is_some() || params.black.is_some(),
                orientation: params.orientation,
                frames: seq![frame_of(params.board@, params.last_move, params.check, None)],
                kork: false,
            }),
    {
        let theme = themes.get(params.theme, params.piece);
        let frame = RenderFrame::new(params.board, params.last_move, params.check, None);
        let render = Render {
            theme,
            buffer: vec![0u8; theme.height() * theme.width()],
            state: RenderState::Preamble,
            comment: params.comment,
            bars: PlayerBars::from(params.white, params.black),
            orientation: params.orientation,
            frames: vec![frame],
            at: 0,
            kork: false,
        };
        assert(render@.frames =~= seq![frame@]);
        render
    }

    /// The render of an animation. A frame without a delay of its own is
    /// shown for the delay of the request.
    pub fn new_animation(themes: &'a Themes, params: RequestBody) -> (render: Render<'a>)
        requires
            themes.wf(),
            themes.has_theme(params.theme, params.piece),
            params.wf(),
        ensures
            render.wf(),
            render@.wf(),
            render@ == (RenderView {
                theme: themes@[params.theme.0 as int][params.piece.0 as int],
                phase: Phase::Preamble,
                comment: comment_view(params.comment),
                bars: params.white.is_some() || params.black.is_some(),
                orientation: params.orientation,
                frames: Seq::new(
                    params.frames@.len(),
                    |i: int| animation_frame(params.frames@[i], params.delay),
                ),
                kork: true,
            }),
    {
        let default_delay = params.delay;
        let mut frames: Vec<RenderFrame> = Vec::new();
        let mut i: usize = 0;
        while i < params.frames.len()
            invariant
                i <= params.frames@.len(),
                params.wf(),
                frames@.len() == i,
                forall|j: int|
                    0 <= j < i ==> (#[trigger] frames@[j])@ == animation_frame(
                        params.frames@[j],
                        default_delay,
                    ),
            decreases params.frames@.len() - i,
        {
            let frame = &params.frames[i];
            let delay = match frame.delay {
                Some(delay) => delay,
                None => default_delay,
            };
            frames.push(RenderFrame::new(frame.board, frame.last_move, frame.check, Some(delay)));
            i += 1;
        }
        let theme = themes.get(params.theme, params.piece);
        let render = Render {
            theme,
            buffer: vec![0u8; theme.height() * theme.width()],
            state: RenderState::Preamble,
            comment: params.comment,
            bars: PlayerBars::from(params.white, params.black),
            orientation: params.orientation,
            frames,
            at: 0,
            kork: true,
        };
        assert(render@.frames =~= Seq::new(
            params.frames@.len(),
            |i: int| animation_frame(params.frames@[i], params.delay),
        ));
        render
    }

    /// Writes what stands before the first frame: header, screen
    /// descriptor, palette, the extension that loops for ever, and the comment.
    fn write_head(&self, blocks: &mut Chunk)
        requires
            self.wf(),
            old(blocks).wf(),
            old(blocks)@ == Seq::<Block>::empty(),
        ensures
            final(blocks).wf(),
            final(blocks)@ == self@.head_blocks(),
    {
        let theme = self.theme;
        blocks.header();
        blocks.logical_screen_desc(
            theme.width() as u16,
            theme.height() as u16,
            theme.table_flags(),
        );
        blocks.global_color_table(theme.global_color_table().as_slice());
        blocks.application(0);
        match &self.comment {
            Some(comment) => {
                let text = comment.as_bytes();
                if text.len() > 0 {
                    blocks.comment(text);
                }
            },
            None => {
                let text = default_comment_bytes();
                blocks.comment(text.as_slice());
            },
        }
        assert(blocks@ =~= self@.head_blocks());
    }

    /// Takes the next frame off the sequence and makes it the frame on screen.
    fn take_frame(&mut self) -> (frame: RenderFrame)
        requires
            old(self).wf(),
            old(self)@.frames.len() > 0,
        ensures
            final(self).wf(),
            frame@ == old(self)@.frames[0],
            final(self)@ == (RenderView {
                phase: Phase::Frame(frame@),
                frames: old(self)@.frames.skip(1),
                ..old(self)@
            }),
    {
        assert(self@.frames.len() == self.frames@.len() - self.at);
        let len = self.frames.len();
        assert(self.at < len);
        let frame = self.frames[self.at];
        self.at = self.at + 1;
        self.state = RenderState::Frame(frame);
        assert(self@.frames =~= old(self)@.frames.skip(1));
        frame
    }

    /// Writes the first chunk.
    fn write_preamble(&mut self) -> (blocks: Chunk)
        requires
            old(self).wf(),
            old(self)@.phase is Preamble,
        ensures
            final(self).wf(),
            final(self)@ == old(self)@.after_pull(),
            blocks.wf(),
            blocks@ == old(self)@.preamble_blocks(),
    {
        let theme = self.theme;
        let mut blocks = Chunk::new();
        self.write_head(&mut blocks);
        let frame = self.take_frame();
        if let Some(delay) = frame.delay() {
            blocks.graphic_control(DISPOSAL_NONE, delay, None);
        }
        proof {
            lemma_image_len(self.orientation, changed(None, frame@));
        }
        let rect = render_diff(&mut self.buffer, theme, self.orientation, None, &frame);
        blocks.image_desc(0, 0, theme.width() as u16, theme.height() as u16);
        proof {
            let image = composed(theme@, self.orientation, None, frame@);
            lemma_full_box(self.orientation);
            assert(changed(None, frame@) == FULL);
            assert(rect.1.0 == SIDE && rect.1.1 == SIDE);
            assert(rect.1.0 * rect.1.1 == AREA) by (nonlinear_arith)
                requires
                    rect.1.0 == 720,
                    rect.1.1 == 720,
            ;
            lemma_composed_pixels(theme@, self.orientation, None, frame@);
            assert(self.buffer@ =~= self.buffer@.subrange(0, AREA as int));
            assert(self.buffer@ == image);
            assert forall|i: int| 0 <= i < self.buffer@.len() implies self.buffer@[i] < 255 by {
                assert(image[i] < 255);
            }
        }
        blocks.image_data(self.buffer.as_slice());
        assert(blocks@ =~= old(self)@.preamble_blocks());
        blocks
    }

    /// Writes the chunk of the next frame.
    fn write_frame(&mut self, prev: RenderFrame) -> (blocks: Chunk)
        requires
            old(self).wf(),
            old(self)@.phase == Phase::Frame(prev@),
            old(self)@.frames.len() > 0,
        ensures
            final(self).wf(),
            final(self)@ == old(self)@.after_pull(),
            blocks.wf(),
            blocks@ == old(self)@.frame_blocks(prev@, old(self)@.frames[0]),
    {
        let theme = self.theme;
        let mut blocks = Chunk::new();
        let frame = self.take_frame();
        let delay = match frame.delay() {
            Some(delay) => delay,
            None => 0,
        };
        blocks.graphic_control(DISPOSAL_KEEP, delay, Some(theme.transparent_color()));
        proof {
            lemma_image_len(self.orientation, changed(Some(prev@), frame@));
        }
        let ((left, y), (w, h)) = render_diff(
            &mut self.buffer,
            theme,
            self.orientation,
            Some(&prev),
            &frame,
        );
        proof {
            lemma_tile_box(self.orientation, changed(Some(prev@), frame@));
        }
        let top = y + if self.bars.is_some() {
            theme.bar_height()
        } else {
            0
        };
        blocks.image_desc(left as u16, top as u16, w as u16, h as u16);
        let pixels = slice_subrange(self.buffer.as_slice(), 0, w * h);
        proof {
            let image = composed(theme@, self.orientation, Some(prev@), frame@);
            lemma_composed_pixels(theme@, self.orientation, Some(prev@), frame@);
            assert(pixels@ == image);
            assert forall|i: int| 0 <= i < pixels@.len() implies pixels@[i] < 255 by {
                assert(image[i] < 255);
            }
        }
        blocks.image_data(pixels);
        assert(blocks@ =~= old(self)@.frame_blocks(prev@, frame@));
        blocks
    }

    /// Writes the last chunk.
    fn write_closing(&mut self) -> (blocks: Chunk)
        requires
            old(self).wf(),
            old(self)@.phase is Frame,
            old(self)@.frames.len() == 0,
        ensures
            final(self).wf(),
            final(self)@ == old(self)@.after_pull(),
            blocks.wf(),
            blocks@ == old(self)@.closing_blocks(),
    {
        let theme = self.theme;
        let mut blocks = Chunk::new();
        if self.kork {
            blocks.graphic_control(DISPOSAL_KEEP, 1, Some(theme.transparent_color()));
            let height = theme.height();
            let width = theme.width();
            blocks.image_desc(0, 0, width as u16, height as u16);
            fill_grid(&mut self.buffer, height, width, theme.bar_color());
            assert(self.buffer@ =~= Seq::new(AREA as nat, |i: int| theme@.bar_color()));
            blocks.image_data(self.buffer.as_slice());
        }
        blocks.trailer();
        self.state = RenderState::Complete;
        assert(self@.frames =~= old(self)@.frames);
        assert(blocks@ =~= old(self)@.closing_blocks());
        blocks
    }

    /// The next chunk of the file, or nothing once the file is closed. The
    /// first chunk holds everything up to and including the first frame,
    /// each further one a frame, and the last one the trailer, after a
    /// filler frame in an animation.
    pub fn next(&mut self) -> (chunk: Option<Bytes>)
        requires
            old(self).wf(),
        ensures
            final(self).wf(),
            final(self)@.wf(),
            final(self)@ == old(self)@.after_pull(),
            match chunk {
                Some(bytes) => old(self)@.pull() matches Some(blocks) && bytes_contents(bytes)
                    == blocks_bytes(blocks),
                None => old(self)@.pull().is_none(),
            },
    {
        let state = self.state;
        let blocks = match state {
            RenderState::Preamble => self.write_preamble(),
            RenderState::Frame(prev) => {
                if self.at < self.frames.len() {
                    self.write_frame(prev)
                } else {
                    self.write_closing()
                }
            },
            RenderState::Complete => {
                return None;
            },
        };
        Some(blocks.freeze())
    }
}

/// The frame of an animation: its delay is its own, or else that of the request.
pub open spec fn animation_frame(frame: RequestFrame, default_delay: u16) -> FrameView {
    frame_of(
        frame.board@,
        frame.last_move,
        frame.check,
        Some(
            match frame.delay {
                Some(delay) => delay,
                None => default_delay,
            },
        ),
    )
}

impl RenderView {
    /// The number of chunks that are still to come.
    pub open spec fn pulls_left(self) -> nat {
        match self.phase {
            Phase::Preamble => self.rest().len() + 2,
            Phase::Frame(_) => self.frames.len() + 1,
            Phase::Complete => 0,
        }
    }

    /// The render after `n` further chunks.
    pub open spec fn after_pulls(self, n: nat) -> RenderView
        decreases n,
    {
        if n == 0 {
            self
        } else {
            self.after_pull().after_pulls((n - 1) as nat)
        }
    }

    /// The blocks of the chunks that are still to come, in the order in which they are written.
    pub open spec fn file_blocks(self) -> Seq<Block>
        decreases self.pulls_left(),
    {
        match self.pull() {
            Some(blocks) => blocks + self.after_pull().file_blocks(),
            None => Seq::empty(),
        }
    }

    /// The bytes of the chunks that are still to come, one chunk after the other.
    pub open spec fn file_bytes(self) -> Seq<u8>
        decreases self.pulls_left(),
    {
        match self.pull() {
            Some(blocks) => blocks_bytes(blocks) + self.after_pull().file_bytes(),
            None => Seq::empty(),
        }
    }
}

/// Whether, in a run of blocks, the block at `i` is in order: an image
/// descriptor is followed at once by the pixels of the image, as many as
/// its width times its height; pixels follow an image descriptor; a screen
/// descriptor that announces a colour table is followed at once by a table
/// of the size that it announces; and the block can be written.
pub open spec fn block_in_order(blocks: Seq<Block>, i: int) -> bool {
    &&& block_wf(blocks[i])
    &&& blocks[i] matches Block::ImageDesc { width, height, .. } ==> i + 1 < blocks.len() && (blocks[i
        + 1] matches Block::ImageData { pixels } && pixels.len() == width * height)
    &&& blocks[i] is ImageData ==> i > 0 && blocks[i - 1] is ImageDesc
    &&& blocks[i] matches Block::LogicalScreenDesc { table_flags, .. } ==> (screen_flags(table_flags)
        >= 128 ==> i + 1 < blocks.len() && (blocks[i + 1] matches Block::GlobalColorTable {
        colors,
    } && colors.len() == 3 * table_len(screen_flags(table_flags))))
}

/// Whether every block of a run is in order.
pub open spec fn consistent(blocks: Seq<Block>) -> bool {
    forall|i: int| 0 <= i < blocks.len() ==> #[trigger] block_in_order(blocks, i)
}

/// Two runs that are in order are in order when one follows the other.
pub proof fn lemma_consistent_concat(a: Seq<Block>, b: Seq<Block>)
    requires
        consistent(a),
        consistent(b),
    ensures
        consistent(a + b),
{
    let ab = a + b;
    assert forall|i: int| 0 <= i < ab.len() implies #[trigger] block_in_order(ab, i) by {
        if i < a.len() {
            assert(block_in_order(a, i));
            if a[i] is ImageDesc || a[i] is LogicalScreenDesc {
                if i + 1 < a.len() {
                    assert(ab[i + 1] == a[i + 1]);
                }
            }
            if a[i] is ImageData {
                assert(ab[i - 1] == a[i - 1]);
            }
        } else {
            let j = i - a.len();
            assert(block_in_order(b, j));
            assert(ab[i] == b[j]);
            if b[j] is ImageDesc || b[j] is LogicalScreenDesc {
                if j + 1 < b.len() {
                    assert(ab[i + 1] == b[j + 1]);
                }
            }
            if b[j] is ImageData {
                assert(ab[i - 1] == b[j - 1]);
            }
        }
    }
}

/// The bytes of two runs of blocks, one after the other, are the bytes of the one run they form.
pub proof fn lemma_blocks_bytes_concat(a: Seq<Block>, b: Seq<Block>)
    ensures
        blocks_bytes(a + b) == blocks_bytes(a) + blocks_bytes(b),
    decreases b.len(),
{
    if b.len() == 0 {
        assert(a + b =~= a);
    } else {
        lemma_blocks_bytes_concat(a, b.drop_last());
        assert((a + b).drop_last() =~= a + b.drop_last());
        assert((a + b).last() == b.last());
    }
}

/// Every chunk is in order by itself: each image descriptor in it is
/// followed at once by exactly the pixels that it announces, and every
/// block of it can be written.
pub proof fn lemma_chunk_consistent(v: RenderView)
    requires
        v.wf(),
    ensures
        v.pull() matches Some(blocks) ==> consistent(blocks),
{
    match v.phase {
        Phase::Preamble => {
            let frame = v.first_frame();
            let blocks = v.preamble_blocks();
            lemma_full_box(v.orientation);
            lemma_composed_len(v.theme, v.orientation, None, frame);
            lemma_composed_pixels(v.theme, v.orientation, None, frame);
            let head = v.head_blocks() + v.first_control();
            lemma_screen_flags(v.theme.table_flags);
            assert(head[1] is LogicalScreenDesc && head[2] is GlobalColorTable);
            assert forall|i: int| 0 <= i < blocks.len() implies #[trigger] block_in_order(
                blocks,
                i,
            ) by {
                if i < head.len() {
                    assert(blocks[i] == head[i]);
                    if i == 1 {
                        assert(blocks[2] == head[2]);
                    }
                } else {
                    assert(blocks[head.len() as int] is ImageDesc);
                    assert(blocks[head.len() as int + 1] is ImageData);
                }
            }
        },
        Phase::Frame(prev) => {
            if v.frames.len() > 0 {
                let frame = v.frames[0];
                lemma_composed_len(v.theme, v.orientation, Some(prev), frame);
                lemma_composed_pixels(v.theme, v.orientation, Some(prev), frame);
                let blocks = v.frame_blocks(prev, frame);
                assert forall|i: int| 0 <= i < blocks.len() implies #[trigger] block_in_order(
                    blocks,
                    i,
                ) by {}
            } else {
                let blocks = v.closing_blocks();
                assert(v.theme.bar_color() < 255);
                let side = SIDE as u16;
                assert(side * side == AREA) by (nonlinear_arith)
                    requires
                        side == 720,
                        AREA == 518400,
                ;
                if v.kork {
                    assert(blocks =~= v.filler_blocks().push(Block::Trailer));
                    assert(blocks[1] is ImageDesc);
                    assert(blocks[2] is ImageData);
                    assert(block_wf(blocks[2]));
                } else {
                    assert(blocks =~= seq![Block::Trailer]);
                }
                assert forall|i: int| 0 <= i < blocks.len() implies #[trigger] block_in_order(
                    blocks,
                    i,
                ) by {}
            }
        },
        Phase::Complete => {},
    }
}

/// A chunk leaves the render in order: what holds of a render before a
/// chunk holds of it after the chunk.
pub proof fn lemma_after_pull_wf(v: RenderView)
    requires
        v.wf(),
    ensures
        v.after_pull().wf(),
{
}

/// The file as a whole is in order. What a render writes from its first
/// chunk on begins with the header and ends with the trailer; every image
/// descriptor is followed at once by exactly the pixels that it announces;
/// and the bytes of the chunks, one after the other, are the bytes of the
/// blocks of the file.
pub proof fn lemma_file_consistent(v: RenderView)
    requires
        v.wf(),
    ensures
        consistent(v.file_blocks()),
        v.file_bytes() == blocks_bytes(v.file_blocks()),
        !(v.phase is Complete) ==> v.file_blocks().len() > 0 && v.file_blocks().last()
            == Block::Trailer,
        v.phase is Preamble ==> v.file_blocks()[0] == Block::Header,
        v.phase is Complete ==> v.file_blocks().len() == 0,
    decreases v.pulls_left(),
{
    match v.pull() {
        Some(blocks) => {
            let next = v.after_pull();
            lemma_after_pull_wf(v);
            lemma_chunk_consistent(v);
            lemma_file_consistent(next);
            lemma_consistent_concat(blocks, next.file_blocks());
            lemma_blocks_bytes_concat(blocks, next.file_blocks());
            if next.phase is Complete {
                assert(blocks + next.file_blocks() =~= blocks);
            }
        },
        None => {},
    }
}

/// A render whose file is closed stays as it is and has nothing more to
/// hand out, however often it is asked.
pub proof fn lemma_complete_stays(v: RenderView, n: nat)
    requires
        v.phase is Complete,
    ensures
        v.after_pulls(n) == v,
        v.after_pulls(n).pull().is_none(),
    decreases n,
{
    if n > 0 {
        lemma_complete_stays(v, (n - 1) as nat);
    }
}

/// Every render closes its file: each chunk leaves one chunk less to come,
/// and after as many chunks as are to come, and after any further number,
/// the file is closed.
pub proof fn lemma_terminates(v: RenderView, n: nat)
    requires
        n >= v.pulls_left(),
    ensures
        v.after_pulls(n).phase is Complete,
        v.pull().is_some() ==> v.after_pull().pulls_left() == v.pulls_left() - 1,
        v.pull().is_none() <==> v.pulls_left() == 0,
    decreases n,
{
    if n > 0 {
        lemma_terminates(v.after_pull(), (n - 1) as nat);
    }
}

/// What a render writes depends on its view alone: two renders of the same
/// theme, frames, comment, bars and orientation hand out the same chunks,
/// byte for byte, whatever their scratch buffers hold.
pub proof fn lemma_deterministic(a: Render, b: Render)
    requires
        a@ == b@,
    ensures
        forall|n: nat| a@.after_pulls(n).pull() == b@.after_pulls(n).pull(),
        a@.file_bytes() == b@.file_bytes(),
{
}

} // verus!
