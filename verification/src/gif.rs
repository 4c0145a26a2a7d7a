//! The blocks of a GIF file and their bytes.
//!
//! `Block` says what a block holds, `block_bytes` what it looks like in the
//! file. A `Chunk` collects the bytes of a run of blocks.

use bytes::Bytes;
use gift::block::{
    Application, Comment, DisposalMethod, GlobalColorTable, GraphicControl, Header, ImageData,
    ImageDesc, LogicalScreenDesc, Trailer,
};
use gift::{Decoder, Encoder};
use crate::scan::safe_sheet;
use vstd::prelude::*;

verus! {

/// Disposal code of a frame that says nothing about what follows it.
pub const DISPOSAL_NONE: u8 = 0;

/// Disposal code of a frame that stays on screen under the next one.
pub const DISPOSAL_KEEP: u8 = 1;

/// The low byte of a 16-bit number.
pub open spec fn low(n: u16) -> u8 {
    (n % 256) as u8
}

/// The high byte of a 16-bit number.
pub open spec fn high(n: u16) -> u8 {
    (n / 256) as u8
}

/// The flag byte that a logical screen descriptor carries for a global
/// colour table whose flags were read as `table_flags`: the presence bit,
/// the sort bit and the three size bits are kept, and the size bits are
/// repeated as the colour resolution.
pub open spec fn screen_flags(table_flags: u8) -> u8 {
    (table_flags & 0x8f) | ((table_flags & 0x07) << 4)
}

/// The flag byte of a screen descriptor announces a colour table exactly if
/// the flags that it was made of do, and a table of the same size.
pub proof fn lemma_screen_flags(table_flags: u8)
    ensures
        screen_flags(table_flags) >= 128 <==> table_flags >= 128,
        table_len(screen_flags(table_flags)) == table_len(table_flags),
{
    let f = table_flags;
    assert((((f & 0x8f) | ((f & 0x07) << 4)) >= 128 <==> f >= 128) && ((f & 0x8f) | ((f & 0x07)
        << 4)) % 8 == f % 8) by (bit_vector);
}

/// The flag byte of a graphic control extension: the disposal code in bits 2
/// to 4, and bit 0 set if there is a transparent index.
pub open spec fn control_flags(disposal: u8, transparent: Option<u8>) -> u8 {
    (4 * disposal + (if transparent.is_some() {
        1int
    } else {
        0int
    })) as u8
}

/// The number of colours in a table with the given flags.
pub open spec fn table_len(table_flags: u8) -> int {
    2 * pow2_small((table_flags % 8) as int)
}

/// Two to the power of `k`, for `k` up to 7.
pub open spec fn pow2_small(k: int) -> int {
    if k <= 0 {
        1
    } else if k == 1 {
        2
    } else if k == 2 {
        4
    } else if k == 3 {
        8
    } else if k == 4 {
        16
    } else if k == 5 {
        32
    } else if k == 6 {
        64
    } else {
        128
    }
}

/// The number of colours that the flags announce: 2, 4, and so on up to 256.
pub fn table_len_of(table_flags: u8) -> (len: usize)
    ensures
        len == table_len(table_flags),
        2 <= len <= 256,
{
    let bits = table_flags % 8;
    if bits == 0 {
        2
    } else if bits == 1 {
        4
    } else if bits == 2 {
        8
    } else if bits == 3 {
        16
    } else if bits == 4 {
        32
    } else if bits == 5 {
        64
    } else if bits == 6 {
        128
    } else {
        256
    }
}

/// The bytes of an image data block for the given pixels: the code size,
/// the compressed pixels in sub-blocks, and the end mark.
pub uninterp spec fn image_data_bytes(pixels: Seq<u8>) -> Seq<u8>;

/// What decoding a sprite sheet yields, if it can be decoded: the flags of
/// its logical screen descriptor, the colours of its global colour table,
/// and the width, the height and the pixels of its first frame.
pub uninterp spec fn decoded_sheet(data: Seq<u8>) -> Option<(u8, Seq<u8>, u16, u16, Seq<u8>)>;

/// What a frozen chunk holds.
pub uninterp spec fn bytes_contents(bytes: Bytes) -> Seq<u8>;

#[verifier::external_type_specification]
#[verifier::external_body]
pub struct ExBytes(Bytes);

/// One block of a GIF file.
pub enum Block {
    /// The signature and version.
    Header,
    /// The size of the canvas and the flags of the global colour table.
    LogicalScreenDesc { width: u16, height: u16, table_flags: u8 },
    /// The colours shared by all frames, three bytes each.
    GlobalColorTable { colors: Seq<u8> },
    /// The extension that makes the animation loop `loop_count` times, 0 for ever.
    Application { loop_count: u16 },
    /// A comment of 1 to 255 bytes.
    Comment { text: Seq<u8> },
    /// How long the next image is shown, in hundredths of a second, what
    /// becomes of it afterwards, and the index, if any, whose pixels leave
    /// the canvas as it is.
    GraphicControl { disposal: u8, delay: u16, transparent: Option<u8> },
    /// Position and size of the next image on the canvas.
    ImageDesc { left: u16, top: u16, width: u16, height: u16 },
    /// The pixels of an image, row by row.
    ImageData { pixels: Seq<u8> },
    /// The end of the file.
    Trailer,
}

/// The signature `GIF89a`.
pub open spec fn header_bytes() -> Seq<u8> {
    seq![0x47u8, 0x49u8, 0x46u8, 0x38u8, 0x39u8, 0x61u8]
}

/// The application identifier `NETSCAPE2.0`.
pub open spec fn netscape_bytes() -> Seq<u8> {
    seq![
        0x4eu8, 0x45u8, 0x54u8, 0x53u8, 0x43u8, 0x41u8, 0x50u8, 0x45u8, 0x32u8, 0x2eu8, 0x30u8,
    ]
}

/// The bytes of a block in the file.
pub open spec fn block_bytes(block: Block) -> Seq<u8> {
    match block {
        Block::Header => header_bytes(),
        Block::LogicalScreenDesc { width, height, table_flags } => seq![
            low(width),
            high(width),
            low(height),
            high(height),
            screen_flags(table_flags),
            0u8,
            0u8,
        ],
        Block::GlobalColorTable { colors } => colors,
        Block::Application { loop_count } => seq![0x21u8, 0xffu8, 11u8] + netscape_bytes() + seq![
            3u8,
            1u8,
            high(loop_count),
            low(loop_count),
            0u8,
        ],
        Block::Comment { text } => seq![0x21u8, 0xfeu8, text.len() as u8] + text + seq![0u8],
        Block::GraphicControl { disposal, delay, transparent } => seq![
            0x21u8,
            0xf9u8,
            4u8,
            control_flags(disposal, transparent),
            low(delay),
            high(delay),
            match transparent {
                Some(index) => index,
                None => 0u8,
            },
            0u8,
        ],
        Block::ImageDesc { left, top, width, height } => seq![
            0x2cu8,
            low(left),
            high(left),
            low(top),
            high(top),
            low(width),
            high(width),
            low(height),
            high(height),
            0u8,
        ],
        Block::ImageData { pixels } => image_data_bytes(pixels),
        Block::Trailer => seq![0x3bu8],
    }
}

/// Whether a block can be written: a colour table has three bytes to the
/// colour, a comment 1 to 255 bytes, a disposal code is below 8, and no
/// pixel has index 255.
pub open spec fn block_wf(block: Block) -> bool {
    match block {
        Block::GlobalColorTable { colors } => colors.len() % 3 == 0,
        Block::Comment { text } => 0 < text.len() < 256,
        Block::GraphicControl { disposal, .. } => disposal < 8,
        Block::ImageData { pixels } => forall|i: int| 0 <= i < pixels.len() ==> pixels[i] < 255,
        _ => true,
    }
}

/// The bytes of a run of blocks, one after the other.
pub open spec fn blocks_bytes(blocks: Seq<Block>) -> Seq<u8>
    decreases blocks.len(),
{
    if blocks.len() == 0 {
        Seq::empty()
    } else {
        blocks_bytes(blocks.drop_last()) + block_bytes(blocks.last())
    }
}

/// Calls gift's `BlockEnc::encode` on `Header::default()`, which writes the
/// three letters `GIF` and the version `89a`.
#[verifier::external_body]
fn encode_header() -> (bytes: Vec<u8>)
    ensures
        bytes@ == block_bytes(Block::Header),
{
    let mut out = Vec::new();
    Encoder::new(&mut out).into_block_enc().encode(Header::default()).expect("enc header");
    out
}

/// Calls gift's `BlockEnc::encode` on a `LogicalScreenDesc` with the given
/// size and with the colour table configuration that gift reads from
/// `table_flags`. It writes width and height, low byte first, the flag byte
/// that gift makes of the configuration, and two zero bytes for background
/// colour and aspect ratio.
#[verifier::external_body]
fn encode_logical_screen_desc(width: u16, height: u16, table_flags: u8) -> (bytes: Vec<u8>)
    ensures
        bytes@ == block_bytes(Block::LogicalScreenDesc { width, height, table_flags }),
{
    let config = LogicalScreenDesc::default().with_flags(table_flags).color_table_config();
    let desc = LogicalScreenDesc::default().with_screen_height(height).with_screen_width(
        width,
    ).with_color_table_config(config);
    let mut out = Vec::new();
    Encoder::new(&mut out).into_block_enc().encode(desc).expect("enc logical screen desc");
    out
}

/// Calls gift's `GlobalColorTable::with_colors`, which panics unless the
/// length is a multiple of 3, and `BlockEnc::encode`, which writes the
/// colours as they are.
#[verifier::external_body]
fn encode_global_color_table(colors: &[u8]) -> (bytes: Vec<u8>)
    requires
        colors@.len() % 3 == 0,
    ensures
        bytes@ == block_bytes(Block::GlobalColorTable { colors: colors@ }),
{
    let mut out = Vec::new();
    Encoder::new(&mut out).into_block_enc().encode(GlobalColorTable::with_colors(colors)).expect(
        "enc global color table",
    );
    out
}

/// Calls gift's `Application::with_loop_count` and `BlockEnc::encode`. The
/// block is an extension with label 0xff and two sub-blocks: the 11 bytes
/// `NETSCAPE2.0`, and the three bytes 1, high byte and low byte of the count.
#[verifier::external_body]
fn encode_application(loop_count: u16) -> (bytes: Vec<u8>)
    ensures
        bytes@ == block_bytes(Block::Application { loop_count }),
{
    let mut out = Vec::new();
    Encoder::new(&mut out).into_block_enc().encode(Application::with_loop_count(loop_count)).expect(
        "enc application",
    );
    out
}

/// Calls gift's `Comment::add_comment`, which panics on an empty text and on
/// one of more than 255 bytes, and `BlockEnc::encode`. The block is an
/// extension with label 0xfe and the text as its one sub-block.
#[verifier::external_body]
fn encode_comment(text: &[u8]) -> (bytes: Vec<u8>)
    requires
        0 < text@.len() < 256,
    ensures
        bytes@ == block_bytes(Block::Comment { text: text@ }),
{
    let mut comments = Comment::default();
    comments.add_comment(text);
    let mut out = Vec::new();
    Encoder::new(&mut out).into_block_enc().encode(comments).expect("enc comment");
    out
}

/// Calls gift's `set_disposal_method`, `set_transparent_color` and
/// `set_delay_time_cs` on a default `GraphicControl`, and `BlockEnc::encode`.
/// The block is an extension with label 0xf9 and one sub-block of four
/// bytes: the flags, which hold the disposal code shifted left by two and,
/// in the lowest bit, whether there is a transparent index; the delay, low
/// byte first; and the transparent index, or 0 where there is none.
#[verifier::external_body]
fn encode_graphic_control(disposal: u8, delay: u16, transparent: Option<u8>) -> (bytes: Vec<u8>)
    requires
        disposal < 8,
    ensures
        bytes@ == block_bytes(Block::GraphicControl { disposal, delay, transparent }),
{
    let mut ctrl = GraphicControl::default();
    ctrl.set_disposal_method(DisposalMethod::from(disposal));
    ctrl.set_transparent_color(transparent);
    ctrl.set_delay_time_cs(delay);
    let mut out = Vec::new();
    Encoder::new(&mut out).into_block_enc().encode(ctrl).expect("enc graphic control");
    out
}

/// Calls gift's `BlockEnc::encode` on an `ImageDesc` with the given position
/// and size. It writes the separator 0x2c, then left, top, width and height,
/// low byte first, and a zero flag byte.
#[verifier::external_body]
fn encode_image_desc(left: u16, top: u16, width: u16, height: u16) -> (bytes: Vec<u8>)
    ensures
        bytes@ == block_bytes(Block::ImageDesc { left, top, width, height }),
{
    let desc = ImageDesc::default().with_left(left).with_top(top).with_height(height).with_width(
        width,
    );
    let mut out = Vec::new();
    Encoder::new(&mut out).into_block_enc().encode(desc).expect("enc image desc");
    out
}

/// Calls gift's `BlockEnc::encode` on an `ImageData` that holds the given
/// pixels. gift picks the code size from the largest pixel, compresses the
/// pixels and splits the result into sub-blocks; the outcome depends on the
/// pixels alone. It cannot write a pixel of index 255.
#[verifier::external_body]
fn encode_image_data(pixels: &[u8]) -> (bytes: Vec<u8>)
    requires
        forall|i: int| 0 <= i < pixels@.len() ==> pixels@[i] < 255,
    ensures
        bytes@ == image_data_bytes(pixels@),
{
    let mut image_data = ImageData::new(pixels.len());
    image_data.data_mut().extend_from_slice(pixels);
    let mut out = Vec::new();
    Encoder::new(&mut out).into_block_enc().encode(image_data).expect("enc image data");
    out
}

/// Calls gift's `BlockEnc::encode` on `Trailer::default()`, which writes the
/// one byte 0x3b.
#[verifier::external_body]
fn encode_trailer() -> (bytes: Vec<u8>)
    ensures
        bytes@ == block_bytes(Block::Trailer),
{
    let mut out = Vec::new();
    Encoder::new(&mut out).into_block_enc().encode(Trailer::default()).expect("enc trailer");
    out
}

/// Calls `Bytes::from` on the vector: the result holds the same bytes.
#[verifier::external_body]
fn freeze(chunk: Vec<u8>) -> (frozen: Bytes)
    ensures
        bytes_contents(frozen) == chunk@,
{
    Bytes::from(chunk)
}

/// What was read from a sprite sheet.
pub struct Sheet {
    /// The flags of the logical screen descriptor.
    pub table_flags: u8,
    /// The colours of the global colour table, three bytes each.
    pub palette: Vec<u8>,
    /// The width of the first frame, in pixels.
    pub width: u16,
    /// The height of the first frame, in pixels.
    pub height: u16,
    /// The pixels of the first frame, row by row.
    pub pixels: Vec<u8>,
}

impl Sheet {
    /// The sheet as plain values: flags, palette, width, height and pixels.
    pub open spec fn view(self) -> (u8, Seq<u8>, u16, u16, Seq<u8>) {
        (self.table_flags, self.palette@, self.width, self.height, self.pixels@)
    }
}

/// The plain values of a sheet that may be missing.
pub open spec fn sheet_view(sheet: Option<Sheet>) -> Option<(u8, Seq<u8>, u16, u16, Seq<u8>)> {
    match sheet {
        Some(s) => Some(s@),
        None => None,
    }
}

/// Calls gift's `Decoder::new` and `into_frames`, then `preamble` and `next`
/// on the frames. Yields the sheet if the data holds a preamble with a
/// global colour table and a first frame, and nothing if gift reports an
/// error or one of them is missing. The outcome depends on the data alone.
///
/// gift's decompressor cannot take every stream of codes. It indexes past
/// its table, or follows an entry that leads to itself, after a code that
/// names the entry about to be made while no string is at hand; it numbers
/// the entries in 16 bits, which a table that is never cleared outgrows;
/// and it writes out every pixel that the codes stand for before it looks
/// at the size of the image. `safe_sheet` follows the same path through the
/// file and the same codes, and leaves such data out, together with data
/// that ends before its first image does.
#[verifier::external_body]
pub(crate) fn decode_sheet(data: &[u8]) -> (sheet: Option<Sheet>)
    requires
        safe_sheet(data@),
    ensures
        sheet_view(sheet) == decoded_sheet(data@),
{
    let mut frames = Decoder::new(data).into_frames();
    let preamble = frames.preamble().ok()??;
    let frame = frames.next()?.ok()?;
    Some(
        Sheet {
            table_flags: preamble.logical_screen_desc.flags(),
            palette: preamble.global_color_table?.colors().to_vec(),
            width: frame.image_desc.width(),
            height: frame.image_desc.height(),
            pixels: frame.image_data.data().to_vec(),
        },
    )
}

/// Appending a block to a run appends its bytes.
pub proof fn lemma_blocks_bytes_push(blocks: Seq<Block>, block: Block)
    ensures
        blocks_bytes(blocks.push(block)) == blocks_bytes(blocks) + block_bytes(block),
{
    assert(blocks.push(block).drop_last() == blocks);
}

/// The bytes of a run of blocks, as it is written.
pub struct Chunk {
    bytes: Vec<u8>,
    blocks: Ghost<Seq<Block>>,
}

impl Chunk {
    /// The blocks written so far.
    pub closed spec fn view(self) -> Seq<Block> {
        self.blocks@
    }

    /// The bytes written so far.
    pub closed spec fn bytes(self) -> Seq<u8> {
        self.bytes@
    }

    /// The bytes are those of the blocks.
    pub open spec fn wf(self) -> bool {
        self.bytes() == blocks_bytes(self@)
    }

    /// A chunk without blocks.
    pub fn new() -> (chunk: Chunk)
        ensures
            chunk.wf(),
            chunk@ == Seq::<Block>::empty(),
    {
        Chunk { bytes: Vec::new(), blocks: Ghost(Seq::empty()) }
    }

    fn put(&mut self, bytes: Vec<u8>, Ghost(block): Ghost<Block>)
        requires
            old(self).wf(),
            bytes@ == block_bytes(block),
        ensures
            final(self).wf(),
            final(self)@ == old(self)@.push(block),
    {
        let mut bytes = bytes;
        proof {
            lemma_blocks_bytes_push(self.blocks@, block);
        }
        self.bytes.append(&mut bytes);
        self.blocks = Ghost(self.blocks@.push(block));
    }

    /// Writes the header.
    pub fn header(&mut self)
        requires
            old(self).wf(),
        ensures
            final(self).wf(),
            final(self)@ == old(self)@.push(Block::Header),
    {
        self.put(encode_header(), Ghost(Block::Header));
    }

    /// Writes the logical screen descriptor.
    pub fn logical_screen_desc(&mut self, width: u16, height: u16, table_flags: u8)
        requires
            old(self).wf(),
        ensures
            final(self).wf(),
            final(self)@ == old(self)@.push(Block::LogicalScreenDesc { width, height, table_flags }),
    {
        self.put(
            encode_logical_screen_desc(width, height, table_flags),
            Ghost(Block::LogicalScreenDesc { width, height, table_flags }),
        );
    }

    /// Writes the global colour table.
    pub fn global_color_table(&mut self, colors: &[u8])
        requires
            old(self).wf(),
            colors@.len() % 3 == 0,
        ensures
            final(self).wf(),
            final(self)@ == old(self)@.push(Block::GlobalColorTable { colors: colors@ }),
    {
        self.put(
            encode_global_color_table(colors),
            Ghost(Block::GlobalColorTable { colors: colors@ }),
        );
    }

    /// Writes the extension that makes the animation loop.
    pub fn application(&mut self, loop_count: u16)
        requires
            old(self).wf(),
        ensures
            final(self).wf(),
            final(self)@ == old(self)@.push(Block::Application { loop_count }),
    {
        self.put(encode_application(loop_count), Ghost(Block::Application { loop_count }));
    }

    /// Writes a comment.
    pub fn comment(&mut self, text: &[u8])
        requires
            old(self).wf(),
            0 < text@.len() < 256,
        ensures
            final(self).wf(),
            final(self)@ == old(self)@.push(Block::Comment { text: text@ }),
    {
        self.put(encode_comment(text), Ghost(Block::Comment { text: text@ }));
    }

    /// Writes a graphic control extension.
    pub fn graphic_control(&mut self, disposal: u8, delay: u16, transparent: Option<u8>)
        requires
            old(self).wf(),
            disposal < 8,
        ensures
            final(self).wf(),
            final(self)@ == old(self)@.push(Block::GraphicControl { disposal, delay, transparent }),
    {
        self.put(
            encode_graphic_control(disposal, delay, transparent),
            Ghost(Block::GraphicControl { disposal, delay, transparent }),
        );
    }

    /// Writes an image descriptor.
    pub fn image_desc(&mut self, left: u16, top: u16, width: u16, height: u16)
        requires
            old(self).wf(),
        ensures
            final(self).wf(),
            final(self)@ == old(self)@.push(Block::ImageDesc { left, top, width, height }),
    {
        self.put(
            encode_image_desc(left, top, width, height),
            Ghost(Block::ImageDesc { left, top, width, height }),
        );
    }

    /// Writes the pixels of an image.
    pub fn image_data(&mut self, pixels: &[u8])
        requires
            old(self).wf(),
            forall|i: int| 0 <= i < pixels@.len() ==> pixels@[i] < 255,
        ensures
            final(self).wf(),
            final(self)@ == old(self)@.push(Block::ImageData { pixels: pixels@ }),
    {
        self.put(encode_image_data(pixels), Ghost(Block::ImageData { pixels: pixels@ }));
    }

    /// Writes the trailer.
    pub fn trailer(&mut self)
        requires
            old(self).wf(),
        ensures
            final(self).wf(),
            final(self)@ == old(self)@.push(Block::Trailer),
    {
        self.put(encode_trailer(), Ghost(Block::Trailer));
    }

    /// Hands out the bytes.
    pub fn freeze(self) -> (bytes: Bytes)
        requires
            self.wf(),
        ensures
            bytes_contents(bytes) == blocks_bytes(self@),
    {
        freeze(self.bytes)
    }
}

} // verus!
