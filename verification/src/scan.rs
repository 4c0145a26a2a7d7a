//! Looking through a sprite sheet before it is decoded.
//!
//! The decoder keeps a table of strings and reads codes that name its
//! entries. It cannot take every stream of codes: a code that names the
//! entry about to be made, read while no string is at hand, leaves the table
//! with an entry that leads nowhere or to itself; a table that is never
//! cleared outgrows the 16 bits in which its entries are numbered; and a
//! few codes can stand for more pixels than any image holds. The scan walks
//! the file as the decoder does, as far as the end of the first image, and
//! says whether the decoder can take what it finds.

use crate::gif::{table_len, table_len_of};
use vstd::prelude::*;

verus! {

/// Two to the power of `k`.
pub open spec fn power(k: u32) -> u32 {
    1u32 << k
}

/// Powers of two up to the twelfth.
pub proof fn lemma_power(k: u32)
    requires
        k <= 12,
    ensures
        1 <= power(k) <= 4096,
        k <= 8 ==> power(k) <= 256,
{
    assert(1 <= (1u32 << k) <= 4096 && (k <= 8 ==> (1u32 << k) <= 256)) by (bit_vector)
        requires
            k <= 12,
    ;
}

/// The most pixels that the codes of an image may stand for: the decoder
/// takes no image with more.
pub const MOST_PIXELS: u32 = 33554432;

/// Where the decoder stands within the codes of an image.
#[derive(Clone, Copy, Debug)]
pub struct Reader {
    /// The bits that were read and not yet taken as a code, lowest first.
    pub held: u32,
    /// How many of them there are.
    pub pending: u32,
    /// The number of bits of the next code.
    pub width: u32,
    /// The number of entries of the table.
    pub size: u32,
    /// Whether a string is at hand, to which the next code adds.
    pub prefix: bool,
    /// The length of the string at hand.
    pub at_hand: u32,
    /// The number of pixels written so far.
    pub written: u32,
    /// The code size of the image, from 2 to 8.
    pub min: u32,
}

impl Reader {
    /// The numbers are in their ranges.
    pub open spec fn wf(self) -> bool {
        &&& 2 <= self.min <= 8
        &&& self.min < self.width <= 12
        &&& power(self.min) + 2 <= self.size <= 65535
        &&& self.pending < 20
        &&& self.at_hand <= self.size
        &&& self.written <= MOST_PIXELS
    }

    /// The code that clears the table.
    pub open spec fn clear_code(self) -> u32 {
        power(self.min)
    }

    /// The code that ends the image.
    pub open spec fn end_code(self) -> u32 {
        (power(self.min) + 1) as u32
    }

    /// The reader at the start of an image whose code size byte is `byte`:
    /// a code size below 2 counts as 2, one above 8 as 8.
    pub open spec fn start(byte: u8) -> Reader {
        let min: u32 = if byte < 2 {
            2
        } else if byte > 8 {
            8
        } else {
            byte as u32
        };
        Reader {
            held: 0,
            pending: 0,
            width: (min + 1) as u32,
            size: (power(min) + 2) as u32,
            prefix: false,
            at_hand: 0,
            written: 0,
            min,
        }
    }

    /// The reader without its lowest code.
    pub open spec fn rest(self) -> Reader {
        Reader {
            held: self.held >> self.width,
            pending: (self.pending - self.width) as u32,
            ..self
        }
    }

    /// The lowest code that the reader holds.
    pub open spec fn code(self) -> u32 {
        self.held & ((power(self.width) - 1) as u32)
    }

    /// The reader with one more byte.
    pub open spec fn loaded(self, byte: u8) -> Reader {
        Reader {
            held: self.held | ((byte as u32) << self.pending),
            pending: (self.pending + 8) as u32,
            ..self
        }
    }
}

/// The decoder within the codes of an image: where it stands, and for each
/// entry of its table the length of the string that the entry stands for.
pub struct Walk {
    pub reader: Reader,
    pub lengths: Seq<u32>,
}

impl Walk {
    /// The table has as many lengths as entries, and the string of an entry
    /// is at most as long as the entries up to it are many.
    pub open spec fn wf(self) -> bool {
        &&& self.reader.wf()
        &&& self.lengths.len() == self.reader.size
        &&& forall|i: int| 0 <= i < self.lengths.len() ==> 1 <= #[trigger] self.lengths[i] <= i + 1
    }

    /// The decoder at the start of an image whose code size byte is `byte`:
    /// every entry stands for one pixel.
    pub open spec fn start(byte: u8) -> Walk {
        Walk {
            reader: Reader::start(byte),
            lengths: Seq::new(Reader::start(byte).size as nat, |i: int| 1u32),
        }
    }

    /// The decoder after the code `code`, if it can take it.
    ///
    /// The clear code cuts the table back to its first entries, the end
    /// code drops the string at hand. Any other code must name an entry of
    /// the table, or, with a string at hand, the entry about to be made;
    /// the table must have room in 16 bits; and the pixels that the code
    /// stands for must not take the image beyond `MOST_PIXELS`. With a
    /// string at hand the table grows by an entry, one pixel longer than
    /// that string, and the codes grow by a bit, up to 12, when the table
    /// fills them. Without one the code stands for a single pixel.
    pub open spec fn after_code(self, code: u32) -> Option<Walk> {
        let r = self.reader;
        if code == r.clear_code() {
            Some(
                Walk {
                    reader: Reader {
                        width: (r.min + 1) as u32,
                        size: (power(r.min) + 2) as u32,
                        prefix: false,
                        at_hand: 0,
                        ..r
                    },
                    lengths: self.lengths.subrange(0, power(r.min) + 2),
                },
            )
        } else if code == r.end_code() {
            Some(Walk { reader: Reader { prefix: false, at_hand: 0, ..r }, ..self })
        } else if code > r.size || (code == r.size && !r.prefix) || r.size >= 65535 {
            None
        } else {
            let string: u32 = if code < r.size {
                self.lengths[code as int]
            } else {
                (r.at_hand + 1) as u32
            };
            let pixels: u32 = if r.prefix {
                string
            } else {
                1
            };
            if r.written + pixels > MOST_PIXELS {
                None
            } else {
                Some(
                    Walk {
                        reader: Reader {
                            width: if r.size + 1 == power(r.width) && r.width < 12 {
                                (r.width + 1) as u32
                            } else {
                                r.width
                            },
                            size: if r.prefix {
                                (r.size + 1) as u32
                            } else {
                                r.size
                            },
                            prefix: true,
                            at_hand: string,
                            written: (r.written + pixels) as u32,
                            ..r
                        },
                        lengths: if r.prefix {
                            self.lengths.push((r.at_hand + 1) as u32)
                        } else {
                            self.lengths
                        },
                    },
                )
            }
        }
    }

    /// The decoder after every code that it holds in full, if it can take them.
    pub open spec fn drained(self) -> Option<Walk>
        decreases self.reader.pending,
    {
        if self.reader.pending < self.reader.width || self.reader.width == 0 {
            Some(self)
        } else {
            match (Walk { reader: self.reader.rest(), ..self }).after_code(self.reader.code()) {
                Some(next) => if next.reader.pending < self.reader.pending {
                    next.drained()
                } else {
                    None
                },
                None => None,
            }
        }
    }

    /// The decoder after one more byte, if it can take the codes that the byte completes.
    pub open spec fn fed(self, byte: u8) -> Option<Walk> {
        (Walk { reader: self.reader.loaded(byte), ..self }).drained()
    }
}

/// The decoder after the bytes of `data` from `from` up to, not including, `to`.
pub open spec fn fed_range(walk: Walk, data: Seq<u8>, from: int, to: int) -> Option<Walk>
    decreases to - from,
{
    if to <= from {
        Some(walk)
    } else {
        match fed_range(walk, data, from, to - 1) {
            Some(w) => w.fed(data[to - 1]),
            None => None,
        }
    }
}

/// Whether the sub-blocks of an image from `at` on are complete, up to the
/// empty one that ends them, and hold only codes that the decoder can take.
pub open spec fn codes_safe(data: Seq<u8>, at: int, walk: Walk) -> bool
    decreases data.len() - at,
{
    if at < 0 || at >= data.len() {
        false
    } else if data[at] == 0 {
        true
    } else if at + 1 + data[at] > data.len() {
        false
    } else {
        match fed_range(walk, data, at + 1, at + 1 + data[at]) {
            Some(next) => codes_safe(data, at + 1 + data[at], next),
            None => false,
        }
    }
}

/// The place behind the sub-blocks that start at `at`, if they are
/// complete up to the empty one that ends them.
pub open spec fn skip_sub_blocks(data: Seq<u8>, at: int) -> Option<int>
    decreases data.len() - at,
{
    if at < 0 || at >= data.len() {
        None
    } else if data[at] == 0 {
        Some(at + 1)
    } else if at + 1 + data[at] > data.len() {
        None
    } else {
        skip_sub_blocks(data, at + 1 + data[at])
    }
}

/// The place of the first image descriptor from `at` on, behind any
/// extensions: an extension is the byte 0x21, a label and sub-blocks, an
/// image descriptor starts with 0x2c.
pub open spec fn find_image(data: Seq<u8>, at: int) -> Option<int>
    decreases data.len() - at,
{
    if at < 0 || at >= data.len() {
        None
    } else if data[at] == 0x2c {
        Some(at)
    } else if data[at] == 0x21 {
        match skip_sub_blocks(data, at + 2) {
            Some(next) => if at < next <= data.len() {
                find_image(data, next)
            } else {
                None
            },
            None => None,
        }
    } else {
        None
    }
}

/// The number of bytes of the colour table that a flag byte announces.
pub open spec fn table_bytes(flags: u8) -> int {
    if flags >= 128 {
        3 * table_len(flags)
    } else {
        0
    }
}

/// Whether the data starts with the signature `GIF` and the version `87a` or `89a`.
pub open spec fn signed(data: Seq<u8>) -> bool {
    &&& data.len() >= 6
    &&& data[0] == 0x47 && data[1] == 0x49 && data[2] == 0x46
    &&& data[3] == 0x38 && (data[4] == 0x37 || data[4] == 0x39) && data[5] == 0x61
}

/// The place of the code size byte of the first image: behind the
/// signature, the 7 bytes of the screen descriptor, the global colour
/// table, any extensions, the 10 bytes of the image descriptor and the
/// local colour table.
pub open spec fn image_data_at(data: Seq<u8>) -> Option<int> {
    if !signed(data) || data.len() < 13 {
        None
    } else {
        match find_image(data, 13 + table_bytes(data[10])) {
            Some(desc) => if desc + 10 <= data.len() && desc + 10 + table_bytes(data[desc + 9])
                < data.len() {
                Some(desc + 10 + table_bytes(data[desc + 9]))
            } else {
                None
            },
            None => None,
        }
    }
}

/// Whether the data holds a first image, complete, whose codes the decoder can take.
pub open spec fn safe_sheet(data: Seq<u8>) -> bool {
    match image_data_at(data) {
        Some(at) => codes_safe(data, at + 1, Walk::start(data[at])),
        None => false,
    }
}

/// The decoder that stands at `reader` with a table of the given lengths.
pub open spec fn walk(reader: Reader, lengths: Seq<u32>) -> Walk {
    Walk { reader, lengths }
}

/// The decoder at the start of an image whose code size byte is `byte`.
fn start(byte: u8) -> (begun: (Reader, Vec<u32>))
    ensures
        walk(begun.0, begun.1@) == Walk::start(byte),
        walk(begun.0, begun.1@).wf(),
        begun.0.pending < begun.0.width,
{
    let min: u32 = if byte < 2 {
        2
    } else if byte > 8 {
        8
    } else {
        byte as u32
    };
    proof {
        lemma_power(min);
    }
    let size = (1u32 << min) + 2;
    let mut lengths: Vec<u32> = Vec::new();
    let mut i: u32 = 0;
    while i < size
        invariant
            i <= size <= 258,
            lengths@.len() == i,
            forall|j: int| 0 <= j < i ==> lengths@[j] == 1,
        decreases size - i,
    {
        lengths.push(1);
        i += 1;
    }
    let reader = Reader {
        held: 0,
        pending: 0,
        width: min + 1,
        size,
        prefix: false,
        at_hand: 0,
        written: 0,
        min,
    };
    assert(lengths@ =~= Walk::start(byte).lengths);
    (reader, lengths)
}

/// The decoder after the code `code`, if it can take it.
fn after_code(reader: Reader, lengths: &mut Vec<u32>, code: u32) -> (next: Option<Reader>)
    requires
        walk(reader, old(lengths)@).wf(),
    ensures
        match next {
            Some(r) => walk(reader, old(lengths)@).after_code(code) == Some(
                walk(r, final(lengths)@),
            ) && walk(r, final(lengths)@).wf() && r.pending == reader.pending,
            None => walk(reader, old(lengths)@).after_code(code).is_none(),
        },
{
    proof {
        lemma_power(reader.min);
        lemma_power(reader.width);
    }
    let clear = 1u32 << reader.min;
    if code == clear {
        lengths.truncate((clear + 2) as usize);
        Some(
            Reader { width: reader.min + 1, size: clear + 2, prefix: false, at_hand: 0, ..reader },
        )
    } else if code == clear + 1 {
        Some(Reader { prefix: false, at_hand: 0, ..reader })
    } else if code > reader.size || (code == reader.size && !reader.prefix) || reader.size >= 65535 {
        None
    } else {
        let string = if code < reader.size {
            lengths[code as usize]
        } else {
            reader.at_hand + 1
        };
        let pixels = if reader.prefix {
            string
        } else {
            1
        };
        if pixels > MOST_PIXELS - reader.written {
            return None;
        }
        let width = if reader.size + 1 == 1u32 << reader.width && reader.width < 12 {
            reader.width + 1
        } else {
            reader.width
        };
        let size = if reader.prefix {
            lengths.push(reader.at_hand + 1);
            reader.size + 1
        } else {
            reader.size
        };
        Some(
            Reader {
                width,
                size,
                prefix: true,
                at_hand: string,
                written: reader.written + pixels,
                ..reader
            },
        )
    }
}

/// The decoder after every code that it holds in full, if it can take them.
fn drain(reader: Reader, lengths: &mut Vec<u32>) -> (next: Option<Reader>)
    requires
        walk(reader, old(lengths)@).wf(),
    ensures
        match next {
            Some(r) => walk(reader, old(lengths)@).drained() == Some(walk(r, final(lengths)@))
                && walk(r, final(lengths)@).wf() && r.pending < r.width,
            None => walk(reader, old(lengths)@).drained().is_none(),
        },
{
    let ghost first = walk(reader, lengths@);
    let mut r = reader;
    while r.pending >= r.width
        invariant
            first == walk(reader, old(lengths)@),
            walk(r, lengths@).wf(),
            walk(r, lengths@).drained() == first.drained(),
        decreases r.pending,
    {
        proof {
            lemma_power(r.width);
        }
        let ghost before = walk(r, lengths@);
        let code = r.held & ((1u32 << r.width) - 1);
        let rest = Reader { held: r.held >> r.width, pending: r.pending - r.width, ..r };
        match after_code(rest, lengths, code) {
            Some(next) => {
                r = next;
            },
            None => {
                assert(before.drained().is_none());
                return None;
            },
        }
    }
    Some(r)
}

/// The decoder after the bytes of `data` from `from` up to, not including, `to`.
fn feed(reader: Reader, lengths: &mut Vec<u32>, data: &[u8], from: usize, to: usize) -> (next:
    Option<Reader>)
    requires
        walk(reader, old(lengths)@).wf(),
        reader.pending < reader.width,
        from <= to <= data@.len(),
    ensures
        match next {
            Some(r) => fed_range(walk(reader, old(lengths)@), data@, from as int, to as int)
                == Some(walk(r, final(lengths)@)) && walk(r, final(lengths)@).wf() && r.pending
                < r.width,
            None => fed_range(
                walk(reader, old(lengths)@),
                data@,
                from as int,
                to as int,
            ).is_none(),
        },
{
    let ghost first = walk(reader, lengths@);
    let mut r = reader;
    let mut i = from;
    while i < to
        invariant
            first == walk(reader, old(lengths)@),
            from <= i <= to <= data@.len(),
            walk(r, lengths@).wf(),
            r.pending < r.width,
            fed_range(first, data@, from as int, i as int) == Some(walk(r, lengths@)),
        decreases to - i,
    {
        let byte = data[i];
        let loaded = Reader {
            held: r.held | ((byte as u32) << r.pending),
            pending: r.pending + 8,
            ..r
        };
        let ghost before = walk(r, lengths@);
        match drain(loaded, lengths) {
            Some(next) => {
                r = next;
                i += 1;
            },
            None => {
                proof {
                    assert(before.fed(byte).is_none());
                    assert(fed_range(first, data@, from as int, i as int + 1).is_none());
                    lemma_fed_range_stops(first, data@, from as int, i as int + 1, to as int);
                }
                return None;
            },
        }
    }
    Some(r)
}

/// Once the decoder cannot go on, more bytes do not help.
pub proof fn lemma_fed_range_stops(walk: Walk, data: Seq<u8>, from: int, at: int, to: int)
    requires
        from <= at <= to,
        fed_range(walk, data, from, at).is_none(),
    ensures
        fed_range(walk, data, from, to).is_none(),
    decreases to - at,
{
    if at < to {
        lemma_fed_range_stops(walk, data, from, at, to - 1);
    }
}

/// Whether the sub-blocks of an image from `at` on are complete and hold
/// only codes that the decoder can take, for an image whose code size byte
/// is `byte`.
fn check_codes(data: &[u8], at: usize, byte: u8) -> (safe: bool)
    requires
        at <= data@.len(),
    ensures
        safe == codes_safe(data@, at as int, Walk::start(byte)),
{
    let (reader, mut lengths) = start(byte);
    let mut r = reader;
    let mut i = at;
    while i < data.len()
        invariant
            at <= i <= data@.len(),
            walk(r, lengths@).wf(),
            r.pending < r.width,
            codes_safe(data@, i as int, walk(r, lengths@)) == codes_safe(
                data@,
                at as int,
                Walk::start(byte),
            ),
        decreases data@.len() - i,
    {
        let len = data[i] as usize;
        if len == 0 {
            return true;
        }
        if len > data.len() - i - 1 {
            return false;
        }
        match feed(r, &mut lengths, data, i + 1, i + 1 + len) {
            Some(next) => {
                r = next;
                i = i + 1 + len;
            },
            None => {
                return false;
            },
        }
    }
    false
}

/// The place behind the sub-blocks that start at `at`, if they are complete.
fn skip(data: &[u8], at: usize) -> (behind: Option<usize>)
    requires
        at <= data@.len(),
    ensures
        match behind {
            Some(next) => skip_sub_blocks(data@, at as int) == Some(next as int) && at < next
                <= data@.len(),
            None => skip_sub_blocks(data@, at as int).is_none(),
        },
{
    let mut i = at;
    while i < data.len()
        invariant
            at <= i <= data@.len(),
            skip_sub_blocks(data@, i as int) == skip_sub_blocks(data@, at as int),
        decreases data@.len() - i,
    {
        let len = data[i] as usize;
        if len == 0 {
            return Some(i + 1);
        }
        if len > data.len() - i - 1 {
            return None;
        }
        i = i + 1 + len;
    }
    None
}

/// Behind the end of the data there are no sub-blocks.
proof fn lemma_skip_beyond(data: Seq<u8>, at: int)
    requires
        at >= data.len(),
    ensures
        skip_sub_blocks(data, at).is_none(),
{
}

/// The place of the first image descriptor from `at` on, behind any extensions.
fn find(data: &[u8], at: usize) -> (image: Option<usize>)
    requires
        at <= data@.len(),
    ensures
        match image {
            Some(desc) => find_image(data@, at as int) == Some(desc as int) && desc < data@.len(),
            None => find_image(data@, at as int).is_none(),
        },
{
    let mut i = at;
    while i < data.len()
        invariant
            at <= i <= data@.len(),
            find_image(data@, i as int) == find_image(data@, at as int),
        decreases data@.len() - i,
    {
        if data[i] == 0x2c {
            return Some(i);
        }
        if data[i] != 0x21 {
            return None;
        }
        if data.len() - i < 2 {
            proof {
                lemma_skip_beyond(data@, i + 2);
            }
            return None;
        }
        match skip(data, i + 2) {
            Some(next) => {
                i = next;
            },
            None => {
                return None;
            },
        }
    }
    None
}

/// The number of bytes of the colour table that a flag byte announces.
fn table_bytes_of(flags: u8) -> (len: usize)
    ensures
        len == table_bytes(flags),
        len <= 768,
{
    if flags >= 128 {
        3 * table_len_of(flags)
    } else {
        0
    }
}

/// The place of the code size byte of the first image.
fn locate(data: &[u8]) -> (place: Option<usize>)
    ensures
        match place {
            Some(at) => image_data_at(data@) == Some(at as int) && at < data@.len(),
            None => image_data_at(data@).is_none(),
        },
{
    if data.len() < 13 {
        return None;
    }
    if !(data[0] == 0x47 && data[1] == 0x49 && data[2] == 0x46 && data[3] == 0x38 && (data[4] == 0x37
        || data[4] == 0x39) && data[5] == 0x61) {
        return None;
    }
    let body = 13 + table_bytes_of(data[10]);
    if body > data.len() {
        return None;
    }
    match find(data, body) {
        Some(desc) => {
            if data.len() - desc < 10 {
                return None;
            }
            let table = table_bytes_of(data[desc + 9]);
            if table >= data.len() - desc - 10 {
                return None;
            }
            Some(desc + 10 + table)
        },
        None => None,
    }
}

/// Whether the data holds a first image, complete, whose codes the decoder can take.
pub fn is_safe_sheet(data: &[u8]) -> (safe: bool)
    ensures
        safe == safe_sheet(data@),
{
    let len = data.len();
    match locate(data) {
        Some(at) => {
            assert(at < len);
            check_codes(data, at + 1, data[at])
        },
        None => false,
    }
}

} // verus!
