//! What a caller asks for: one position, or a sequence of them.

use crate::board::{uci_wf, Board, Orientation, Square, Uci};
use crate::theme::{BoardTheme, PieceSet};
use vstd::prelude::*;

verus! {

/// The name of one of the two players, as shown in a name bar.
pub struct PlayerName(pub String);

/// A text to put into the file as a comment, of at most 255 bytes.
pub struct Comment {
    text: Vec<u8>,
}

impl Comment {
    /// The bytes of the text.
    pub closed spec fn view(&self) -> Seq<u8> {
        self.text@
    }

    /// Holds of every comment that `new` hands out.
    pub open spec fn wf(&self) -> bool {
        self@.len() < 256
    }

    /// The comment with the given text, unless it is longer than 255 bytes.
    pub fn new(text: Vec<u8>) -> (comment: Option<Comment>)
        ensures
            comment.is_some() <==> text@.len() < 256,
            comment matches Some(c) ==> c@ == text@ && c.wf(),
    {
        if text.len() < 256 {
            Some(Comment { text })
        } else {
            None
        }
    }

    /// The bytes of the text.
    pub fn as_bytes(&self) -> (bytes: &[u8])
        ensures
            bytes@ == self@,
    {
        self.text.as_slice()
    }
}

/// The bytes of a comment that may be missing.
pub open spec fn comment_view(comment: Option<Comment>) -> Option<Seq<u8>> {
    match comment {
        Some(c) => Some(c@),
        None => None,
    }
}

/// A request for a still image.
pub struct RequestParams {
    pub white: Option<PlayerName>,
    pub black: Option<PlayerName>,
    pub comment: Option<Comment>,
    pub board: Board,
    pub last_move: Option<Uci>,
    pub check: Option<Square>,
    pub orientation: Orientation,
    pub theme: BoardTheme,
    pub piece: PieceSet,
}

impl RequestParams {
    /// The squares named are squares of the board, and the comment is not too long.
    pub open spec fn wf(&self) -> bool {
        &&& uci_wf(self.last_move)
        &&& self.check matches Some(sq) ==> sq.wf()
        &&& self.comment matches Some(c) ==> c.wf()
    }
}

/// One frame of a request for an animation.
pub struct RequestFrame {
    pub board: Board,
    pub delay: Option<u16>,
    pub last_move: Option<Uci>,
    pub check: Option<Square>,
}

impl RequestFrame {
    /// The squares named are squares of the board.
    pub open spec fn wf(&self) -> bool {
        &&& uci_wf(self.last_move)
        &&& self.check matches Some(sq) ==> sq.wf()
    }
}

/// A request for an animation.
pub struct RequestBody {
    pub white: Option<PlayerName>,
    pub black: Option<PlayerName>,
    pub comment: Option<Comment>,
    pub frames: Vec<RequestFrame>,
    pub orientation: Orientation,
    /// How long a frame without a delay of its own is shown, in hundredths of a second.
    pub delay: u16,
    pub theme: BoardTheme,
    pub piece: PieceSet,
}

impl RequestBody {
    /// There is a frame, the squares named are squares of the board, and
    /// the comment is not too long.
    pub open spec fn wf(&self) -> bool {
        &&& self.frames@.len() > 0
        &&& forall|i: int| 0 <= i < self.frames@.len() ==> (#[trigger] self.frames@[i]).wf()
        &&& self.comment matches Some(c) ==> c.wf()
    }
}

} // verus!
