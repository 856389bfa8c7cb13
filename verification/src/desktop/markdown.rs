//! How the desktop client reads an assistant message: the same blocks as
//! the build client, and inline pieces that keep a comma after a code chip.

use vstd::prelude::*;
use crate::build::markdown::{
    block_views, blocks_of, inline_pieces, inline_pieces_of, inline_views, Block, Inline,
};

verus! {

/// The blocks of a message (`blocks_of`).
pub fn blocks(text: &str) -> (r: Vec<Block>)
    ensures
        block_views(r@) == blocks_of(text@),
{
    crate::build::markdown::blocks(text)
}

/// The inline pieces of a line: code chips, bold runs and text, with no
/// comma dropped after a chip.
pub fn inline_spans(text: &str) -> (r: Vec<Inline>)
    ensures
        inline_views(r@) == inline_pieces(text@, false),
{
    inline_pieces_of(text, false)
}

} // verus!
