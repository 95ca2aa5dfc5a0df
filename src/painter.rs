//! What a painter sends for its rows of the active frame.

use vstd::prelude::*;
use crate::geometry::CanvasGeometry;
use crate::wire::{Pixel, pixel_message, encode_pixel};

verus! {

/// The message for output pixel `(x, y)`: the capture pixel that it maps
/// to, drawn at the offset position.
pub open spec fn message_at(
    g: CanvasGeometry,
    frame: Seq<Pixel>,
    x: u16,
    y: u16,
    binary: bool,
    alpha: u8,
) -> Seq<u8> {
    pixel_message(
        binary,
        g.target(x, y).0,
        g.target(x, y).1,
        frame[g.source_index(x as int, y as int)],
        alpha,
    )
}

/// The messages for output row `y`, one per column from left to right.
pub fn row_messages(g: &CanvasGeometry, frame: &[Pixel], y: u16, binary: bool, alpha: u8) -> (r: Vec<
    Vec<u8>,
>)
    requires
        g.wf(),
        frame@.len() == g.frame_len(),
        y < g.output_height,
    ensures
        r@.len() == g.output_width,
        forall|x: int|
            0 <= x < g.output_width ==> (#[trigger] r@[x])@ == message_at(
                *g,
                frame@,
                x as u16,
                y,
                binary,
                alpha,
            ),
{
    let mut out: Vec<Vec<u8>> = Vec::new();
    let mut x: u16 = 0;
    while x < g.output_width
        invariant
            g.wf(),
            frame@.len() == g.frame_len(),
            y < g.output_height,
            x <= g.output_width,
            out@.len() == x,
            forall|k: int|
                0 <= k < x ==> (#[trigger] out@[k])@ == message_at(
                    *g,
                    frame@,
                    k as u16,
                    y,
                    binary,
                    alpha,
                ),
        decreases g.output_width - x,
    {
        let index = g.frame_index(x, y);
        let (tx, ty) = g.target_of(x, y);
        let message = encode_pixel(binary, tx, ty, frame[index], alpha);
        out.push(message);
        x = x + 1;
    }
    out
}

} // verus!
