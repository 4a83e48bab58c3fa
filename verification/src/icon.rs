//! The tray icon's pixel buffer: an 8 by 8 one-color glyph, expanded from
//! an alpha mask into RGBA bytes. Only the expansion lives here; handing
//! the buffer to the platform's tray belongs to the host.

use vstd::prelude::*;

verus! {

/// The alpha mask, row by row: 255 where the glyph is drawn.
pub open spec fn icon_alpha() -> Seq<u8> {
    seq![
        0u8, 0, 0, 0, 0, 0, 0, 0,
        0, 255, 255, 255, 255, 255, 255, 0,
        0, 0, 0, 0, 255, 0, 0, 0,
        0, 0, 0, 0, 255, 0, 0, 0,
        0, 0, 255, 0, 255, 0, 0, 0,
        0, 0, 255, 0, 255, 0, 0, 0,
        0, 0, 0, 255, 255, 0, 0, 0,
        0, 0, 0, 0, 0, 0, 0, 0,
    ]
}

/// Expands the alpha mask into an RGBA buffer: 4 bytes per pixel, black
/// everywhere, with the mask in the alpha channel.
pub fn icon_rgba() -> (r: Vec<u8>)
    ensures
        r@.len() == 256,
        forall|j: int|
            0 <= j < 64 ==> r@[4 * j] == 0 && r@[4 * j + 1] == 0 && r@[4 * j + 2] == 0 && r@[4 * j
                + 3] == icon_alpha()[j],
{
    let alpha: Vec<u8> = vec![
        0u8, 0, 0, 0, 0, 0, 0, 0,
        0, 255, 255, 255, 255, 255, 255, 0,
        0, 0, 0, 0, 255, 0, 0, 0,
        0, 0, 0, 0, 255, 0, 0, 0,
        0, 0, 255, 0, 255, 0, 0, 0,
        0, 0, 255, 0, 255, 0, 0, 0,
        0, 0, 0, 255, 255, 0, 0, 0,
        0, 0, 0, 0, 0, 0, 0, 0,
    ];
    proof {
        assert(alpha@ =~= icon_alpha());
    }
    let mut rgba: Vec<u8> = Vec::new();
    let mut i: usize = 0;
    while i < 64
        invariant
            0 <= i <= 64,
            alpha@ =~= icon_alpha(),
            alpha@.len() == 64,
            rgba@.len() == 4 * i,
            forall|j: int|
                0 <= j < i ==> rgba@[4 * j] == 0 && rgba@[4 * j + 1] == 0 && rgba@[4 * j + 2] == 0
                    && rgba@[4 * j + 3] == icon_alpha()[j],
        decreases 64 - i,
    {
        rgba.push(0);
        rgba.push(0);
        rgba.push(0);
        rgba.push(alpha[i]);
        i = i + 1;
    }
    rgba
}

} // verus!
