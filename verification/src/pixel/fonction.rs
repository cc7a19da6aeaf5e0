use vstd::prelude::*;

verus! {

/// Color helpers.
pub struct Fonction {}

impl Fonction {
    /// Inverts the red, green and blue components of an RGBA color; alpha is kept.
    pub fn invert_color(color: [u8; 4]) -> (res: [u8; 4])
        ensures
            res[0] == 255 - color[0],
            res[1] == 255 - color[1],
            res[2] == 255 - color[2],
            res[3] == color[3],
    {
        [255 - color[0], 255 - color[1], 255 - color[2], color[3]]
    }
}

/// Inverting a color twice gives the color back.
pub proof fn lemma_invert_color_involution(color: [u8; 4], once: [u8; 4], twice: [u8; 4])
    requires
        once[0] == 255 - color[0],
        once[1] == 255 - color[1],
        once[2] == 255 - color[2],
        once[3] == color[3],
        twice[0] == 255 - once[0],
        twice[1] == 255 - once[1],
        twice[2] == 255 - once[2],
        twice[3] == once[3],
    ensures
        twice@ == color@,
{
    assert(twice@ =~= color@);
}

} // verus!
