use vstd::prelude::*;

verus! {

/// The layout arithmetic of the screen; drawing itself is done by the
/// terminal front end.
#[derive(Clone, Copy, Debug)]
pub struct View;

impl View {
    /// The area inside a one-cell border: `(x, y, width, height)`.
    pub fn inner_area(&self, x: u16, y: u16, width: u16, height: u16) -> (r: (u16, u16, u16, u16))
        requires
            x < u16::MAX,
            y < u16::MAX,
            width >= 2,
            height >= 2,
        ensures
            r == ((x + 1) as u16, (y + 1) as u16, (width - 2) as u16, (height - 2) as u16),
    {
        (x + 1, y + 1, width - 2, height - 2)
    }

    /// The share, in percent, left on each side of a centered block that
    /// takes `percent` of the space.
    pub fn centered_margin(&self, percent: u16) -> (r: u16)
        requires
            percent <= 100,
        ensures
            r == (100 - percent) / 2,
            2 * r + percent <= 100,
    {
        (100 - percent) / 2
    }
}

} // verus!
