//! The size of the text area of the terminal.
use vstd::prelude::*;

verus! {

/// A width and a height in character cells.
#[derive(Clone, Copy, Debug, PartialEq, Eq, Structural)]
pub struct Size {
    pub width: u16,
    pub height: u16,
}

/// The terminal as the editor sees it: the area left for text.
pub struct Terminal {
    size: Size,
}

impl Terminal {
    /// The area for text.
    pub closed spec fn text_area(&self) -> Size {
        self.size
    }

    /// A terminal of `width` by `height` cells, keeping its last two lines for
    /// the status and message bars.
    pub fn new(width: u16, height: u16) -> (r: Terminal)
        ensures
            r.text_area() == (Size {
                width,
                height: if height >= 2 { (height - 2) as u16 } else { 0 },
            }),
    {
        Terminal { size: Size { width, height: height.saturating_sub(2) } }
    }

    /// The area for text.
    pub fn size(&self) -> (r: &Size)
        ensures
            *r == self.text_area(),
    {
        &self.size
    }
}

} // verus!
