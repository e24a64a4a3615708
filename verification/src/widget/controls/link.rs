//! A piece of text that opens a web address when clicked.
use vstd::prelude::*;

verus! {

/// A link: its text, its address, and whether the pointer was over it.
pub struct Link {
    pub text: String,
    pub url: String,
    pub is_hovered: bool,
}

impl Link {
    pub fn new(text: String, url: String) -> (r: Self)
        ensures
            r.text == text,
            r.url == url,
            !r.is_hovered,
    {
        Link { text, url, is_hovered: false }
    }

    /// Records whether the pointer is over the link during a frame and returns
    /// whether to open its address (it was clicked).
    pub fn draw(&mut self, hovered: bool, clicked: bool) -> (open: bool)
        ensures
            final(self).text == old(self).text,
            final(self).url == old(self).url,
            final(self).is_hovered == hovered,
            open == clicked,
    {
        self.is_hovered = hovered;
        clicked
    }
}

} // verus!
