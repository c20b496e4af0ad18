//! The measures that a screen is set up with.

use vstd::prelude::*;

verus! {

/// The size of the screen in logical pixels and the size of one logical
/// pixel in cells of the window.
pub struct ApparatusSettings {
    width: usize,
    height: usize,
    pixel_width: usize,
    pixel_height: usize,
}

impl Default for ApparatusSettings {
    /// A screen of 1280 x 720 logical pixels of one cell each.
    fn default() -> (settings: Self)
        ensures
            settings.screen_width() == 1280,
            settings.screen_height() == 720,
            settings.pixel_width() == 1,
            settings.pixel_height() == 1,
    {
        Self { width: 1280, height: 720, pixel_width: 1, pixel_height: 1 }
    }
}

impl ApparatusSettings {
    /// The width of the screen in logical pixels.
    pub closed spec fn spec_screen_width(&self) -> usize {
        self.width
    }

    /// The height of the screen in logical pixels.
    pub closed spec fn spec_screen_height(&self) -> usize {
        self.height
    }

    /// The width of a logical pixel in cells.
    pub closed spec fn spec_pixel_width(&self) -> usize {
        self.pixel_width
    }

    /// The height of a logical pixel in cells.
    pub closed spec fn spec_pixel_height(&self) -> usize {
        self.pixel_height
    }

    /// Set the number of pixels in width and height for each "virtual pixel".
    /// Defaults to 1 x 1.
    pub fn with_pixel_size(self, width: usize, height: usize) -> (settings: Self)
        ensures
            settings.pixel_width() == width,
            settings.pixel_height() == height,
            settings.screen_width() == self.screen_width(),
            settings.screen_height() == self.screen_height(),
    {
        let mut settings = self;
        settings.pixel_width = width;
        settings.pixel_height = height;
        settings
    }

    /// Set the desired initial width and height of the screen in "virtual pixels".
    /// Defaults to 1280 x 720.
    pub fn with_screen_size(self, width: usize, height: usize) -> (settings: Self)
        ensures
            settings.screen_width() == width,
            settings.screen_height() == height,
            settings.pixel_width() == self.pixel_width(),
            settings.pixel_height() == self.pixel_height(),
    {
        let mut settings = self;
        settings.width = width;
        settings.height = height;
        settings
    }

    /// The width of the screen in logical pixels.
    #[verifier::when_used_as_spec(spec_screen_width)]
    pub fn screen_width(&self) -> (width: usize)
        ensures
            width == self.spec_screen_width(),
    {
        self.width
    }

    /// The height of the screen in logical pixels.
    #[verifier::when_used_as_spec(spec_screen_height)]
    pub fn screen_height(&self) -> (height: usize)
        ensures
            height == self.spec_screen_height(),
    {
        self.height
    }

    /// The width of a logical pixel in cells.
    #[verifier::when_used_as_spec(spec_pixel_width)]
    pub fn pixel_width(&self) -> (width: usize)
        ensures
            width == self.spec_pixel_width(),
    {
        self.pixel_width
    }

    /// The height of a logical pixel in cells.
    #[verifier::when_used_as_spec(spec_pixel_height)]
    pub fn pixel_height(&self) -> (height: usize)
        ensures
            height == self.spec_pixel_height(),
    {
        self.pixel_height
    }

    /// The width of the window in cells: `screen_width * pixel_width`, and
    /// `None` where that is more than a `usize` holds.
    pub fn window_width(&self) -> (width: Option<usize>)
        ensures
            width is Some <==> self.screen_width() * self.pixel_width() <= usize::MAX,
            width matches Some(w) ==> w == self.screen_width() * self.pixel_width(),
    {
        self.width.checked_mul(self.pixel_width)
    }

    /// The height of the window in cells: `screen_height * pixel_height`,
    /// and `None` where that is more than a `usize` holds.
    pub fn window_height(&self) -> (height: Option<usize>)
        ensures
            height is Some <==> self.screen_height() * self.pixel_height() <= usize::MAX,
            height matches Some(h) ==> h == self.screen_height() * self.pixel_height(),
    {
        self.height.checked_mul(self.pixel_height)
    }
}

} // verus!
