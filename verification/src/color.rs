//! Colours and their channels.

use vstd::prelude::*;

verus! {

/// A pixel colour: three channels, or three channels and an alpha value.
#[derive(Clone, Copy, Debug, PartialEq, Eq, Structural)]
pub enum Color {
    RGB(u8, u8, u8),
    RGBA(u8, u8, u8, u8),
}

impl Color {
    /// The channels of the colour in order: red, green, blue, then alpha if
    /// the colour has one.
    pub open spec fn channels(self) -> Seq<u8> {
        match self {
            Color::RGB(r, g, b) => seq![r, g, b],
            Color::RGBA(r, g, b, a) => seq![r, g, b, a],
        }
    }

    /// The colour without its alpha value.
    pub open spec fn opaque(self) -> Color {
        match self {
            Color::RGB(r, g, b) => Color::RGB(r, g, b),
            Color::RGBA(r, g, b, _) => Color::RGB(r, g, b),
        }
    }
}

impl Color {
    /// The colour without its alpha value.
    pub fn without_alpha(&self) -> (color: Color)
        ensures
            color == self.opaque(),
    {
        match *self {
            Color::RGB(r, g, b) => Color::RGB(r, g, b),
            Color::RGBA(r, g, b, _) => Color::RGB(r, g, b),
        }
    }
}

/// Walks over the channels of a colour.
pub struct ColorIter<'a>(&'a Color, u8);

impl<'a> ColorIter<'a> {
    /// The channels that have not been handed out yet.
    pub closed spec fn remaining(&self) -> Seq<u8> {
        if self.1 <= self.0.channels().len() {
            self.0.channels().skip(self.1 as int)
        } else {
            Seq::empty()
        }
    }

    /// Begins at the first channel of `c`.
    pub fn new(c: &'a Color) -> (it: Self)
        ensures
            it.remaining() == c.channels(),
    {
        ColorIter(c, 0)
    }

    /// Hands out the next channel, if one is left.
    pub fn next(&mut self) -> (r: Option<u8>)
        ensures
            old(self).remaining().len() > 0 ==> {
                &&& r == Some(old(self).remaining()[0])
                &&& final(self).remaining() == old(self).remaining().skip(1)
            },
            old(self).remaining().len() == 0 ==> {
                &&& r.is_none()
                &&& final(self).remaining() == old(self).remaining()
            },
    {
        let index: u8 = self.1;
        let r = match *self.0 {
            Color::RGB(r, g, b) => {
                if index == 0 {
                    Some(r)
                } else if index == 1 {
                    Some(g)
                } else if index == 2 {
                    Some(b)
                } else {
                    None
                }
            },
            Color::RGBA(r, g, b, a) => {
                if index == 0 {
                    Some(r)
                } else if index == 1 {
                    Some(g)
                } else if index == 2 {
                    Some(b)
                } else if index == 3 {
                    Some(a)
                } else {
                    None
                }
            },
        };
        if r.is_some() {
            self.1 = index + 1;
        }
        r
    }
}

} // verus!
