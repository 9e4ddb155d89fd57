use vstd::prelude::*;

verus! {

/// The terminal colors the renderers apply.
#[derive(Clone, Copy, Debug, PartialEq, Eq, Structural)]
pub enum Color {
    Reset,
    Green,
    Cyan,
}

/// The ANSI escape sequence of a color.
pub open spec fn escape_of(c: Color) -> Seq<char> {
    match c {
        Color::Reset => "\x1b[0m"@,
        Color::Green => "\x1b[32m"@,
        Color::Cyan => "\x1b[36m"@,
    }
}

impl Color {
    /// The escape sequence that switches the terminal to this color.
    pub fn code(&self) -> (r: &'static str)
        ensures
            r@ == escape_of(*self),
    {
        match self {
            Color::Reset => "\x1b[0m",
            Color::Green => "\x1b[32m",
            Color::Cyan => "\x1b[36m",
        }
    }
}

} // verus!
