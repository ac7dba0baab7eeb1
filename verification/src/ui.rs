//! What the screens show that does not depend on the terminal library: the
//! colour of the time left, and the separator line.
use crate::text::push_char;
use vstd::prelude::*;

verus! {

/// The colour in which the time left is shown.
#[derive(Clone, Copy, Debug, PartialEq, Eq, Structural)]
pub enum TtlColor {
    Red,
    Yellow,
    Green,
}

/// Red for 0 to 4 seconds left, yellow for 5 to 9, green from 10 on.
pub open spec fn spec_ttl_color(ttl: u64) -> TtlColor {
    if ttl <= 4 {
        TtlColor::Red
    } else if ttl <= 9 {
        TtlColor::Yellow
    } else {
        TtlColor::Green
    }
}

pub fn ttl_color(ttl: u64) -> (r: TtlColor)
    ensures
        r == spec_ttl_color(ttl),
{
    if ttl <= 4 {
        TtlColor::Red
    } else if ttl <= 9 {
        TtlColor::Yellow
    } else {
        TtlColor::Green
    }
}

/// A line of `width` box-drawing dashes.
pub fn separator_text(width: u16) -> (r: String)
    ensures
        r@ == Seq::new(width as nat, |i: int| '─'),
{
    let mut s = String::new();
    let mut i: u16 = 0;
    while i < width
        invariant
            i <= width,
            s@ == Seq::new(i as nat, |k: int| '─'),
        decreases width - i,
    {
        push_char(&mut s, '─');
        assert(s@ =~= Seq::new((i + 1) as nat, |k: int| '─'));
        i = i + 1;
    }
    s
}

} // verus!
