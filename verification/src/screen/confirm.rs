//! A yes/no question shown over a screen.
use crate::screen::Key;
use vstd::prelude::*;

verus! {

/// A question to answer with `y` or `n`.
#[derive(Debug)]
pub struct Confirm {
    msg: String,
}

/// The answer: yes, no, or some other key.
#[derive(Clone, Copy, Debug, PartialEq, Eq, Structural)]
pub enum ConfirmKind {
    Yes,
    No,
    Stale,
}

impl View for Confirm {
    type V = Seq<char>;

    closed spec fn view(&self) -> Seq<char> {
        self.msg@
    }
}

/// `y` or `Y` is yes, `n` or `N` is no, anything else leaves it open.
pub open spec fn spec_confirm_key(key: Key) -> ConfirmKind {
    match key {
        Key::Char(c) => if c == 'y' || c == 'Y' {
            ConfirmKind::Yes
        } else if c == 'n' || c == 'N' {
            ConfirmKind::No
        } else {
            ConfirmKind::Stale
        },
        _ => ConfirmKind::Stale,
    }
}

impl Confirm {
    pub fn new(msg: String) -> (r: Self)
        ensures
            r@ == msg@,
    {
        Confirm { msg }
    }

    /// The question.
    pub fn msg(&self) -> (r: &str)
        ensures
            r@ == self@,
    {
        self.msg.as_str()
    }

    pub fn handle_key(&self, key: Key) -> (r: ConfirmKind)
        ensures
            r == spec_confirm_key(key),
    {
        match key {
            Key::Char(c) => if c == 'y' || c == 'Y' {
                ConfirmKind::Yes
            } else if c == 'n' || c == 'N' {
                ConfirmKind::No
            } else {
                ConfirmKind::Stale
            },
            _ => ConfirmKind::Stale,
        }
    }
}

} // verus!
