//! Passwords held in memory that is wiped when they are dropped
//! (`zeroize::Zeroizing<String>`).
use vstd::prelude::*;
use zeroize::Zeroizing;

verus! {

/// A password kept in a `Zeroizing<String>`, which wipes the text when it is
/// dropped. The field is hidden from verification; its text is named
/// `secret_text`.
#[verifier::external_body]
#[derive(Debug)]
pub struct Secret {
    text: Zeroizing<String>,
}

/// The text that a secret holds.
pub uninterp spec fn secret_text(s: Secret) -> Seq<char>;

impl View for Secret {
    type V = Seq<char>;

    open spec fn view(&self) -> Seq<char> {
        secret_text(*self)
    }
}

impl Secret {
    /// `Zeroizing::new(String::new())`: an empty secret.
    #[verifier::external_body]
    pub fn new() -> (r: Secret)
        ensures
            secret_text(r) == Seq::<char>::empty(),
    {
        Secret { text: Zeroizing::new(String::new()) }
    }

    /// `String::push` through `Zeroizing`'s `DerefMut`: appends a character.
    #[verifier::external_body]
    pub fn push(&mut self, c: char)
        ensures
            secret_text(*final(self)) == secret_text(*old(self)).push(c),
    {
        self.text.push(c);
    }

    /// `String::pop` through `Zeroizing`'s `DerefMut`: drops the last
    /// character, where there is one.
    #[verifier::external_body]
    pub fn pop(&mut self)
        ensures
            secret_text(*final(self)) == if secret_text(*old(self)).len() > 0 {
                secret_text(*old(self)).drop_last()
            } else {
                secret_text(*old(self))
            },
    {
        self.text.pop();
    }

    /// `String::as_str` through `Zeroizing`'s `Deref`: the text.
    #[verifier::external_body]
    pub fn as_str(&self) -> (r: &str)
        ensures
            r@ == secret_text(*self),
    {
        self.text.as_str()
    }
}

} // verus!
