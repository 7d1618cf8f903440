//! Identifiers and short texts that rows carry.

use vstd::prelude::*;
use vstd::string::*;

verus! {

/// One amount for each of the seven ranks, from the owner down to the
/// player.
pub type AmountByPosition = [i64; 7];

/// The identity of a bet.
#[derive(PartialEq, Eq, Structural, Clone, Copy, Debug, Hash)]
pub struct BetID(pub u128);

/// The identity of a user.
#[derive(PartialEq, Eq, Structural, Clone, Copy, Debug, Hash)]
pub struct UserID(pub u128);

/// The name of a user.
#[derive(Debug)]
pub struct Username(pub String);

/// A currency code.
#[derive(Debug)]
pub struct Currency(pub String);

/// An address on the web.
#[derive(Debug)]
pub struct Url(pub String);

/// The identity that a provider gives a bet.
#[derive(Debug)]
pub struct ProviderBetID(pub String);

/// The identity that a provider gives a game.
#[derive(Debug)]
pub struct ProviderGameVendorID(pub String);

/// The label that a provider gives a game.
#[derive(Debug)]
pub struct ProviderGameVendorLabel(pub String);

impl View for Username {
    type V = Seq<char>;

    open spec fn view(&self) -> Seq<char> {
        self.0@
    }
}

impl View for Currency {
    type V = Seq<char>;

    open spec fn view(&self) -> Seq<char> {
        self.0@
    }
}

impl View for Url {
    type V = Seq<char>;

    open spec fn view(&self) -> Seq<char> {
        self.0@
    }
}

impl View for ProviderBetID {
    type V = Seq<char>;

    open spec fn view(&self) -> Seq<char> {
        self.0@
    }
}

impl View for ProviderGameVendorID {
    type V = Seq<char>;

    open spec fn view(&self) -> Seq<char> {
        self.0@
    }
}

impl View for ProviderGameVendorLabel {
    type V = Seq<char>;

    open spec fn view(&self) -> Seq<char> {
        self.0@
    }
}

impl Clone for Username {
    fn clone(&self) -> (copy: Self)
        ensures
            copy == *self,
    {
        Username(self.0.clone())
    }
}

impl Clone for Currency {
    fn clone(&self) -> (copy: Self)
        ensures
            copy == *self,
    {
        Currency(self.0.clone())
    }
}

impl Clone for Url {
    fn clone(&self) -> (copy: Self)
        ensures
            copy == *self,
    {
        Url(self.0.clone())
    }
}

impl Clone for ProviderBetID {
    fn clone(&self) -> (copy: Self)
        ensures
            copy == *self,
    {
        ProviderBetID(self.0.clone())
    }
}

impl Clone for ProviderGameVendorID {
    fn clone(&self) -> (copy: Self)
        ensures
            copy == *self,
    {
        ProviderGameVendorID(self.0.clone())
    }
}

impl Clone for ProviderGameVendorLabel {
    fn clone(&self) -> (copy: Self)
        ensures
            copy == *self,
    {
        ProviderGameVendorLabel(self.0.clone())
    }
}

impl Username {
    /// A username that holds `value`.
    pub fn from(value: String) -> (name: Username)
        ensures
            name.0 == value,
    {
        Username(value)
    }
}

impl UserID {
    /// The user identity that holds `value`.
    pub fn from(value: u128) -> (id: UserID)
        ensures
            id.0 == value,
    {
        UserID(value)
    }
}

} // verus!
