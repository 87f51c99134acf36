//! Plain data shared by every component of the registry.
use vstd::prelude::*;

verus! {

/// Identifier of a kitty. Identifiers are handed out densely, starting at zero.
pub type KittyIndex = u32;

/// Identifier of an account, already authenticated by the caller of the registry.
pub type AccountId = u64;

/// An amount of the external balance ledger.
pub type Balance = u64;

/// A kitty: its genome, fixed at creation.
#[derive(Clone, Copy, Debug, PartialEq, Eq)]
pub struct Kitty(pub [u8; 16]);

/// The two kitties a kitty was bred from.
#[derive(Clone, Copy, Debug, PartialEq, Eq)]
pub struct KittyParent {
    pub father: KittyIndex,
    pub mother: KittyIndex,
}

/// The relatives of a kitty.
#[derive(Clone, Debug, PartialEq, Eq)]
pub struct KittyFamily {
    pub parent: KittyParent,
    pub wife: KittyIndex,
    pub brothers: Vec<KittyIndex>,
    pub children: Vec<KittyIndex>,
}

/// Why an operation of the registry was refused. A refused operation changes nothing.
#[derive(Clone, Copy, Debug, PartialEq, Eq, Structural)]
pub enum Error {
    /// The identifier space is exhausted: no further kitty can be created.
    KittiesCountOverFlow,
    /// The identifier names no stored kitty, or a kitty without an owner.
    InvalidKittyId,
    /// Both parents of a breeding are the same kitty.
    RrquireDifferentParent,
    /// A transfer was asked for by an account that does not own the kitty.
    NotKittyOwner,
    /// The ledger refused to reserve the collateral.
    MoneyNotEnough,
}

/// What the registry announces after a successful operation.
#[derive(Clone, Copy, Debug, PartialEq, Eq, Structural)]
pub enum Event {
    /// `Created(owner, kitty)`: a kitty came into being, by creation or by breeding.
    Created(AccountId, KittyIndex),
    /// `Transferred(from, to, kitty)`: a kitty changed hands.
    Transferred(AccountId, AccountId, KittyIndex),
}

} // verus!
