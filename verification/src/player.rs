//! The player's purse: money earned from kills and spent on purchases.

use vstd::prelude::*;

verus! {

/// The player's resources.
#[derive(Clone, Copy, Debug, PartialEq, Eq, Structural)]
pub struct Player {
    pub money: u64,
}

impl Player {
    /// A fresh player with no money.
    pub fn new() -> (r: Player)
        ensures
            r.money == 0,
    {
        Player { money: 0 }
    }

    /// Current balance.
    pub fn money(&self) -> (r: u64)
        ensures
            r == self.money,
    {
        self.money
    }

    /// Adds to the balance.  The caller keeps the sum within `u64`; that is
    /// the machine limit of the representation, not a rule of the game.
    pub fn add_money(&mut self, amount: u64)
        requires
            old(self).money + amount <= u64::MAX,
        ensures
            final(self).money == old(self).money + amount,
    {
        self.money = self.money + amount;
    }

    /// Spends `amount` if the balance covers it: exactly then the result is
    /// `Ok` and the balance shrinks by `amount`; otherwise the balance is
    /// unchanged and the result is `Err`.
    pub fn make_purchase(&mut self, amount: u64) -> (r: Result<(), ()>)
        ensures
            old(self).money >= amount ==> r is Ok && final(self).money == old(self).money
                - amount,
            old(self).money < amount ==> r is Err && final(self).money == old(self).money,
    {
        if self.money >= amount {
            self.money = self.money - amount;
            Ok(())
        } else {
            Err(())
        }
    }
}

} // verus!
