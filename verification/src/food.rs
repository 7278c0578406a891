//! Eating: when a player may eat from an inventory pocket, and what eating
//! leaves behind.
use vstd::prelude::*;

use crate::items::ItemStack;

verus! {

/// What eating from a pocket is checked against, in the order of the
/// checks. A field that is `None` was not found.
#[derive(Clone, Copy, Debug, PartialEq, Eq)]
pub struct EatCheck {
    pub sleeping: bool,
    pub has_inventory: bool,
    /// The item in the pocket (`None`: no such pocket, or it is empty).
    pub pocket_item_id: Option<i32>,
    /// Whether the food may be eaten in combat (`None`: the item is no food).
    pub consumable_in_combat: Option<bool>,
    pub in_combat: bool,
}

/// Why eating was refused.
#[derive(Clone, Copy, Debug, PartialEq, Eq, Structural)]
pub enum EatError {
    Sleeping,
    NoInventory,
    InvalidPocket,
    NothingToEat,
    NotFood,
    InCombat,
}

impl EatError {
    /// The message shown to the player.
    pub fn message(&self) -> (text: &'static str)
        ensures
            text == match *self {
                EatError::Sleeping => "You cannot eat while you sleep.",
                EatError::NoInventory => "Player has no inventory",
                EatError::InvalidPocket => "Invalid pocket",
                EatError::NothingToEat => "Nothing to eat",
                EatError::NotFood => "Item can't be eaten",
                EatError::InCombat => "Cannot eat this while in combat",
            },
    {
        match self {
            EatError::Sleeping => "You cannot eat while you sleep.",
            EatError::NoInventory => "Player has no inventory",
            EatError::InvalidPocket => "Invalid pocket",
            EatError::NothingToEat => "Nothing to eat",
            EatError::NotFood => "Item can't be eaten",
            EatError::InCombat => "Cannot eat this while in combat",
        }
    }
}

/// The verdict on eating, checked in order.
pub open spec fn eat_verdict(c: EatCheck) -> Result<(), EatError> {
    if c.sleeping {
        Err(EatError::Sleeping)
    } else if !c.has_inventory {
        Err(EatError::NoInventory)
    } else if c.pocket_item_id is None {
        Err(EatError::InvalidPocket)
    } else if c.pocket_item_id->0 <= 0 {
        Err(EatError::NothingToEat)
    } else if c.consumable_in_combat is None {
        Err(EatError::NotFood)
    } else if c.consumable_in_combat == Some(false) && c.in_combat {
        Err(EatError::InCombat)
    } else {
        Ok(())
    }
}

/// The stacks `s`, `n` times over.
pub open spec fn repeated(s: Seq<ItemStack>, n: nat) -> Seq<ItemStack>
    decreases n,
{
    if n == 0 {
        seq![]
    } else {
        repeated(s, (n - 1) as nat) + s
    }
}

/// Checks that the player may eat from a pocket, in order: the player is
/// not asleep, has an inventory, the pocket exists and holds an item, the
/// item is food, and the food may be eaten now (some foods not in combat).
pub fn validate_eat(check: &EatCheck) -> (verdict: Result<(), EatError>)
    ensures
        verdict == eat_verdict(*check),
{
    if check.sleeping {
        return Err(EatError::Sleeping);
    }
    if !check.has_inventory {
        return Err(EatError::NoInventory);
    }
    let item_id = match check.pocket_item_id {
        Some(id) => id,
        None => return Err(EatError::InvalidPocket),
    };
    if item_id <= 0 {
        return Err(EatError::NothingToEat);
    }
    match check.consumable_in_combat {
        None => Err(EatError::NotFood),
        Some(false) => {
            if check.in_combat {
                Err(EatError::InCombat)
            } else {
                Ok(())
            }
        },
        Some(true) => Ok(()),
    }
}

/// What eating `quantity` portions leaves behind: the food's output stacks
/// once per portion (nothing for a quantity that is not positive).
pub fn food_output(output_stacks: &Vec<ItemStack>, quantity: i32) -> (output: Vec<ItemStack>)
    ensures
        output@ == if quantity <= 0 {
            Seq::<ItemStack>::empty()
        } else {
            repeated(output_stacks@, quantity as nat)
        },
{
    let mut output: Vec<ItemStack> = Vec::new();
    if quantity <= 0 {
        return output;
    }
    let mut k: i32 = 0;
    while k < quantity
        invariant
            0 <= k <= quantity,
            output@ == repeated(output_stacks@, k as nat),
        decreases quantity - k,
    {
        let ghost before = output@;
        for i in 0..output_stacks.len()
            invariant
                output@ == before + output_stacks@.take(i as int),
        {
            output.push(output_stacks[i]);
            proof {
                assert(output_stacks@.take(i + 1) =~= output_stacks@.take(i as int).push(output_stacks@[i as int]));
                assert(before + output_stacks@.take(i + 1) =~= (before + output_stacks@.take(i as int)).push(output_stacks@[i as int]));
            }
        }
        proof {
            assert(output_stacks@.take(output_stacks@.len() as int) =~= output_stacks@);
        }
        k = k + 1;
    }
    output
}

/// Eating leaves behind as many stacks as portions times output stacks.
pub proof fn law_food_output_size(s: Seq<ItemStack>, n: nat)
    ensures
        repeated(s, n).len() == n * s.len(),
    decreases n,
{
    if n == 0 {
        assert(n * s.len() == 0) by (nonlinear_arith)
            requires
                n == 0,
        ;
    } else {
        law_food_output_size(s, (n - 1) as nat);
        let m = (n - 1) as nat;
        assert(m * s.len() + s.len() == (m + 1) * s.len()) by (nonlinear_arith);
        assert(repeated(s, n) == repeated(s, m) + s);
    }
}

} // verus!
