//! The rules of a shop cart: how much of an item it holds and what taking
//! some of it out does.

use vstd::prelude::*;

verus! {

/// One line of a cart: an item of the shop and how many of it are wanted.
#[derive(Clone, Copy, Debug, PartialEq, Eq)]
pub struct CartItem {
    pub item_id: u32,
    pub price: u32,
    pub amount: u32,
}

/// The place of the first line for `item_id`, or the length of the cart where
/// it has none.
pub open spec fn first_line_of(cart: Seq<CartItem>, item_id: u32) -> int
    decreases cart.len(),
{
    if cart.len() == 0 {
        0
    } else if cart[0].item_id == item_id {
        0
    } else {
        1 + first_line_of(cart.drop_first(), item_id)
    }
}

/// The cart without any line for `item_id`.
pub open spec fn without_item(cart: Seq<CartItem>, item_id: u32) -> Seq<CartItem> {
    cart.filter(|line: CartItem| line.item_id != item_id)
}

/// The cart after `amount` of `item_id` is taken out of its first line for
/// that item: the line holds that much less, and where nothing is left every
/// line for the item leaves the cart.
pub open spec fn after_removal(cart: Seq<CartItem>, item_id: u32, amount: u32) -> Seq<CartItem> {
    let line = first_line_of(cart, item_id);
    if cart[line].amount <= amount {
        without_item(cart, item_id)
    } else {
        cart.update(
            line,
            CartItem { item_id: cart[line].item_id, price: cart[line].price, amount: (cart[line].amount - amount) as u32 },
        )
    }
}

/// Whether `amount` of `item_id` can be taken out of the cart: its first
/// line for the item holds that many. An item that is not in the cart sets no
/// bound.
pub open spec fn removable(cart: Seq<CartItem>, item_id: u32, amount: u32) -> bool {
    let line = first_line_of(cart, item_id);
    line < cart.len() ==> amount <= cart[line].amount
}

/// The first line for `item_id` is inside the cart exactly when some line is
/// for `item_id`; no line before it is.
pub proof fn lemma_first_line_of(cart: Seq<CartItem>, item_id: u32)
    ensures
        0 <= first_line_of(cart, item_id) <= cart.len(),
        first_line_of(cart, item_id) < cart.len() ==> cart[first_line_of(cart, item_id)].item_id == item_id,
        forall|i: int| 0 <= i < first_line_of(cart, item_id) ==> (#[trigger] cart[i]).item_id != item_id,
    decreases cart.len(),
{
    if cart.len() > 0 && cart[0].item_id != item_id {
        lemma_first_line_of(cart.drop_first(), item_id);
        assert forall|i: int| 0 <= i < first_line_of(cart, item_id) implies (#[trigger] cart[i]).item_id
            != item_id by {
            if i > 0 {
                assert(cart.drop_first()[i - 1] == cart[i]);
            }
        }
    }
}

/// Finds the first line for `item_id`.
pub fn find_line(cart: &Vec<CartItem>, item_id: u32) -> (line: Option<usize>)
    ensures
        match line {
            Some(line) => line == first_line_of(cart@, item_id) && line < cart@.len(),
            None => first_line_of(cart@, item_id) == cart@.len(),
        },
{
    let mut index: usize = 0;
    while index < cart.len()
        invariant
            index <= cart@.len(),
            forall|i: int| 0 <= i < index ==> (#[trigger] cart@[i]).item_id != item_id,
        decreases cart@.len() - index,
    {
        if cart[index].item_id == item_id {
            proof {
                lemma_first_line_of(cart@, item_id);
            }
            return Some(index);
        }
        index = index + 1;
    }
    proof {
        lemma_first_line_of(cart@, item_id);
    }
    None
}

/// Whether `amount` of `item_id` can be taken out of the cart.
pub fn can_remove(cart: &Vec<CartItem>, item_id: u32, amount: u32) -> (allowed: bool)
    ensures
        allowed == removable(cart@, item_id, amount),
{
    match find_line(cart, item_id) {
        Some(line) => amount.saturating_sub(cart[line].amount) == 0,
        None => true,
    }
}

/// Takes `amount` of `item_id` out of the cart. The item has to be in the
/// cart.
pub fn remove_from_cart(cart: &mut Vec<CartItem>, item_id: u32, amount: u32)
    requires
        first_line_of(old(cart)@, item_id) < old(cart)@.len(),
    ensures
        final(cart)@ == after_removal(old(cart)@, item_id, amount),
{
    let line = match find_line(cart, item_id) {
        Some(line) => line,
        None => {
            return ;
        },
    };
    let purchase = cart[line];
    let left = purchase.amount.saturating_sub(amount);
    if left == 0 {
        let mut kept: Vec<CartItem> = Vec::new();
        let mut index: usize = 0;
        assert(cart@.take(0) =~= Seq::<CartItem>::empty());
        assert(kept@ == without_item(cart@.take(0), item_id)) by {
            reveal_with_fuel(Seq::filter, 1);
        }
        while index < cart.len()
            invariant
                index <= cart@.len(),
                cart@ == old(cart)@,
                kept@ == without_item(cart@.take(index as int), item_id),
            decreases cart@.len() - index,
        {
            let entry = cart[index];
            if entry.item_id != item_id {
                kept.push(entry);
            }
            index = index + 1;
            assert(kept@ == without_item(cart@.take(index as int), item_id)) by {
                reveal_with_fuel(Seq::filter, 1);
                assert(cart@.take(index as int).drop_last() =~= cart@.take(index - 1));
            }
        }
        assert(cart@.take(index as int) =~= cart@);
        *cart = kept;
    } else {
        cart.set(line, CartItem { item_id: purchase.item_id, price: purchase.price, amount: left });
    }
}

} // verus!
