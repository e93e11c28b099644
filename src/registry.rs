use vstd::prelude::*;
use near_sdk::AccountId;
use crate::command::{quality_view, CommandDetail, CommandView, Quality};

verus! {

/// Why the registry rejected a call.
#[derive(PartialEq, Eq, Structural, Debug, Clone, Copy)]
pub enum RegistryError {
    DuplicateCommand,
    InvalidAmountOrPrice,
    InsufficientDeposit,
    CommandNotFound,
}

/// The abstract state of a registry: its owner, the smallest deposit that
/// a submission must carry, and every stored command in submission order.
pub struct RegistryView {
    pub owner_id: AccountId,
    pub min_deposit: u128,
    pub commands: Seq<CommandView>,
}

/// Some stored command carries identifier `id`.
pub open spec fn has_id(s: Seq<CommandView>, id: Seq<char>) -> bool {
    exists|i: int| 0 <= i < s.len() && s[i].command_id == id
}

/// No two stored commands share an identifier.
pub open spec fn ids_unique(s: Seq<CommandView>) -> bool {
    forall|i: int, j: int|
        0 <= i < s.len() && 0 <= j < s.len() && i != j ==> s[i].command_id != s[j].command_id
}

/// Identifiers are unique and every amount and price is positive.
pub open spec fn well_formed(s: Seq<CommandView>) -> bool {
    &&& ids_unique(s)
    &&& forall|i: int|
        0 <= i < s.len() ==> s[i].amount_product > 0 && s[i].price_per_product > 0
}

/// The command stored under `id`, if any: the registry seen as a map from
/// identifiers to commands.
pub open spec fn lookup(s: Seq<CommandView>, id: Seq<char>) -> Option<CommandView> {
    if has_id(s, id) {
        Some(s[choose|i: int| 0 <= i < s.len() && s[i].command_id == id])
    } else {
        None
    }
}

/// The command that a submission describes, owned by the submitting account.
pub open spec fn submitted(
    command_id: Seq<char>,
    name_product: Seq<char>,
    is_sell: bool,
    amount_product: u128,
    price_per_product: u128,
    quality: Option<Quality>,
    caller: AccountId,
) -> CommandView {
    CommandView {
        command_id,
        name_product,
        is_sell,
        amount_product,
        price_per_product,
        quality: quality_view(quality),
        command_owner_id: caller,
    }
}

/// The result of submitting `c` with `deposit` attached, and the state after.
/// A rejected submission leaves the state as it was.
pub open spec fn add_outcome(r: RegistryView, c: CommandView, deposit: u128) -> (
    Result<(), RegistryError>,
    RegistryView,
) {
    if c.amount_product == 0 || c.price_per_product == 0 {
        (Err(RegistryError::InvalidAmountOrPrice), r)
    } else if has_id(r.commands, c.command_id) {
        (Err(RegistryError::DuplicateCommand), r)
    } else if deposit < r.min_deposit {
        (Err(RegistryError::InsufficientDeposit), r)
    } else {
        (Ok(()), RegistryView { commands: r.commands.push(c), ..r })
    }
}

/// The result of looking up `id`.
pub open spec fn get_outcome(r: RegistryView, id: Seq<char>) -> Result<CommandView, RegistryError> {
    match lookup(r.commands, id) {
        Some(c) => Ok(c),
        None => Err(RegistryError::CommandNotFound),
    }
}

/// The view of a lookup result.
pub open spec fn result_view(r: Result<CommandDetail, RegistryError>) -> Result<CommandView, RegistryError> {
    match r {
        Ok(c) => Ok(c@),
        Err(e) => Err(e),
    }
}

/// Price `a` is strictly more favourable than price `b` to the given side:
/// higher for buyers, lower for sellers.
pub open spec fn better_price(is_sell: bool, a: u128, b: u128) -> bool {
    if is_sell {
        a < b
    } else {
        a > b
    }
}

/// The command at position `i` (price `pi`) ranks ahead of the one at
/// position `j` (price `pj`): a better price, or the same price and an
/// earlier submission.
pub open spec fn ranks_ahead(is_sell: bool, pi: u128, i: int, pj: u128, j: int) -> bool {
    better_price(is_sell, pi, pj) || (pi == pj && i < j)
}

/// Command `c` belongs to product `name` on the given side.
pub open spec fn on_side(c: CommandView, name: Seq<char>, is_sell: bool) -> bool {
    c.name_product == name && c.is_sell == is_sell
}

/// `idx` lists the position of every command of `name` on the given side,
/// each once, from the best ranked to the worst.
pub open spec fn is_ranking(s: Seq<CommandView>, name: Seq<char>, is_sell: bool, idx: Seq<int>) -> bool {
    &&& forall|k: int|
        0 <= k < idx.len() ==> 0 <= #[trigger] idx[k] < s.len() && on_side(s[idx[k]], name, is_sell)
    &&& forall|i: int| 0 <= i < s.len() && on_side(#[trigger] s[i], name, is_sell) ==> idx.contains(i)
    &&& forall|a: int, b: int|
        0 <= a < b < idx.len() ==> ranks_ahead(
            is_sell,
            s[#[trigger] idx[a]].price_per_product,
            idx[a],
            s[#[trigger] idx[b]].price_per_product,
            idx[b],
        )
}

/// `r` is the order book of `name` on the given side: every such command,
/// best price first, ties in submission order.
pub open spec fn is_order_way(s: Seq<CommandView>, name: Seq<char>, is_sell: bool, r: Seq<CommandView>) -> bool {
    exists|idx: Seq<int>| is_ranking_witness(s, name, is_sell, r, idx)
}

/// `idx` is the ranking of `name` on the given side, and `r` holds the
/// commands at those positions.
pub open spec fn is_ranking_witness(
    s: Seq<CommandView>,
    name: Seq<char>,
    is_sell: bool,
    r: Seq<CommandView>,
    idx: Seq<int>,
) -> bool {
    &&& is_ranking(s, name, is_sell, idx)
    &&& r.len() == idx.len()
    &&& forall|k: int| 0 <= k < r.len() ==> r[k] == s[#[trigger] idx[k]]
}

/// Stores commands by identifier and ranks them per product and side.
pub struct Registry {
    owner_id: AccountId,
    min_deposit: u128,
    commands: Vec<CommandDetail>,
}

impl View for Registry {
    type V = RegistryView;

    closed spec fn view(&self) -> RegistryView {
        RegistryView {
            owner_id: self.owner_id,
            min_deposit: self.min_deposit,
            commands: self.commands@.map_values(|c: CommandDetail| c@),
        }
    }
}

impl Registry {
    /// The registry's invariant.
    pub open spec fn wf(&self) -> bool {
        well_formed(self@.commands)
    }

    /// An empty registry owned by `owner_id` that asks `min_deposit` of each
    /// submission.
    pub fn new(owner_id: AccountId, min_deposit: u128) -> (r: Registry)
        ensures
            r.wf(),
            r@.owner_id == owner_id,
            r@.min_deposit == min_deposit,
            r@.commands == Seq::<CommandView>::empty(),
    {
        let r = Registry { owner_id, min_deposit, commands: Vec::new() };
        assert(r@.commands =~= Seq::<CommandView>::empty());
        r
    }

    /// The account that created the registry.
    pub fn owner_id(&self) -> (r: &AccountId)
        ensures
            *r == self@.owner_id,
    {
        &self.owner_id
    }

    /// The smallest deposit that a submission must carry.
    pub fn min_deposit(&self) -> (r: u128)
        ensures
            r == self@.min_deposit,
    {
        self.min_deposit
    }

    /// Number of stored commands.
    pub fn len(&self) -> (r: usize)
        ensures
            r == self@.commands.len(),
    {
        self.commands.len()
    }

    /// Position of the command stored under `id`, if any.
    fn position_of(&self, id: &String) -> (r: Option<usize>)
        ensures
            match r {
                Some(i) => i < self@.commands.len() && self@.commands[i as int].command_id == id@,
                None => !has_id(self@.commands, id@),
            },
    {
        let mut i: usize = 0;
        while i < self.commands.len()
            invariant
                i <= self.commands@.len(),
                self@.commands.len() == self.commands@.len(),
                forall|k: int| 0 <= k < i ==> self@.commands[k].command_id != id@,
            decreases self.commands@.len() - i,
        {
            if self.commands[i].command_id == *id {
                return Some(i);
            }
            i = i + 1;
        }
        None
    }

    /// Stores a new command owned by `caller`, submitted with
    /// `attached_deposit` attached. Rejects a zero amount or price, an
    /// identifier already in use, and a deposit below the registry's minimum,
    /// in that order of precedence; a rejection changes nothing.
    pub fn add_command(
        &mut self,
        caller: AccountId,
        attached_deposit: u128,
        command_id: String,
        name_product: String,
        is_sell: bool,
        amount_product: u128,
        price_per_product: u128,
        quality: Option<Quality>,
    ) -> (res: Result<(), RegistryError>)
        requires
            old(self).wf(),
        ensures
            final(self).wf(),
            (res, final(self)@) == add_outcome(
                old(self)@,
                submitted(
                    command_id@,
                    name_product@,
                    is_sell,
                    amount_product,
                    price_per_product,
                    quality,
                    caller,
                ),
                attached_deposit,
            ),
    {
        if amount_product == 0 || price_per_product == 0 {
            return Err(RegistryError::InvalidAmountOrPrice);
        }
        if self.position_of(&command_id).is_some() {
            return Err(RegistryError::DuplicateCommand);
        }
        if attached_deposit < self.min_deposit {
            return Err(RegistryError::InsufficientDeposit);
        }
        let ghost c = submitted(
            command_id@,
            name_product@,
            is_sell,
            amount_product,
            price_per_product,
            quality,
            caller,
        );
        let ghost before = self@;
        let command = CommandDetail {
            command_id,
            name_product,
            is_sell,
            amount_product,
            price_per_product,
            quality,
            command_owner_id: caller,
        };
        self.commands.push(command);
        assert(self@.commands =~= before.commands.push(c));
        Ok(())
    }

    /// A copy of the command stored under `command_id`.
    pub fn get_command(&self, command_id: &String) -> (res: Result<CommandDetail, RegistryError>)
        requires
            self.wf(),
        ensures
            result_view(res) == get_outcome(self@, command_id@),
    {
        match self.position_of(command_id) {
            Some(i) => {
                let c = self.commands[i].snapshot();
                assert(self@.commands[i as int] == c@);
                Ok(c)
            },
            None => Err(RegistryError::CommandNotFound),
        }
    }
    /// Every command of `name_product` on the given side, best price first
    /// (highest for buyers, lowest for sellers), ties in submission order.
    pub fn get_product_order_way(&self, name_product: &String, is_sell: bool) -> (res: Vec<CommandDetail>)
        requires
            self.wf(),
        ensures
            is_order_way(self@.commands, name_product@, is_sell, res@.map_values(|c: CommandDetail| c@)),
    {
        let ghost s = self@.commands;
        let ghost name = name_product@;
        let ghost mut idx: Seq<int> = Seq::empty();
        let mut res: Vec<CommandDetail> = Vec::new();
        let mut i: usize = 0;
        while i < self.commands.len()
            invariant
                s == self@.commands,
                name == name_product@,
                s.len() == self.commands@.len(),
                i <= s.len(),
                res@.len() == idx.len(),
                forall|k: int| 0 <= k < idx.len() ==> res@[k]@ == s[#[trigger] idx[k]],
                forall|k: int|
                    0 <= k < idx.len() ==> 0 <= #[trigger] idx[k] < i && on_side(s[idx[k]], name, is_sell),
                forall|j: int| 0 <= j < i && on_side(#[trigger] s[j], name, is_sell) ==> idx.contains(j),
                forall|a: int, b: int|
                    0 <= a < b < idx.len() ==> ranks_ahead(
                        is_sell,
                        s[#[trigger] idx[a]].price_per_product,
                        idx[a],
                        s[#[trigger] idx[b]].price_per_product,
                        idx[b],
                    ),
            decreases s.len() - i,
        {
            let c = &self.commands[i];
            assert(s[i as int] == c@);
            if c.is_sell == is_sell && c.name_product == *name_product {
                let price = c.price_per_product;
                let mut p: usize = 0;
                while p < res.len() && !price_beats(is_sell, price, res[p].price_per_product)
                    invariant
                        p <= res@.len(),
                        res@.len() == idx.len(),
                        forall|k: int| 0 <= k < idx.len() ==> res@[k]@ == s[#[trigger] idx[k]],
                        forall|q: int|
                            0 <= q < p ==> !better_price(is_sell, price, s[#[trigger] idx[q]].price_per_product),
                    decreases res@.len() - p,
                {
                    p = p + 1;
                }
                let ghost old_idx = idx;
                proof {
                    idx = old_idx.insert(p as int, i as int);
                    assert forall|j: int| 0 <= j <= i && on_side(#[trigger] s[j], name, is_sell) implies idx.contains(j) by {
                        if j < i {
                            let k = choose|k: int| 0 <= k < old_idx.len() && old_idx[k] == j;
                            if k < p {
                                assert(idx[k] == j);
                            } else {
                                assert(idx[k + 1] == j);
                            }
                        } else {
                            assert(idx[p as int] == j);
                        }
                    }
                    assert forall|a: int, b: int| 0 <= a < b < idx.len() implies ranks_ahead(
                        is_sell,
                        s[#[trigger] idx[a]].price_per_product,
                        idx[a],
                        s[#[trigger] idx[b]].price_per_product,
                        idx[b],
                    ) by {
                        if b < p {
                            assert(idx[a] == old_idx[a] && idx[b] == old_idx[b]);
                        } else if b == p {
                            assert(idx[a] == old_idx[a]);
                        } else if a > p {
                            assert(idx[a] == old_idx[a - 1] && idx[b] == old_idx[b - 1]);
                        } else if a == p {
                            assert(idx[b] == old_idx[b - 1]);
                            assert(better_price(is_sell, price, s[old_idx[p as int]].price_per_product));
                            if b - 1 > p {
                                assert(ranks_ahead(
                                    is_sell,
                                    s[old_idx[p as int]].price_per_product,
                                    old_idx[p as int],
                                    s[old_idx[b - 1]].price_per_product,
                                    old_idx[b - 1],
                                ));
                            }
                        } else {
                            assert(idx[a] == old_idx[a] && idx[b] == old_idx[b - 1]);
                        }
                    }
                }
                res.insert(p, c.snapshot());
                assert forall|k: int| 0 <= k < idx.len() implies res@[k]@ == s[#[trigger] idx[k]] by {
                    if k < p {
                        assert(idx[k] == old_idx[k]);
                    } else if k > p {
                        assert(idx[k] == old_idx[k - 1]);
                    }
                }
            }
            i = i + 1;
        }
        let ghost r = res@.map_values(|c: CommandDetail| c@);
        assert(is_ranking_witness(s, name, is_sell, r, idx));
        res
    }
}

/// Whether price `a` is strictly more favourable than `b` to the given side.
fn price_beats(is_sell: bool, a: u128, b: u128) -> (r: bool)
    ensures
        r == better_price(is_sell, a, b),
{
    if is_sell {
        a < b
    } else {
        a > b
    }
}

} // verus!
