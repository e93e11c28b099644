use vstd::prelude::*;
use near_sdk::AccountId;
use crate::command::{CommandView, Quality};
use crate::registry::{
    is_ranking, is_ranking_witness, ranks_ahead,
    add_outcome, get_outcome, has_id, is_order_way, on_side, submitted, well_formed,
    RegistryError, RegistryView,
};

verus! {

/// A valid submission (positive amount and price, fresh identifier, enough
/// deposit) is accepted, and looking its identifier up afterwards gives back
/// exactly the submitted fields, owned by the submitting account.
pub proof fn lemma_add_then_get(
    r: RegistryView,
    command_id: Seq<char>,
    name_product: Seq<char>,
    is_sell: bool,
    amount_product: u128,
    price_per_product: u128,
    quality: Option<Quality>,
    caller: AccountId,
    deposit: u128,
)
    requires
        well_formed(r.commands),
        amount_product > 0,
        price_per_product > 0,
        !has_id(r.commands, command_id),
        deposit >= r.min_deposit,
    ensures
        ({
            let c = submitted(command_id, name_product, is_sell, amount_product, price_per_product, quality, caller);
            let (res, after) = add_outcome(r, c, deposit);
            &&& res == Ok::<(), RegistryError>(())
            &&& well_formed(after.commands)
            &&& get_outcome(after, command_id) == Ok::<CommandView, RegistryError>(c)
            &&& c.command_owner_id == caller
        }),
{
    let c = submitted(command_id, name_product, is_sell, amount_product, price_per_product, quality, caller);
    let s = r.commands.push(c);
    assert(s[r.commands.len() as int] == c);
    assert(has_id(s, command_id));
    let i = choose|i: int| 0 <= i < s.len() && s[i].command_id == command_id;
    assert(i == r.commands.len()) by {
        if i < r.commands.len() {
            assert(r.commands[i] == s[i]);
        }
    }
}

/// Once a command is stored, a second submission under the same identifier
/// is rejected as a duplicate and the stored command stays as it was. The
/// second submission's amount and price are positive: a zero there is
/// reported first.
pub proof fn lemma_duplicate_rejected(
    r: RegistryView,
    first: CommandView,
    first_deposit: u128,
    second: CommandView,
    second_deposit: u128,
)
    requires
        well_formed(r.commands),
        add_outcome(r, first, first_deposit).0 is Ok,
        second.command_id == first.command_id,
        second.amount_product > 0,
        second.price_per_product > 0,
    ensures
        ({
            let after = add_outcome(r, first, first_deposit).1;
            &&& add_outcome(after, second, second_deposit) == (
                Err::<(), RegistryError>(RegistryError::DuplicateCommand),
                after,
            )
            &&& get_outcome(after, first.command_id) == Ok::<CommandView, RegistryError>(first)
        }),
{
    let after = add_outcome(r, first, first_deposit).1;
    let n = r.commands.len() as int;
    assert(after.commands[n] == first);
    assert(has_id(after.commands, first.command_id));
    let i = choose|i: int| 0 <= i < after.commands.len() && after.commands[i].command_id == first.command_id;
    assert(i == n) by {
        if i < n {
            assert(r.commands[i] == after.commands[i]);
        }
    }
}

/// The buy side of a product lists every buy command of that product and
/// nothing else, by price from highest to lowest, commands of equal price in
/// the order in which they were submitted.
pub proof fn lemma_buy_side_ranked(s: Seq<CommandView>, name: Seq<char>, r: Seq<CommandView>)
    requires
        is_order_way(s, name, false, r),
    ensures
        forall|k: int| 0 <= k < r.len() ==> on_side(#[trigger] r[k], name, false),
        forall|i: int| 0 <= i < s.len() && on_side(#[trigger] s[i], name, false) ==> r.contains(s[i]),
        forall|a: int, b: int|
            0 <= a < b < r.len() ==> (#[trigger] r[a]).price_per_product >= (#[trigger] r[b]).price_per_product,
        forall|a: int, b: int|
            0 <= a < b < r.len() && (#[trigger] r[a]).price_per_product == (#[trigger] r[b]).price_per_product
                ==> exists|i: int, j: int| 0 <= i < j < s.len() && s[i] == r[a] && s[j] == r[b],
{
    let idx = choose|idx: Seq<int>|
        is_ranking_witness(s, name, false, r, idx);
    assert forall|k: int| 0 <= k < r.len() implies on_side(#[trigger] r[k], name, false) by {
        assert(r[k] == s[idx[k]]);
    }
    assert forall|a: int, b: int| 0 <= a < b < r.len() implies (#[trigger] r[a]).price_per_product >= (
    #[trigger] r[b]).price_per_product by {
        assert(r[a] == s[idx[a]] && r[b] == s[idx[b]]);
    }
    assert forall|i: int| 0 <= i < s.len() && on_side(#[trigger] s[i], name, false) implies r.contains(s[i]) by {
        let k = choose|k: int| 0 <= k < idx.len() && idx[k] == i;
        assert(r[k] == s[i]);
    }
    assert forall|a: int, b: int|
        0 <= a < b < r.len() && (#[trigger] r[a]).price_per_product == (#[trigger] r[b]).price_per_product
        implies exists|i: int, j: int| 0 <= i < j < s.len() && s[i] == r[a] && s[j] == r[b] by {
        assert(s[idx[a]] == r[a] && s[idx[b]] == r[b]);
    }
}

/// The sell side of a product lists every sell command of that product and
/// nothing else, by price from lowest to highest, commands of equal price in
/// the order in which they were submitted.
pub proof fn lemma_sell_side_ranked(s: Seq<CommandView>, name: Seq<char>, r: Seq<CommandView>)
    requires
        is_order_way(s, name, true, r),
    ensures
        forall|k: int| 0 <= k < r.len() ==> on_side(#[trigger] r[k], name, true),
        forall|i: int| 0 <= i < s.len() && on_side(#[trigger] s[i], name, true) ==> r.contains(s[i]),
        forall|a: int, b: int|
            0 <= a < b < r.len() ==> (#[trigger] r[a]).price_per_product <= (#[trigger] r[b]).price_per_product,
        forall|a: int, b: int|
            0 <= a < b < r.len() && (#[trigger] r[a]).price_per_product == (#[trigger] r[b]).price_per_product
                ==> exists|i: int, j: int| 0 <= i < j < s.len() && s[i] == r[a] && s[j] == r[b],
{
    let idx = choose|idx: Seq<int>|
        is_ranking_witness(s, name, true, r, idx);
    assert forall|k: int| 0 <= k < r.len() implies on_side(#[trigger] r[k], name, true) by {
        assert(r[k] == s[idx[k]]);
    }
    assert forall|a: int, b: int| 0 <= a < b < r.len() implies (#[trigger] r[a]).price_per_product <= (
    #[trigger] r[b]).price_per_product by {
        assert(r[a] == s[idx[a]] && r[b] == s[idx[b]]);
    }
    assert forall|i: int| 0 <= i < s.len() && on_side(#[trigger] s[i], name, true) implies r.contains(s[i]) by {
        let k = choose|k: int| 0 <= k < idx.len() && idx[k] == i;
        assert(r[k] == s[i]);
    }
    assert forall|a: int, b: int|
        0 <= a < b < r.len() && (#[trigger] r[a]).price_per_product == (#[trigger] r[b]).price_per_product
        implies exists|i: int, j: int| 0 <= i < j < s.len() && s[i] == r[a] && s[j] == r[b] by {
        assert(s[idx[a]] == r[a] && s[idx[b]] == r[b]);
    }
}

/// A product with no command on a side has an empty order book on that side.
pub proof fn lemma_empty_side(s: Seq<CommandView>, name: Seq<char>, is_sell: bool, r: Seq<CommandView>)
    requires
        is_order_way(s, name, is_sell, r),
        forall|i: int| 0 <= i < s.len() ==> !on_side(#[trigger] s[i], name, is_sell),
    ensures
        r.len() == 0,
{
    let idx = choose|idx: Seq<int>|
        is_ranking_witness(s, name, is_sell, r, idx);
    if r.len() > 0 {
        assert(on_side(s[idx[0]], name, is_sell));
    }
}

/// Two position lists, each strictly ordered by rank, that hold the same
/// positions are equal.
proof fn lemma_rankings_agree(s: Seq<CommandView>, is_sell: bool, x: Seq<int>, y: Seq<int>)
    requires
        forall|a: int, b: int|
            0 <= a < b < x.len() ==> ranks_ahead(
                is_sell,
                s[#[trigger] x[a]].price_per_product,
                x[a],
                s[#[trigger] x[b]].price_per_product,
                x[b],
            ),
        forall|a: int, b: int|
            0 <= a < b < y.len() ==> ranks_ahead(
                is_sell,
                s[#[trigger] y[a]].price_per_product,
                y[a],
                s[#[trigger] y[b]].price_per_product,
                y[b],
            ),
        forall|e: int| x.contains(e) <==> y.contains(e),
    ensures
        x == y,
    decreases x.len(),
{
    if x.len() == 0 {
        if y.len() > 0 {
            assert(y.contains(y[0]));
        }
        assert(x =~= y);
    } else {
        assert(x.contains(x[0]));
        assert(y.len() > 0);
        if x[0] != y[0] {
            let j = choose|j: int| 0 <= j < y.len() && y[j] == x[0];
            assert(y.contains(y[0]));
            let i = choose|i: int| 0 <= i < x.len() && x[i] == y[0];
            assert(j > 0 && i > 0);
            assert(ranks_ahead(is_sell, s[y[0]].price_per_product, y[0], s[y[j]].price_per_product, y[j]));
            assert(ranks_ahead(is_sell, s[x[0]].price_per_product, x[0], s[x[i]].price_per_product, x[i]));
        }
        let x1 = x.drop_first();
        let y1 = y.drop_first();
        assert forall|e: int| x1.contains(e) <==> y1.contains(e) by {
            if x1.contains(e) {
                let k = choose|k: int| 0 <= k < x1.len() && x1[k] == e;
                assert(x[k + 1] == e);
                assert(ranks_ahead(is_sell, s[x[0]].price_per_product, x[0], s[x[k + 1]].price_per_product, x[k + 1]));
                assert(x.contains(e));
                let m = choose|m: int| 0 <= m < y.len() && y[m] == e;
                assert(m != 0);
                assert(y1[m - 1] == e);
            }
            if y1.contains(e) {
                let k = choose|k: int| 0 <= k < y1.len() && y1[k] == e;
                assert(y[k + 1] == e);
                assert(ranks_ahead(is_sell, s[y[0]].price_per_product, y[0], s[y[k + 1]].price_per_product, y[k + 1]));
                assert(y.contains(e));
                let m = choose|m: int| 0 <= m < x.len() && x[m] == e;
                assert(m != 0);
                assert(x1[m - 1] == e);
            }
        }
        assert forall|a: int, b: int| 0 <= a < b < x1.len() implies ranks_ahead(
            is_sell,
            s[#[trigger] x1[a]].price_per_product,
            x1[a],
            s[#[trigger] x1[b]].price_per_product,
            x1[b],
        ) by {
            assert(x1[a] == x[a + 1] && x1[b] == x[b + 1]);
        }
        assert forall|a: int, b: int| 0 <= a < b < y1.len() implies ranks_ahead(
            is_sell,
            s[#[trigger] y1[a]].price_per_product,
            y1[a],
            s[#[trigger] y1[b]].price_per_product,
            y1[b],
        ) by {
            assert(y1[a] == y[a + 1] && y1[b] == y[b + 1]);
        }
        lemma_rankings_agree(s, is_sell, x1, y1);
        assert forall|k: int| 0 <= k < x.len() implies x[k] == y[k] by {
            if k > 0 {
                assert(x[k] == x1[k - 1] && y[k] == y1[k - 1]);
            }
        }
        assert(x =~= y);
    }
}

/// The listing of a product side is fully determined by the stored
/// commands: any two listings that meet its description are equal.
pub proof fn lemma_order_way_unique(
    s: Seq<CommandView>,
    name: Seq<char>,
    is_sell: bool,
    r1: Seq<CommandView>,
    r2: Seq<CommandView>,
)
    requires
        is_order_way(s, name, is_sell, r1),
        is_order_way(s, name, is_sell, r2),
    ensures
        r1 == r2,
{
    let x = choose|idx: Seq<int>| is_ranking_witness(s, name, is_sell, r1, idx);
    let y = choose|idx: Seq<int>| is_ranking_witness(s, name, is_sell, r2, idx);
    assert(is_ranking(s, name, is_sell, x) && is_ranking(s, name, is_sell, y));
    assert forall|e: int| x.contains(e) <==> y.contains(e) by {
        if x.contains(e) {
            let k = choose|k: int| 0 <= k < x.len() && x[k] == e;
            assert(0 <= x[k] < s.len() && on_side(s[x[k]], name, is_sell));
        }
        if y.contains(e) {
            let k = choose|k: int| 0 <= k < y.len() && y[k] == e;
            assert(0 <= y[k] < s.len() && on_side(s[y[k]], name, is_sell));
        }
    }
    lemma_rankings_agree(s, is_sell, x, y);
    assert forall|k: int| 0 <= k < r1.len() implies r1[k] == r2[k] by {
        assert(r1[k] == s[x[k]] && r2[k] == s[y[k]]);
    }
    assert(r1 =~= r2);
}

/// A submission with a zero amount or a zero price is rejected as invalid
/// and changes nothing.
pub proof fn lemma_zero_rejected(r: RegistryView, c: CommandView, deposit: u128)
    requires
        c.amount_product == 0 || c.price_per_product == 0,
    ensures
        add_outcome(r, c, deposit) == (Err::<(), RegistryError>(RegistryError::InvalidAmountOrPrice), r),
{
}

} // verus!
