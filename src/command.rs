use vstd::prelude::*;
use near_sdk::AccountId;

verus! {

/// Caller-chosen identifier of a command, unique within a registry.
pub type CommandId = String;

/// Name of a traded product.
pub type NameProduct = String;

/// Certifying accounts and the approval pipeline attached to a command.
#[derive(Clone, Debug)]
pub struct Quality {
    pub certificate: Vec<AccountId>,
    pub stage: Vec<AccountId>,
}

/// The mathematical value of a `Quality`.
pub struct QualityView {
    pub certificate: Seq<AccountId>,
    pub stage: Seq<AccountId>,
}

impl View for Quality {
    type V = QualityView;

    open spec fn view(&self) -> QualityView {
        QualityView { certificate: self.certificate@, stage: self.stage@ }
    }
}

/// Copies a list of accounts element by element.
fn copy_accounts(v: &Vec<AccountId>) -> (r: Vec<AccountId>)
    ensures
        r@ == v@,
{
    let mut r: Vec<AccountId> = Vec::new();
    let mut i: usize = 0;
    while i < v.len()
        invariant
            i <= v@.len(),
            r@ == v@.subrange(0, i as int),
        decreases v@.len() - i,
    {
        r.push(v[i].clone());
        i = i + 1;
    }
    assert(r@ =~= v@);
    r
}

impl Quality {
    /// A structural copy of this quality record.
    pub fn snapshot(&self) -> (r: Quality)
        ensures
            r@ == self@,
    {
        Quality { certificate: copy_accounts(&self.certificate), stage: copy_accounts(&self.stage) }
    }
}

/// Optional quality constraint, viewed.
pub open spec fn quality_view(q: Option<Quality>) -> Option<QualityView> {
    match q {
        Some(q) => Some(q@),
        None => None,
    }
}

/// One buy or sell intent for a product.
#[derive(Clone, Debug)]
pub struct CommandDetail {
    pub command_id: CommandId,
    pub name_product: NameProduct,
    pub is_sell: bool,
    pub amount_product: u128,
    pub price_per_product: u128,
    pub quality: Option<Quality>,
    pub command_owner_id: AccountId,
}

/// The mathematical value of a `CommandDetail`.
pub struct CommandView {
    pub command_id: Seq<char>,
    pub name_product: Seq<char>,
    pub is_sell: bool,
    pub amount_product: u128,
    pub price_per_product: u128,
    pub quality: Option<QualityView>,
    pub command_owner_id: AccountId,
}

impl View for CommandDetail {
    type V = CommandView;

    open spec fn view(&self) -> CommandView {
        CommandView {
            command_id: self.command_id@,
            name_product: self.name_product@,
            is_sell: self.is_sell,
            amount_product: self.amount_product,
            price_per_product: self.price_per_product,
            quality: quality_view(self.quality),
            command_owner_id: self.command_owner_id,
        }
    }
}

fn copy_quality(q: &Option<Quality>) -> (r: Option<Quality>)
    ensures
        quality_view(r) == quality_view(*q),
{
    match q {
        Some(q) => Some(q.snapshot()),
        None => None,
    }
}

impl CommandDetail {
    /// A structural copy of this command: changing the copy leaves the
    /// source as it was.
    pub fn snapshot(&self) -> (r: CommandDetail)
        ensures
            r@ == self@,
    {
        CommandDetail {
            command_id: self.command_id.clone(),
            name_product: self.name_product.clone(),
            is_sell: self.is_sell,
            amount_product: self.amount_product,
            price_per_product: self.price_per_product,
            quality: copy_quality(&self.quality),
            command_owner_id: self.command_owner_id.clone(),
        }
    }
}

} // verus!
