//! The transaction record and its enumerated kinds and categories.
//!
//! Amounts are carried as signed whole cents so that aggregation stays in
//! integer arithmetic; dates are plain year/month/day triples. String
//! conversions for the enumerations are exact, so persistence round-trips
//! are provable.

use vstd::prelude::*;

verus! {

/// A user-facing spending classification with a fixed cyclic order.
#[derive(Clone, Copy, PartialEq, Eq, Structural, Debug, Hash)]
pub enum Category {
    Housing,
    Transportation,
    Food,
    Supermarket,
    Savings,
    Health,
    Personal,
    Trips,
    Other,
}

/// The successor of a category in the fixed cyclic order.
pub open spec fn next_of(c: Category) -> Category {
    match c {
        Category::Housing => Category::Transportation,
        Category::Transportation => Category::Food,
        Category::Food => Category::Supermarket,
        Category::Supermarket => Category::Savings,
        Category::Savings => Category::Health,
        Category::Health => Category::Personal,
        Category::Personal => Category::Trips,
        Category::Trips => Category::Other,
        Category::Other => Category::Housing,
    }
}

/// The predecessor of a category in the fixed cyclic order.
pub open spec fn previous_of(c: Category) -> Category {
    match c {
        Category::Housing => Category::Other,
        Category::Transportation => Category::Housing,
        Category::Food => Category::Transportation,
        Category::Supermarket => Category::Food,
        Category::Savings => Category::Supermarket,
        Category::Health => Category::Savings,
        Category::Personal => Category::Health,
        Category::Trips => Category::Personal,
        Category::Other => Category::Trips,
    }
}

/// The display name of a category.
pub open spec fn category_name(c: Category) -> Seq<char> {
    match c {
        Category::Housing => "Housing"@,
        Category::Transportation => "Transportation"@,
        Category::Food => "Food"@,
        Category::Supermarket => "Supermarket"@,
        Category::Savings => "Savings"@,
        Category::Health => "Health"@,
        Category::Personal => "Personal"@,
        Category::Trips => "Trips"@,
        Category::Other => "Other"@,
    }
}

/// The category whose display name is `s`, if any.
pub open spec fn category_of_name(s: Seq<char>) -> Option<Category> {
    if s == category_name(Category::Housing) {
        Some(Category::Housing)
    } else if s == category_name(Category::Transportation) {
        Some(Category::Transportation)
    } else if s == category_name(Category::Food) {
        Some(Category::Food)
    } else if s == category_name(Category::Supermarket) {
        Some(Category::Supermarket)
    } else if s == category_name(Category::Savings) {
        Some(Category::Savings)
    } else if s == category_name(Category::Health) {
        Some(Category::Health)
    } else if s == category_name(Category::Personal) {
        Some(Category::Personal)
    } else if s == category_name(Category::Trips) {
        Some(Category::Trips)
    } else if s == category_name(Category::Other) {
        Some(Category::Other)
    } else {
        None
    }
}

impl Category {
    /// Step forward in the cyclic order, wrapping at the end.
    pub fn next(&self) -> (r: Self)
        ensures
            r == next_of(*self),
    {
        match self {
            Self::Housing => Self::Transportation,
            Self::Transportation => Self::Food,
            Self::Food => Self::Supermarket,
            Self::Supermarket => Self::Savings,
            Self::Savings => Self::Health,
            Self::Health => Self::Personal,
            Self::Personal => Self::Trips,
            Self::Trips => Self::Other,
            Self::Other => Self::Housing,
        }
    }

    /// Step backward in the cyclic order, wrapping at the start.
    pub fn previous(&self) -> (r: Self)
        ensures
            r == previous_of(*self),
    {
        match self {
            Self::Housing => Self::Other,
            Self::Transportation => Self::Housing,
            Self::Food => Self::Transportation,
            Self::Supermarket => Self::Food,
            Self::Savings => Self::Supermarket,
            Self::Health => Self::Savings,
            Self::Personal => Self::Health,
            Self::Trips => Self::Personal,
            Self::Other => Self::Trips,
        }
    }

    /// The display name, used for persistence and rendering.
    pub fn as_str(&self) -> (r: &'static str)
        ensures
            r@ == category_name(*self),
    {
        match self {
            Self::Housing => "Housing",
            Self::Transportation => "Transportation",
            Self::Food => "Food",
            Self::Supermarket => "Supermarket",
            Self::Savings => "Savings",
            Self::Health => "Health",
            Self::Personal => "Personal",
            Self::Trips => "Trips",
            Self::Other => "Other",
        }
    }

    /// Parse a display name back into a category; `None` exactly on
    /// unknown names.
    pub fn from_str(s: &str) -> (r: Option<Category>)
        ensures
            r == category_of_name(s@),
    {
        if crate::text::str_eq(s, "Housing") {
            Some(Self::Housing)
        } else if crate::text::str_eq(s, "Transportation") {
            Some(Self::Transportation)
        } else if crate::text::str_eq(s, "Food") {
            Some(Self::Food)
        } else if crate::text::str_eq(s, "Supermarket") {
            Some(Self::Supermarket)
        } else if crate::text::str_eq(s, "Savings") {
            Some(Self::Savings)
        } else if crate::text::str_eq(s, "Health") {
            Some(Self::Health)
        } else if crate::text::str_eq(s, "Personal") {
            Some(Self::Personal)
        } else if crate::text::str_eq(s, "Trips") {
            Some(Self::Trips)
        } else if crate::text::str_eq(s, "Other") {
            Some(Self::Other)
        } else {
            None
        }
    }
}

impl Default for Category {
    /// New categories start at `Housing`, the first in the fixed order.
    fn default() -> (r: Self)
        ensures
            r == Category::Housing,
    {
        Category::Housing
    }
}

impl DeepView for Category {
    type V = Category;

    open spec fn deep_view(&self) -> Category {
        *self
    }
}

/// Stepping forward and then backward (or backward and then forward)
/// returns to the same category: the order is a single cycle.
pub proof fn lemma_category_cycle(c: Category)
    ensures
        previous_of(next_of(c)) == c,
        next_of(previous_of(c)) == c,
{
}

/// The flow classification assigned to a transaction at import time.
#[derive(Clone, Copy, PartialEq, Eq, Structural, Debug)]
pub enum Kind {
    CreditPurchase,
    DebitPurchase,
    Income,
    CreditBillPayment,
}

/// The display name of a kind.
pub open spec fn kind_name(k: Kind) -> Seq<char> {
    match k {
        Kind::CreditPurchase => "CreditPurchase"@,
        Kind::DebitPurchase => "DebitPurchase"@,
        Kind::Income => "Income"@,
        Kind::CreditBillPayment => "CreditBillPayment"@,
    }
}

/// The kind whose display name is `s`, if any.
pub open spec fn kind_of_name(s: Seq<char>) -> Option<Kind> {
    if s == kind_name(Kind::CreditPurchase) {
        Some(Kind::CreditPurchase)
    } else if s == kind_name(Kind::DebitPurchase) {
        Some(Kind::DebitPurchase)
    } else if s == kind_name(Kind::Income) {
        Some(Kind::Income)
    } else if s == kind_name(Kind::CreditBillPayment) {
        Some(Kind::CreditBillPayment)
    } else {
        None
    }
}

impl Kind {
    /// The display name, used for persistence and rendering.
    pub fn as_str(&self) -> (r: &'static str)
        ensures
            r@ == kind_name(*self),
    {
        match self {
            Self::CreditPurchase => "CreditPurchase",
            Self::DebitPurchase => "DebitPurchase",
            Self::Income => "Income",
            Self::CreditBillPayment => "CreditBillPayment",
        }
    }

    /// Parse a display name back into a kind; `None` exactly on unknown
    /// names.
    pub fn from_str(s: &str) -> (r: Option<Kind>)
        ensures
            r == kind_of_name(s@),
    {
        if crate::text::str_eq(s, "CreditPurchase") {
            Some(Self::CreditPurchase)
        } else if crate::text::str_eq(s, "DebitPurchase") {
            Some(Self::DebitPurchase)
        } else if crate::text::str_eq(s, "Income") {
            Some(Self::Income)
        } else if crate::text::str_eq(s, "CreditBillPayment") {
            Some(Self::CreditBillPayment)
        } else {
            None
        }
    }
}

/// A coarse budget grouping of expenses.
#[derive(Clone, Copy, PartialEq, Eq, Structural, Debug)]
pub enum Group {
    Fixed,
    Savings,
    Variable,
}

/// The display name of a group.
pub open spec fn group_name(g: Group) -> Seq<char> {
    match g {
        Group::Fixed => "Fixed"@,
        Group::Savings => "Savings"@,
        Group::Variable => "Variable"@,
    }
}

/// The group whose display name is `s`, if any.
pub open spec fn group_of_name(s: Seq<char>) -> Option<Group> {
    if s == group_name(Group::Fixed) {
        Some(Group::Fixed)
    } else if s == group_name(Group::Savings) {
        Some(Group::Savings)
    } else if s == group_name(Group::Variable) {
        Some(Group::Variable)
    } else {
        None
    }
}

impl Group {
    /// The display name, used for persistence and rendering.
    pub fn as_str(&self) -> (r: &'static str)
        ensures
            r@ == group_name(*self),
    {
        match self {
            Self::Fixed => "Fixed",
            Self::Savings => "Savings",
            Self::Variable => "Variable",
        }
    }

    /// Parse a display name back into a group; `None` exactly on unknown
    /// names.
    pub fn from_str(s: &str) -> (r: Option<Group>)
        ensures
            r == group_of_name(s@),
    {
        if crate::text::str_eq(s, "Fixed") {
            Some(Self::Fixed)
        } else if crate::text::str_eq(s, "Savings") {
            Some(Self::Savings)
        } else if crate::text::str_eq(s, "Variable") {
            Some(Self::Variable)
        } else {
            None
        }
    }
}

/// A calendar date as plain fields. Only the field ordering matters to
/// the library; calendar validity is the importer's concern.
#[derive(Clone, Copy, PartialEq, Eq, Structural, Debug)]
pub struct Date {
    pub year: i32,
    pub month: u8,
    pub day: u8,
}

/// Chronological order on dates, by year, then month, then day.
pub open spec fn date_le(a: Date, b: Date) -> bool {
    if a.year != b.year {
        a.year < b.year
    } else if a.month != b.month {
        a.month < b.month
    } else {
        a.day <= b.day
    }
}

impl Date {
    /// Chronological comparison: `self` is on or before `other`.
    pub fn le(&self, other: &Date) -> (r: bool)
        ensures
            r == date_le(*self, *other),
    {
        if self.year != other.year {
            self.year < other.year
        } else if self.month != other.month {
            self.month < other.month
        } else {
            self.day <= other.day
        }
    }
}

/// The largest amount, in cents, that a single transaction may carry.
/// Keeps every aggregation of `usize::MAX` transactions inside `i128`.
pub const AMOUNT_LIMIT: i64 = 1_000_000_000_000;

/// The mathematical value of a stored transaction.
#[verifier::ext_equal]
pub ghost struct TransactionV {
    pub id: u32,
    pub date: Date,
    pub title: Seq<char>,
    pub amount: int,
    pub kind: Kind,
    pub group: Option<Category>,
}

/// A stored transaction. `id` is assigned by storage and never edited;
/// `amount` is in signed cents, positive for inflow; `kind` is fixed at
/// import time; `group` is the current categorization, if any.
pub struct Transaction {
    pub id: u32,
    pub date: Date,
    pub title: String,
    pub amount: i64,
    pub kind: Kind,
    pub group: Option<Category>,
}

impl View for Transaction {
    type V = TransactionV;

    open spec fn view(&self) -> TransactionV {
        TransactionV {
            id: self.id,
            date: self.date,
            title: self.title@,
            amount: self.amount as int,
            kind: self.kind,
            group: self.group,
        }
    }
}

impl DeepView for Transaction {
    type V = TransactionV;

    open spec fn deep_view(&self) -> TransactionV {
        self.view()
    }
}

impl Clone for Transaction {
    fn clone(&self) -> (r: Self)
        ensures
            r@ == self@,
    {
        Transaction {
            id: self.id,
            date: self.date,
            title: self.title.clone(),
            amount: self.amount,
            kind: self.kind,
            group: self.group,
        }
    }
}

/// The mathematical value of an imported, not yet stored transaction.
#[verifier::ext_equal]
pub ghost struct NewTransactionV {
    pub date: Date,
    pub title: Seq<char>,
    pub amount: int,
    pub kind: Kind,
}

/// A normalized imported row, before storage assigns it an identity.
pub struct NewTransaction {
    pub date: Date,
    pub title: String,
    pub amount: i64,
    pub kind: Kind,
}

impl View for NewTransaction {
    type V = NewTransactionV;

    open spec fn view(&self) -> NewTransactionV {
        NewTransactionV { date: self.date, title: self.title@, amount: self.amount as int, kind: self.kind }
    }
}

impl DeepView for NewTransaction {
    type V = NewTransactionV;

    open spec fn deep_view(&self) -> NewTransactionV {
        self.view()
    }
}

impl Clone for NewTransaction {
    fn clone(&self) -> (r: Self)
        ensures
            r@ == self@,
    {
        NewTransaction {
            date: self.date,
            title: self.title.clone(),
            amount: self.amount,
            kind: self.kind,
        }
    }
}

/// How a vector's deep view indexes: element by element.
pub proof fn lemma_vec_deep_view<T: DeepView>(v: &Vec<T>)
    ensures
        v.deep_view().len() == v@.len(),
        forall|i: int| 0 <= i < v@.len() ==> #[trigger] v.deep_view()[i] == v@[i].deep_view(),
{
}

/// Clone a whole transaction list, preserving every record's value.
pub fn clone_transactions(v: &Vec<Transaction>) -> (r: Vec<Transaction>)
    ensures
        r.deep_view() == v.deep_view(),
{
    let mut out: Vec<Transaction> = Vec::new();
    let mut i: usize = 0;
    while i < v.len()
        invariant
            i <= v.len(),
            out.deep_view() =~= v.deep_view().subrange(0, i as int),
        decreases v.len() - i,
    {
        let ghost pre = out.deep_view();
        out.push(v[i].clone());
        proof {
            assert(out.deep_view() =~= pre.push(v@[i as int].deep_view()));
            assert(v.deep_view()[i as int] == v@[i as int].deep_view());
            assert(out.deep_view() =~= v.deep_view().subrange(0, i + 1));
        }
        i += 1;
    }
    proof {
        assert(out.deep_view() =~= v.deep_view());
    }
    out
}

} // verus!
