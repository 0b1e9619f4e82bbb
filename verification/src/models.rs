//! The data model of the ledger: categories, balances, the append-only
//! fund and transaction records, and the error taxonomy.
//!
//! Timestamps are carried as plain seconds since the Unix epoch; the caller
//! that talks to a clock or a store supplies them.

use vstd::prelude::*;
use crate::money::Money;

verus! {

/// The closed set of budgeting categories.
#[derive(Clone, Copy, Debug, PartialEq, Eq, Structural, Hash, PartialOrd, Ord)]
pub enum CategoryName {
    Needs,
    Wants,
    Culture,
    Unexpected,
    Savings,
}

fn str_eq_chars(a: &str, b: &str) -> (r: bool)
    ensures
        r == (a@ == b@),
{
    let n: usize = a.unicode_len();
    if n != b.unicode_len() {
        return false;
    }
    let mut i: usize = 0;
    while i < n
        invariant
            n == a@.len(),
            n == b@.len(),
            i <= n,
            forall|j: int| 0 <= j < i ==> a@[j] == b@[j],
        decreases n - i,
    {
        if a.get_char(i) != b.get_char(i) {
            return false;
        }
        i = i + 1;
    }
    proof {
        assert(a@ =~= b@);
    }
    true
}

impl CategoryName {
    /// The display text of each category name.
    pub open spec fn text_spec(self) -> Seq<char> {
        match self {
            CategoryName::Needs => "Needs"@,
            CategoryName::Wants => "Wants"@,
            CategoryName::Culture => "Culture"@,
            CategoryName::Unexpected => "Unexpected"@,
            CategoryName::Savings => "Savings"@,
        }
    }

    /// The text form of this name, as it is displayed and stored.
    pub fn as_text(&self) -> (r: &str)
        ensures
            r@ == self.text_spec(),
    {
        match self {
            CategoryName::Needs => "Needs",
            CategoryName::Wants => "Wants",
            CategoryName::Culture => "Culture",
            CategoryName::Unexpected => "Unexpected",
            CategoryName::Savings => "Savings",
        }
    }

    /// The name whose text is `s`, if any.
    pub open spec fn of_text_spec(s: Seq<char>) -> Option<CategoryName> {
        if s == CategoryName::Needs.text_spec() {
            Some(CategoryName::Needs)
        } else if s == CategoryName::Wants.text_spec() {
            Some(CategoryName::Wants)
        } else if s == CategoryName::Culture.text_spec() {
            Some(CategoryName::Culture)
        } else if s == CategoryName::Unexpected.text_spec() {
            Some(CategoryName::Unexpected)
        } else if s == CategoryName::Savings.text_spec() {
            Some(CategoryName::Savings)
        } else {
            None
        }
    }

    /// The five name texts are pairwise distinct, so reading a name's own
    /// text yields that name back.
    pub proof fn lemma_text_round_trip(n: CategoryName)
        ensures
            Self::of_text_spec(n.text_spec()) == Some(n),
    {
        reveal_strlit("Needs");
        reveal_strlit("Wants");
        reveal_strlit("Culture");
        reveal_strlit("Unexpected");
        reveal_strlit("Savings");
        assert("Wants"@[0] != "Needs"@[0]);
        assert("Unexpected"@.len() != "Needs"@.len());
        assert("Savings"@.len() != "Needs"@.len());
        assert("Savings"@[0] != "Wants"@[0]);
        assert("Savings"@[0] != "Culture"@[0]);
    }

    /// Parses the text form of a category name.
    pub fn from_text(s: &str) -> (r: Option<CategoryName>)
        ensures
            r == Self::of_text_spec(s@),
    {
        if str_eq_chars(s, "Needs") {
            Some(CategoryName::Needs)
        } else if str_eq_chars(s, "Wants") {
            Some(CategoryName::Wants)
        } else if str_eq_chars(s, "Culture") {
            Some(CategoryName::Culture)
        } else if str_eq_chars(s, "Unexpected") {
            Some(CategoryName::Unexpected)
        } else if str_eq_chars(s, "Savings") {
            Some(CategoryName::Savings)
        } else {
            None
        }
    }
}

/// A budgeting category: a percentage share of every deposit, and an
/// optional overflow successor that receives the part of an expense this
/// category cannot cover.
#[derive(Clone, Copy, Debug, PartialEq, Eq, Hash)]
pub struct Category {
    pub id: i64,
    pub name: CategoryName,
    pub limit_percentage: Money,
    pub overflow_to_id: Option<i64>,
}

/// The running totals of one category. `available - spent` is the
/// category's current spendable remainder.
#[derive(Clone, Copy, Debug, PartialEq, Eq, Structural, Hash)]
pub struct CategoryBalance {
    pub category_id: i64,
    pub category_name: CategoryName,
    pub available: Money,
    pub allocated: Money,
    pub spent: Money,
    pub last_updated: i64,
}

/// The immutable record of one deposit. `remaining_balance_rolled` is the
/// total unspent remainder across non-sink categories at the moment of the
/// deposit. The store assigns `id` on insert; a freshly planned record
/// carries 0 there.
#[derive(Clone, Copy, Debug, PartialEq, Eq, Structural, Hash)]
pub struct Fund {
    pub id: i64,
    pub amount: Money,
    pub added_at: i64,
    pub remaining_balance_rolled: Money,
}

/// The immutable record of one spend, attributed to the originally targeted
/// category whatever the cascade touched. The store assigns `id` on insert;
/// a freshly planned record carries 0 there.
#[derive(Clone, Debug, PartialEq, Eq, Hash)]
pub struct Transaction {
    pub id: i64,
    pub category_id: i64,
    pub amount: Money,
    pub description: Option<String>,
    pub created_at: i64,
    pub overflow_from_id: Option<i64>,
    pub category_name: Option<CategoryName>,
}

/// Aggregate figures for the reporting view.
#[derive(Clone, Debug, PartialEq, Eq)]
pub struct SummaryStats {
    pub total_funds_added: Money,
    pub total_spent: Money,
    pub current_settings: Vec<Category>,
    pub balances: Vec<CategoryBalance>,
}

/// The reporting period selector.
#[derive(Clone, Copy, Debug, PartialEq, Eq, Structural, Hash)]
pub enum DateRange {
    Today,
    Last7Days,
    Month,
    Year,
    FiveYears,
}

impl Default for DateRange {
    fn default() -> (r: Self)
        ensures
            r == DateRange::Month,
    {
        DateRange::Month
    }
}

impl DateRange {
    /// The display title of each period.
    pub open spec fn title_spec(self) -> Seq<char> {
        match self {
            DateRange::Today => "Today"@,
            DateRange::Last7Days => "Last 7 Days"@,
            DateRange::Month => "Last 30 Days"@,
            DateRange::Year => "Last Year"@,
            DateRange::FiveYears => "Last 5 Years"@,
        }
    }

    /// The title shown for this period.
    pub fn title(&self) -> (r: &str)
        ensures
            r@ == self.title_spec(),
    {
        match self {
            DateRange::Today => "Today",
            DateRange::Last7Days => "Last 7 Days",
            DateRange::Month => "Last 30 Days",
            DateRange::Year => "Last Year",
            DateRange::FiveYears => "Last 5 Years",
        }
    }

    /// The period after this one, cycling back to the first.
    pub fn next(&self) -> (r: Self)
        ensures
            r == (match *self {
                DateRange::Today => DateRange::Last7Days,
                DateRange::Last7Days => DateRange::Month,
                DateRange::Month => DateRange::Year,
                DateRange::Year => DateRange::FiveYears,
                DateRange::FiveYears => DateRange::Today,
            }),
    {
        match self {
            DateRange::Today => DateRange::Last7Days,
            DateRange::Last7Days => DateRange::Month,
            DateRange::Month => DateRange::Year,
            DateRange::Year => DateRange::FiveYears,
            DateRange::FiveYears => DateRange::Today,
        }
    }

    /// How many days back this period reaches from today; the whole of
    /// today counts as 0.
    pub fn days_back(&self) -> (r: i64)
        ensures
            r == (match *self {
                DateRange::Today => 0i64,
                DateRange::Last7Days => 7i64,
                DateRange::Month => 30i64,
                DateRange::Year => 365i64,
                DateRange::FiveYears => 1825i64,
            }),
    {
        match self {
            DateRange::Today => 0,
            DateRange::Last7Days => 7,
            DateRange::Month => 30,
            DateRange::Year => 365,
            DateRange::FiveYears => 1825,
        }
    }
}

/// Everything a ledger operation can fail with.
#[derive(Clone, Copy, Debug, PartialEq, Eq, Structural, Hash)]
pub enum LedgerError {
    /// A non-positive amount, a malformed number, or an amount beyond the
    /// representable range.
    InvalidInput,
    /// A category configuration that the validator rejects: percentages out
    /// of range or not summing to 100, a broken or cyclic overflow chain,
    /// or balances that do not match the categories.
    ValidationError,
    /// A spend that exhausted the whole overflow chain with unmet need.
    InsufficientFunds,
    /// A category id or name that the configuration does not contain.
    CategoryNotFound,
    /// A failure reported by the storage backend.
    StorageError,
}

impl LedgerError {
    /// The display text of each error.
    pub open spec fn message_spec(self) -> Seq<char> {
        match self {
            LedgerError::InvalidInput => "Invalid input"@,
            LedgerError::ValidationError => "Validation error"@,
            LedgerError::InsufficientFunds => "Insufficient funds in category and overflow chain"@,
            LedgerError::CategoryNotFound => "Category not found"@,
            LedgerError::StorageError => "Storage error"@,
        }
    }

    /// The text shown for this error.
    pub fn message(&self) -> (r: &str)
        ensures
            r@ == self.message_spec(),
    {
        match self {
            LedgerError::InvalidInput => "Invalid input",
            LedgerError::ValidationError => "Validation error",
            LedgerError::InsufficientFunds => "Insufficient funds in category and overflow chain",
            LedgerError::CategoryNotFound => "Category not found",
            LedgerError::StorageError => "Storage error",
        }
    }
}

} // verus!
