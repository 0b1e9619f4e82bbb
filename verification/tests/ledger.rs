use ebisu::engine::{seed_balances, seed_categories, Ledger};
use ebisu::models::{Category, CategoryBalance, CategoryName, LedgerError};
use ebisu::money::{Money, MONEY_MAX};

fn m(v: i64) -> Money {
    Money { minor: v }
}

fn fresh_ledger() -> Ledger {
    let cats = seed_categories();
    let bals = seed_balances(&cats, 0);
    Ledger::new(cats, bals).expect("the seed configuration is valid")
}

/// Seed order: Savings(1), Unexpected(2), Needs(3), Wants(4), Culture(5).
const SAVINGS: usize = 0;
const UNEXPECTED: usize = 1;
const NEEDS: usize = 2;
const WANTS: usize = 3;
const CULTURE: usize = 4;

#[test]
fn seed_configuration_loads() {
    let ledger = fresh_ledger();
    let cats = ledger.load_categories();
    assert_eq!(cats.len(), 5);
    assert_eq!(cats[SAVINGS].name, CategoryName::Savings);
    assert_eq!(cats[SAVINGS].overflow_to_id, None);
    assert_eq!(cats[NEEDS].name, CategoryName::Needs);
    assert_eq!(cats[NEEDS].overflow_to_id, Some(2));
    let bals = ledger.load_balances();
    assert_eq!(bals.len(), 5);
    for b in bals {
        assert_eq!(b.available, m(0));
        assert_eq!(b.allocated, m(0));
        assert_eq!(b.spent, m(0));
    }
}

#[test]
fn deposit_allocates_by_percentage() {
    let mut ledger = fresh_ledger();
    let plan = ledger.deposit(m(1_000_000), 7).expect("deposit succeeds");
    let bals = ledger.load_balances();
    assert_eq!(bals[NEEDS].available, m(300_000));
    assert_eq!(bals[WANTS].available, m(50_000));
    assert_eq!(bals[CULTURE].available, m(50_000));
    assert_eq!(bals[UNEXPECTED].available, m(100_000));
    assert_eq!(bals[SAVINGS].available, m(500_000));
    for b in bals {
        assert_eq!(b.allocated, b.available);
        assert_eq!(b.spent, m(0));
        assert_eq!(b.last_updated, 7);
    }
    let fund = plan.fund.expect("a deposit plans a fund record");
    assert_eq!(fund.amount, m(1_000_000));
    assert_eq!(fund.remaining_balance_rolled, m(0));
    assert_eq!(fund.added_at, 7);
    assert!(plan.transaction.is_none());
    assert_eq!(plan.balances, *ledger.load_balances());
}

#[test]
fn deposit_conserves_the_amount_exactly() {
    // 1001 rounds half-up per non-sink share; the sink absorbs the rest.
    let mut ledger = fresh_ledger();
    ledger.deposit(m(1001), 0).expect("deposit succeeds");
    let bals = ledger.load_balances();
    assert_eq!(bals[NEEDS].allocated, m(300));
    assert_eq!(bals[WANTS].allocated, m(50));
    assert_eq!(bals[CULTURE].allocated, m(50));
    assert_eq!(bals[UNEXPECTED].allocated, m(100));
    assert_eq!(bals[SAVINGS].allocated, m(501));
    let total: i64 = bals.iter().map(|b| b.allocated.minor).sum();
    assert_eq!(total, 1001);
}

#[test]
fn deposit_sweeps_unspent_remainders_into_the_sink() {
    let mut ledger = fresh_ledger();
    ledger.deposit(m(1_000_000), 0).expect("deposit succeeds");
    ledger.spend(3, m(120_000), None, 0).expect("spend succeeds");
    let plan = ledger.deposit(m(1_000_000), 1).expect("second deposit succeeds");
    // rollover: (300k-120k) + 100k + 50k + 50k = 380k from non-sink rows
    let fund = plan.fund.expect("a deposit plans a fund record");
    assert_eq!(fund.remaining_balance_rolled, m(380_000));
    let bals = ledger.load_balances();
    // non-sink rows start the period fresh
    assert_eq!(bals[NEEDS].available, m(300_000));
    assert_eq!(bals[NEEDS].spent, m(0));
    // the sink keeps its own remainder and absorbs the rollover
    assert_eq!(bals[SAVINGS].allocated, m(880_000));
    assert_eq!(bals[SAVINGS].available, m(1_380_000));
}

#[test]
fn deposit_rejects_a_non_positive_amount() {
    let mut ledger = fresh_ledger();
    let before = ledger.load_balances().clone();
    assert_eq!(ledger.deposit(m(0), 0).unwrap_err(), LedgerError::InvalidInput);
    assert_eq!(ledger.deposit(m(-5), 0).unwrap_err(), LedgerError::InvalidInput);
    assert_eq!(*ledger.load_balances(), before);
}

#[test]
fn deposit_rejects_an_unrepresentable_result() {
    let mut ledger = fresh_ledger();
    assert_eq!(
        ledger.deposit(m(MONEY_MAX + 1), 0).unwrap_err(),
        LedgerError::InvalidInput
    );
    ledger.deposit(m(MONEY_MAX), 0).expect("the first full-range deposit fits");
    let before = ledger.load_balances().clone();
    // a second full deposit would push the sink past the representable range
    assert_eq!(ledger.deposit(m(MONEY_MAX), 0).unwrap_err(), LedgerError::InvalidInput);
    assert_eq!(*ledger.load_balances(), before);
}

#[test]
fn spend_within_remainder_debits_only_the_target() {
    let mut ledger = fresh_ledger();
    ledger.deposit(m(1_000_000), 0).expect("deposit succeeds");
    let plan = ledger.spend(3, m(120_000), Some("groceries".to_string()), 9).expect(
        "spend succeeds",
    );
    let bals = ledger.load_balances();
    assert_eq!(bals[NEEDS].spent, m(120_000));
    assert_eq!(bals[UNEXPECTED].spent, m(0));
    assert_eq!(bals[SAVINGS].spent, m(0));
    let t = plan.transaction.expect("a spend plans a transaction record");
    assert_eq!(t.category_id, 3);
    assert_eq!(t.amount, m(120_000));
    assert_eq!(t.description, Some("groceries".to_string()));
    assert_eq!(t.created_at, 9);
    assert_eq!(t.overflow_from_id, None);
    assert_eq!(t.category_name, Some(CategoryName::Needs));
    assert!(plan.fund.is_none());
}

#[test]
fn spend_beyond_remainder_cascades_to_the_successor() {
    let mut ledger = fresh_ledger();
    ledger.deposit(m(1_000_000), 0).expect("deposit succeeds");
    ledger.spend(3, m(350_000), None, 0).expect("spend succeeds");
    let bals = ledger.load_balances();
    assert_eq!(bals[NEEDS].spent, m(300_000));
    assert_eq!(bals[UNEXPECTED].spent, m(50_000));
    assert_eq!(bals[SAVINGS].spent, m(0));
}

#[test]
fn spend_of_exactly_the_remainder_empties_only_the_target() {
    let mut ledger = fresh_ledger();
    ledger.deposit(m(1_000_000), 0).expect("deposit succeeds");
    ledger.spend(4, m(50_000), None, 0).expect("spend succeeds");
    let bals = ledger.load_balances();
    assert_eq!(bals[WANTS].spent, m(50_000));
    assert_eq!(bals[WANTS].available.minor - bals[WANTS].spent.minor, 0);
    assert_eq!(bals[UNEXPECTED].spent, m(0));
    assert_eq!(bals[SAVINGS].spent, m(0));
}

#[test]
fn spend_of_one_more_than_the_remainder_debits_one_from_the_successor() {
    let mut ledger = fresh_ledger();
    ledger.deposit(m(1_000_000), 0).expect("deposit succeeds");
    ledger.spend(4, m(50_001), None, 0).expect("spend succeeds");
    let bals = ledger.load_balances();
    assert_eq!(bals[WANTS].spent, m(50_000));
    assert_eq!(bals[UNEXPECTED].spent, m(1));
    assert_eq!(bals[SAVINGS].spent, m(0));
}

#[test]
fn spend_cascade_can_run_to_the_sink() {
    let mut ledger = fresh_ledger();
    ledger.deposit(m(1_000_000), 0).expect("deposit succeeds");
    // Needs 300k -> Unexpected 100k -> Savings
    ledger.spend(3, m(450_000), None, 0).expect("spend succeeds");
    let bals = ledger.load_balances();
    assert_eq!(bals[NEEDS].spent, m(300_000));
    assert_eq!(bals[UNEXPECTED].spent, m(100_000));
    assert_eq!(bals[SAVINGS].spent, m(50_000));
    // no remainder went negative anywhere
    for b in bals {
        assert!(b.available.minor - b.spent.minor >= 0);
    }
}

#[test]
fn failed_spend_changes_nothing() {
    let mut ledger = fresh_ledger();
    ledger.deposit(m(1_000_000), 0).expect("deposit succeeds");
    let before: Vec<CategoryBalance> = ledger.load_balances().clone();
    // the whole Needs chain holds 300k + 100k + 500k = 900k
    let e = ledger.spend(3, m(950_000), None, 0).unwrap_err();
    assert_eq!(e, LedgerError::InsufficientFunds);
    assert_eq!(*ledger.load_balances(), before);
}

#[test]
fn spend_rejects_bad_inputs() {
    let mut ledger = fresh_ledger();
    ledger.deposit(m(1_000_000), 0).expect("deposit succeeds");
    assert_eq!(ledger.spend(3, m(0), None, 0).unwrap_err(), LedgerError::InvalidInput);
    assert_eq!(ledger.spend(99, m(10), None, 0).unwrap_err(), LedgerError::CategoryNotFound);
}

#[test]
fn load_balances_is_idempotent() {
    let mut ledger = fresh_ledger();
    ledger.deposit(m(123_456), 0).expect("deposit succeeds");
    let first = ledger.load_balances().clone();
    let second = ledger.load_balances().clone();
    assert_eq!(first, second);
}

#[test]
fn percentage_update_validates_the_sum() {
    let mut ledger = fresh_ledger();
    // replacing 30 with 30 keeps the sum at 100
    assert!(ledger.update_category_percentage(3, m(30)).is_ok());
    // replacing 30 with 31 would make the sum 101
    assert_eq!(
        ledger.update_category_percentage(3, m(31)).unwrap_err(),
        LedgerError::ValidationError
    );
    assert_eq!(
        ledger.update_category_percentage(3, m(-1)).unwrap_err(),
        LedgerError::ValidationError
    );
    assert_eq!(
        ledger.update_category_percentage(99, m(10)).unwrap_err(),
        LedgerError::CategoryNotFound
    );
    assert_eq!(ledger.load_categories()[NEEDS].limit_percentage, m(30));
}

#[test]
fn get_category_by_name_finds_the_entry() {
    let ledger = fresh_ledger();
    let c = ledger.get_category_by_name(CategoryName::Wants).expect("Wants is seeded");
    assert_eq!(c.id, 4);
    let cats = seed_categories();
    let bals = seed_balances(&cats, 0);
    let trimmed: Vec<Category> = cats.into_iter().take(2).collect();
    let trimmed_bals: Vec<CategoryBalance> = bals.into_iter().take(2).collect();
    let small = Ledger::new(trimmed, trimmed_bals).expect("a two-category chain is valid");
    assert!(small.get_category_by_name(CategoryName::Needs).is_none());
}

#[test]
fn new_rejects_a_cyclic_chain() {
    let cats = vec![
        Category {
            id: 1,
            name: CategoryName::Needs,
            limit_percentage: m(40),
            overflow_to_id: Some(2),
        },
        Category {
            id: 2,
            name: CategoryName::Wants,
            limit_percentage: m(30),
            overflow_to_id: Some(1),
        },
        Category {
            id: 3,
            name: CategoryName::Savings,
            limit_percentage: m(30),
            overflow_to_id: None,
        },
    ];
    let bals = seed_balances(&cats, 0);
    assert_eq!(Ledger::new(cats, bals).unwrap_err(), LedgerError::ValidationError);
}

#[test]
fn new_rejects_a_self_successor() {
    let cats = vec![
        Category {
            id: 1,
            name: CategoryName::Needs,
            limit_percentage: m(50),
            overflow_to_id: Some(1),
        },
        Category {
            id: 2,
            name: CategoryName::Savings,
            limit_percentage: m(50),
            overflow_to_id: None,
        },
    ];
    let bals = seed_balances(&cats, 0);
    assert_eq!(Ledger::new(cats, bals).unwrap_err(), LedgerError::ValidationError);
}

#[test]
fn new_rejects_duplicate_ids_and_two_sinks() {
    let dup = vec![
        Category { id: 1, name: CategoryName::Needs, limit_percentage: m(50), overflow_to_id: None },
        Category {
            id: 1,
            name: CategoryName::Savings,
            limit_percentage: m(50),
            overflow_to_id: None,
        },
    ];
    let dup_bals = seed_balances(&dup, 0);
    assert_eq!(Ledger::new(dup, dup_bals).unwrap_err(), LedgerError::ValidationError);
    let two_sinks = vec![
        Category { id: 1, name: CategoryName::Needs, limit_percentage: m(50), overflow_to_id: None },
        Category {
            id: 2,
            name: CategoryName::Savings,
            limit_percentage: m(50),
            overflow_to_id: None,
        },
    ];
    let ts_bals = seed_balances(&two_sinks, 0);
    assert_eq!(Ledger::new(two_sinks, ts_bals).unwrap_err(), LedgerError::ValidationError);
}

#[test]
fn new_rejects_a_percentage_out_of_range() {
    let cats = vec![
        Category {
            id: 1,
            name: CategoryName::Needs,
            limit_percentage: m(150),
            overflow_to_id: Some(2),
        },
        Category {
            id: 2,
            name: CategoryName::Savings,
            limit_percentage: m(50),
            overflow_to_id: None,
        },
    ];
    let bals = seed_balances(&cats, 0);
    assert_eq!(Ledger::new(cats, bals).unwrap_err(), LedgerError::ValidationError);
}

#[test]
fn new_rejects_balances_that_do_not_match() {
    let cats = seed_categories();
    let mut bals = seed_balances(&cats, 0);
    bals[0].category_id = 42;
    assert_eq!(Ledger::new(cats, bals).unwrap_err(), LedgerError::ValidationError);
    let cats2 = seed_categories();
    let mut bals2 = seed_balances(&cats2, 0);
    bals2[1].spent = m(10);
    // spent beyond available breaks the range rule
    assert_eq!(Ledger::new(cats2, bals2).unwrap_err(), LedgerError::ValidationError);
}

#[test]
fn new_aligns_balance_rows_with_the_category_order() {
    let cats = seed_categories();
    let mut bals = seed_balances(&cats, 0);
    bals.reverse();
    let ledger = Ledger::new(cats, bals).expect("rows in any order are aligned");
    let loaded = ledger.load_balances();
    for (i, c) in ledger.load_categories().iter().enumerate() {
        assert_eq!(loaded[i].category_id, c.id);
        assert_eq!(loaded[i].category_name, c.name);
    }
}
