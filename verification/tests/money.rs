use ebisu::money::{Money, MONEY_MAX};
use ebisu::format::format_idr;
use ebisu::models::{CategoryName, LedgerError};

#[test]
fn parse_plain_digits() {
    assert_eq!(Money::parse("1000"), Some(Money { minor: 1000 }));
    assert_eq!(Money::parse("0"), Some(Money { minor: 0 }));
    assert_eq!(Money::parse("007"), Some(Money { minor: 7 }));
}

#[test]
fn parse_rounds_half_up_at_scale_zero() {
    assert_eq!(Money::parse("12.5"), Some(Money { minor: 13 }));
    assert_eq!(Money::parse("12.4"), Some(Money { minor: 12 }));
    assert_eq!(Money::parse("12.49"), Some(Money { minor: 12 }));
    assert_eq!(Money::parse(".5"), Some(Money { minor: 1 }));
    assert_eq!(Money::parse("100."), Some(Money { minor: 100 }));
}

#[test]
fn parse_rejects_malformed_text() {
    assert_eq!(Money::parse(""), None);
    assert_eq!(Money::parse("."), None);
    assert_eq!(Money::parse("1.2.3"), None);
    assert_eq!(Money::parse("12a"), None);
    assert_eq!(Money::parse("-5"), None);
    assert_eq!(Money::parse(" 12"), None);
}

#[test]
fn parse_enforces_the_representable_range() {
    assert_eq!(Money::parse("1000000000000000"), Some(Money { minor: MONEY_MAX }));
    assert_eq!(Money::parse("1000000000000001"), None);
    assert_eq!(Money::parse("999999999999999999999"), None);
}

#[test]
fn to_text_is_plain_decimal() {
    assert_eq!(Money { minor: 0 }.to_text(), "0");
    assert_eq!(Money { minor: 120 }.to_text(), "120");
    assert_eq!(Money { minor: -5 }.to_text(), "-5");
    assert_eq!(Money { minor: 1000000 }.to_text(), "1000000");
}

#[test]
fn format_idr_groups_by_thousands()
{
    assert_eq!(format_idr(Money { minor: 0 }), "0");
    assert_eq!(format_idr(Money { minor: 123 }), "123");
    assert_eq!(format_idr(Money { minor: 1234 }), "1.234");
    assert_eq!(format_idr(Money { minor: 1000 }), "1.000");
    assert_eq!(format_idr(Money { minor: 1000000 }), "1.000.000");
    assert_eq!(format_idr(Money { minor: -12345 }), "-12.345");
    assert_eq!(format_idr(Money { minor: 500000 }), "500.000");
}

#[test]
fn category_names_round_trip_through_text() {
    let names = vec![
        CategoryName::Needs,
        CategoryName::Wants,
        CategoryName::Culture,
        CategoryName::Unexpected,
        CategoryName::Savings,
    ];
    for n in names {
        assert_eq!(CategoryName::from_text(n.as_text()), Some(n));
    }
    assert_eq!(CategoryName::as_text(&CategoryName::Needs), "Needs");
    assert_eq!(CategoryName::from_text("Groceries"), None);
    assert_eq!(CategoryName::from_text("needs"), None);
}

#[test]
fn error_messages_name_the_failure() {
    assert_eq!(
        LedgerError::InsufficientFunds.message(),
        "Insufficient funds in category and overflow chain"
    );
    assert_eq!(LedgerError::CategoryNotFound.message(), "Category not found");
}
