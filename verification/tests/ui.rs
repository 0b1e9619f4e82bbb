use ebisu::action::{Action, Key};
use ebisu::engine::seed_categories;
use ebisu::models::DateRange;
use ebisu::money::Money;
use ebisu::state::{ActiveInput, ActiveTab, Effect, InputMode, State};

fn m(v: i64) -> Money {
    Money { minor: v }
}

#[test]
fn fresh_state_defaults() {
    let s = State::new();
    assert_eq!(s.input_mode, InputMode::Normal);
    assert_eq!(s.active_input, ActiveInput::Unset);
    assert_eq!(s.active_tab, ActiveTab::Dashboard);
    assert_eq!(s.selected_category, 0);
    assert_eq!(s.amount_input, "");
    assert_eq!(s.description_input, "");
    assert_eq!(s.status_message, None);
    assert!(!s.show_help);
    assert_eq!(s.report_date_range, DateRange::Month);
}

#[test]
fn tabs_cycle_and_title() {
    assert_eq!(ActiveTab::Dashboard.next(), ActiveTab::AddFunds);
    assert_eq!(ActiveTab::Settings.next(), ActiveTab::Dashboard);
    assert_eq!(ActiveTab::Dashboard.prev(), ActiveTab::Settings);
    assert_eq!(ActiveTab::Reports.prev(), ActiveTab::AddExpense);
    assert_eq!(ActiveTab::AddExpense.title(), "Add Expense");
    let all = ActiveTab::all();
    assert_eq!(all.len(), 5);
    assert_eq!(all[0], ActiveTab::Dashboard);
    assert_eq!(all[4], ActiveTab::Settings);
}

#[test]
fn date_ranges_cycle_and_title() {
    assert_eq!(DateRange::default(), DateRange::Month);
    assert_eq!(DateRange::Today.next(), DateRange::Last7Days);
    assert_eq!(DateRange::FiveYears.next(), DateRange::Today);
    assert_eq!(DateRange::Month.title(), "Last 30 Days");
    assert_eq!(DateRange::Last7Days.title(), "Last 7 Days");
    assert_eq!(DateRange::Year.days_back(), 365);
}

#[test]
fn quit_and_help_keys_work_in_normal_mode() {
    let mut s = State::new();
    assert_eq!(s.handle_key(Key::Char('q'), false), Some(Action::Quit));
    assert_eq!(s.handle_key(Key::Char('?'), false), Some(Action::ToggleHelp));
    s.input_mode = InputMode::Insert;
    assert_eq!(s.handle_key(Key::Char('q'), false), Some(Action::InputChar('q')));
}

#[test]
fn normal_mode_key_map() {
    let mut s = State::new();
    assert_eq!(s.handle_normal_mode(Key::Tab, false), Some(Action::NextTab));
    assert_eq!(s.handle_normal_mode(Key::Tab, true), Some(Action::PrevTab));
    assert_eq!(s.handle_normal_mode(Key::Char('i'), false), Some(Action::EnterInsert));
    assert_eq!(s.handle_normal_mode(Key::Char('k'), false), Some(Action::Up));
    assert_eq!(s.handle_normal_mode(Key::Char('j'), false), Some(Action::Down));
    assert_eq!(s.handle_normal_mode(Key::Enter, false), None);
    s.active_tab = ActiveTab::AddFunds;
    assert_eq!(s.handle_normal_mode(Key::Enter, false), Some(Action::SubmitFunds));
    s.active_tab = ActiveTab::AddExpense;
    assert_eq!(s.handle_normal_mode(Key::Enter, false), Some(Action::SubmitTransaction));
    s.active_tab = ActiveTab::Settings;
    assert_eq!(s.handle_normal_mode(Key::Enter, false), Some(Action::StartEditingCategory));
    s.active_tab = ActiveTab::Reports;
    assert_eq!(
        s.handle_normal_mode(Key::Left, false),
        Some(Action::ChangeDateRange(DateRange::Year))
    );
}

#[test]
fn insert_mode_key_map_and_tab_cycle() {
    let mut s = State::new();
    s.input_mode = InputMode::Insert;
    assert_eq!(s.handle_insert_mode(Key::Esc), Some(Action::EnterNormal));
    assert_eq!(s.handle_insert_mode(Key::Char('7')), Some(Action::InputChar('7')));
    assert_eq!(s.handle_insert_mode(Key::Backspace), Some(Action::InputBackspace));
    assert_eq!(s.handle_insert_mode(Key::Tab), None);
    assert_eq!(s.active_input, ActiveInput::Amount);
    assert_eq!(s.handle_insert_mode(Key::Tab), None);
    assert_eq!(s.active_input, ActiveInput::Description);
    s.active_tab = ActiveTab::Settings;
    assert_eq!(s.handle_insert_mode(Key::Enter), Some(Action::ConfirmCategoryEdit));
}

#[test]
fn next_tab_clears_inputs_and_refreshes_reports() {
    let mut s = State::new();
    s.amount_input = "12".to_string();
    assert_eq!(s.update(Action::NextTab), Effect::Nothing);
    assert_eq!(s.active_tab, ActiveTab::AddFunds);
    assert_eq!(s.amount_input, "");
    s.active_tab = ActiveTab::AddExpense;
    assert_eq!(s.update(Action::NextTab), Effect::RefreshReports);
    assert_eq!(s.active_tab, ActiveTab::Reports);
    assert_eq!(s.update(Action::PrevTab), Effect::Nothing);
    assert_eq!(s.active_tab, ActiveTab::AddExpense);
}

#[test]
fn insert_mode_enters_and_leaves() {
    let mut s = State::new();
    assert_eq!(s.update(Action::EnterInsert), Effect::Nothing);
    assert_eq!(s.input_mode, InputMode::Insert);
    assert_eq!(s.active_input, ActiveInput::Amount);
    assert_eq!(s.update(Action::EnterNormal), Effect::Nothing);
    assert_eq!(s.input_mode, InputMode::Normal);
}

#[test]
fn amount_buffer_accepts_only_digits_and_dot() {
    let mut s = State::new();
    s.active_input = ActiveInput::Amount;
    s.update(Action::InputChar('1'));
    s.update(Action::InputChar('x'));
    s.update(Action::InputChar('.'));
    s.update(Action::InputChar('5'));
    assert_eq!(s.amount_input, "1.5");
    s.update(Action::InputBackspace);
    assert_eq!(s.amount_input, "1.");
    s.active_input = ActiveInput::Description;
    s.update(Action::InputChar('x'));
    assert_eq!(s.description_input, "x");
    s.update(Action::InputDelete);
    assert_eq!(s.description_input, "");
}

#[test]
fn submit_funds_validates_the_buffer() {
    let mut s = State::new();
    s.amount_input = "abc".to_string();
    assert_eq!(s.update(Action::SubmitFunds), Effect::Nothing);
    assert_eq!(s.status_message, Some("Invalid amount format".to_string()));
    s.amount_input = "0".to_string();
    assert_eq!(s.update(Action::SubmitFunds), Effect::Nothing);
    assert_eq!(s.status_message, Some("Amount must be positive".to_string()));
    s.amount_input = "2500".to_string();
    assert_eq!(s.update(Action::SubmitFunds), Effect::SubmitFunds { amount: m(2500) });
}

#[test]
fn submit_transaction_picks_the_selected_non_savings_category() {
    let mut s = State::new();
    s.categories = seed_categories();
    s.amount_input = "100".to_string();
    s.selected_category = 1;
    // non-Savings rows in seed order: Unexpected(2), Needs(3), Wants(4), Culture(5)
    assert_eq!(
        s.update(Action::SubmitTransaction),
        Effect::SubmitSpend { category_id: 3, amount: m(100), description: None }
    );
    s.description_input = "books".to_string();
    assert_eq!(
        s.update(Action::SubmitTransaction),
        Effect::SubmitSpend {
            category_id: 3,
            amount: m(100),
            description: Some("books".to_string())
        }
    );
    s.selected_category = 9;
    assert_eq!(s.update(Action::SubmitTransaction), Effect::Nothing);
}

#[test]
fn confirm_category_edit_hands_back_the_percentage() {
    let mut s = State::new();
    s.categories = seed_categories();
    s.selected_category = 2;
    s.amount_input = "35".to_string();
    assert_eq!(
        s.update(Action::ConfirmCategoryEdit),
        Effect::SavePercentage { category_id: 3, percentage: m(35) }
    );
    s.amount_input = "x".to_string();
    assert_eq!(s.update(Action::ConfirmCategoryEdit), Effect::Nothing);
    assert_eq!(s.status_message, Some("Invalid number format".to_string()));
}

#[test]
fn start_editing_category_fills_the_buffer() {
    let mut s = State::new();
    s.categories = seed_categories();
    s.active_tab = ActiveTab::Settings;
    s.selected_category = 2;
    assert_eq!(s.update(Action::StartEditingCategory), Effect::Nothing);
    assert_eq!(s.input_mode, InputMode::Insert);
    assert_eq!(s.active_input, ActiveInput::Amount);
    assert_eq!(s.amount_input, "30");
}

#[test]
fn selection_moves_within_bounds() {
    let mut s = State::new();
    s.categories = seed_categories();
    s.active_tab = ActiveTab::Settings;
    assert_eq!(s.update(Action::Up), Effect::Nothing);
    assert_eq!(s.selected_category, 0);
    s.update(Action::Down);
    s.update(Action::Down);
    assert_eq!(s.selected_category, 2);
    s.selected_category = 4;
    s.update(Action::Down);
    // five selectable rows on the settings tab: the index stays at the end
    assert_eq!(s.selected_category, 4);
    s.update(Action::Up);
    assert_eq!(s.selected_category, 3);
    // on the expense form only four rows are selectable
    s.active_tab = ActiveTab::AddExpense;
    s.active_input = ActiveInput::Category;
    s.update(Action::Down);
    assert_eq!(s.selected_category, 3);
    s.selected_category = 0;
    s.update(Action::Down);
    assert_eq!(s.selected_category, 1);
}

#[test]
fn change_date_range_refreshes_reports() {
    let mut s = State::new();
    assert_eq!(s.update(Action::ChangeDateRange(DateRange::Year)), Effect::RefreshReports);
    assert_eq!(s.report_date_range, DateRange::Year);
}

#[test]
fn status_line_can_be_set_and_cleared() {
    let mut s = State::new();
    s.set_status("ready".to_string());
    assert_eq!(s.status_message, Some("ready".to_string()));
    s.clear_status();
    assert_eq!(s.status_message, None);
    assert_eq!(s.update(Action::ToggleHelp), Effect::Nothing);
    assert!(s.show_help);
    assert_eq!(s.update(Action::Tick), Effect::Nothing);
    assert_eq!(s.update(Action::RefreshBalances), Effect::RefreshBalances);
    assert_eq!(s.update(Action::RefreshCategories), Effect::RefreshCategories);
}
