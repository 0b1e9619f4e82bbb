//! The interface state machine: the shared view state, the key-to-action
//! mapping, and the action-to-state transition. Everything that talks to a
//! terminal or a store is kept outside; transitions that need such work
//! hand back an [`Effect`] describing it.

use vstd::prelude::*;
use crate::action::{Action, Key};
use crate::models::{Category, CategoryBalance, CategoryName, DateRange, SummaryStats, Transaction};
use crate::money::Money;

verus! {

/// Input mode for the application.
#[derive(Clone, Copy, Debug, PartialEq, Eq, Structural, Default)]
pub enum InputMode {
    #[default]
    Normal,
    Insert,
}

/// Active input field identifier.
#[derive(Clone, Copy, Debug, PartialEq, Eq, Structural, Default)]
pub enum ActiveInput {
    #[default]
    Unset,
    Amount,
    Description,
    Category,
}

/// Active tab/page.
#[derive(Clone, Copy, Debug, PartialEq, Eq, Structural, Default)]
pub enum ActiveTab {
    #[default]
    Dashboard,
    AddFunds,
    AddExpense,
    Reports,
    Settings,
}

impl ActiveTab {
    /// The tab after this one, cycling back to the first.
    pub open spec fn next_spec(self) -> ActiveTab {
        match self {
            ActiveTab::Dashboard => ActiveTab::AddFunds,
            ActiveTab::AddFunds => ActiveTab::AddExpense,
            ActiveTab::AddExpense => ActiveTab::Reports,
            ActiveTab::Reports => ActiveTab::Settings,
            ActiveTab::Settings => ActiveTab::Dashboard,
        }
    }

    /// The tab before this one, cycling back to the last.
    pub open spec fn prev_spec(self) -> ActiveTab {
        match self {
            ActiveTab::Dashboard => ActiveTab::Settings,
            ActiveTab::AddFunds => ActiveTab::Dashboard,
            ActiveTab::AddExpense => ActiveTab::AddFunds,
            ActiveTab::Reports => ActiveTab::AddExpense,
            ActiveTab::Settings => ActiveTab::Reports,
        }
    }

    /// The tab after this one, cycling back to the first.
    pub fn next(&self) -> (r: Self)
        ensures
            r == self.next_spec(),
    {
        match self {
            Self::Dashboard => Self::AddFunds,
            Self::AddFunds => Self::AddExpense,
            Self::AddExpense => Self::Reports,
            Self::Reports => Self::Settings,
            Self::Settings => Self::Dashboard,
        }
    }

    /// The tab before this one, cycling back to the last.
    pub fn prev(&self) -> (r: Self)
        ensures
            r == self.prev_spec(),
    {
        match self {
            Self::Dashboard => Self::Settings,
            Self::AddFunds => Self::Dashboard,
            Self::AddExpense => Self::AddFunds,
            Self::Reports => Self::AddExpense,
            Self::Settings => Self::Reports,
        }
    }

    /// The display title of each tab.
    pub open spec fn title_spec(self) -> Seq<char> {
        match self {
            ActiveTab::Dashboard => "Dashboard"@,
            ActiveTab::AddFunds => "Add Funds"@,
            ActiveTab::AddExpense => "Add Expense"@,
            ActiveTab::Reports => "Reports"@,
            ActiveTab::Settings => "Settings"@,
        }
    }

    /// The title shown for this tab.
    pub fn title(&self) -> (r: &str)
        ensures
            r@ == self.title_spec(),
    {
        match self {
            Self::Dashboard => "Dashboard",
            Self::AddFunds => "Add Funds",
            Self::AddExpense => "Add Expense",
            Self::Reports => "Reports",
            Self::Settings => "Settings",
        }
    }

    /// All tabs, in display order.
    pub fn all() -> (r: Vec<Self>)
        ensures
            r@ == seq![
                ActiveTab::Dashboard,
                ActiveTab::AddFunds,
                ActiveTab::AddExpense,
                ActiveTab::Reports,
                ActiveTab::Settings,
            ],
    {
        let mut v: Vec<Self> = Vec::new();
        v.push(Self::Dashboard);
        v.push(Self::AddFunds);
        v.push(Self::AddExpense);
        v.push(Self::Reports);
        v.push(Self::Settings);
        proof {
            assert(v@ =~= seq![
                ActiveTab::Dashboard,
                ActiveTab::AddFunds,
                ActiveTab::AddExpense,
                ActiveTab::Reports,
                ActiveTab::Settings,
            ]);
        }
        v
    }
}

/// What the surrounding loop must perform after a state transition: the
/// storage and clock work that the state machine itself never does.
#[derive(Clone, Debug, PartialEq, Eq)]
pub enum Effect {
    /// Nothing left to do.
    Nothing,
    /// Leave the application.
    Quit,
    /// Reload the report data for the current period.
    RefreshReports,
    /// Reload the balance rows.
    RefreshBalances,
    /// Reload the category configuration.
    RefreshCategories,
    /// Run a deposit of this amount through the ledger and persist it.
    SubmitFunds { amount: Money },
    /// Run a spend through the ledger and persist it.
    SubmitSpend { category_id: i64, amount: Money, description: Option<String> },
    /// Persist a new allocation percentage for a category.
    SavePercentage { category_id: i64, percentage: Money },
}

/// Shared application state.
#[derive(Debug)]
pub struct State {
    /// Cached category configurations
    pub categories: Vec<Category>,
    /// Cached current balances
    pub balances: Vec<CategoryBalance>,
    /// Current input mode
    pub input_mode: InputMode,
    /// Which input field is active
    pub active_input: ActiveInput,
    /// Current active tab
    pub active_tab: ActiveTab,
    /// Selected category index (for forms)
    pub selected_category: usize,
    /// Input buffer for amount
    pub amount_input: String,
    /// Input buffer for description
    pub description_input: String,
    /// Status message to display
    pub status_message: Option<String>,
    /// Whether to show help overlay
    pub show_help: bool,
    /// Reporting period
    pub report_date_range: DateRange,
    /// Cached transactions for the reporting view
    pub transactions: Vec<Transaction>,
    /// Cached aggregate figures for the reporting view
    pub summary_stats: Option<SummaryStats>,
}

impl State {
    /// A fresh state: dashboard tab, normal mode, empty buffers, monthly
    /// reporting period.
    pub fn new() -> (r: Self)
        ensures
            r.categories@ == Seq::<Category>::empty(),
            r.balances@ == Seq::<CategoryBalance>::empty(),
            r.input_mode == InputMode::Normal,
            r.active_input == ActiveInput::Unset,
            r.active_tab == ActiveTab::Dashboard,
            r.selected_category == 0,
            r.amount_input@ == Seq::<char>::empty(),
            r.description_input@ == Seq::<char>::empty(),
            r.status_message is None,
            !r.show_help,
            r.report_date_range == DateRange::Month,
            r.transactions@ == Seq::<Transaction>::empty(),
            r.summary_stats is None,
    {
        State {
            categories: Vec::new(),
            balances: Vec::new(),
            input_mode: InputMode::Normal,
            active_input: ActiveInput::Unset,
            active_tab: ActiveTab::Dashboard,
            selected_category: 0,
            amount_input: String::new(),
            description_input: String::new(),
            status_message: None,
            show_help: false,
            report_date_range: DateRange::Month,
            transactions: Vec::new(),
            summary_stats: None,
        }
    }

    /// Sets the status line.
    pub fn set_status(&mut self, msg: String)
        ensures
            *final(self) == (State { status_message: Some(msg), ..*old(self) }),
    {
        self.status_message = Some(msg);
    }

    /// Clears the status line.
    pub fn clear_status(&mut self)
        ensures
            *final(self) == (State { status_message: None, ..*old(self) }),
    {
        self.status_message = None;
    }

    /// Empties the input buffers and leaves insert mode.
    pub fn clear_inputs(&mut self)
        ensures
            final(self).amount_input@ == Seq::<char>::empty(),
            final(self).description_input@ == Seq::<char>::empty(),
            final(self).selected_category == 0,
            final(self).active_input == ActiveInput::Unset,
            final(self).input_mode == InputMode::Normal,
            final(self).categories == old(self).categories,
            final(self).balances == old(self).balances,
            final(self).active_tab == old(self).active_tab,
            final(self).status_message == old(self).status_message,
            final(self).show_help == old(self).show_help,
            final(self).report_date_range == old(self).report_date_range,
            final(self).transactions == old(self).transactions,
            final(self).summary_stats == old(self).summary_stats,
    {
        self.amount_input = String::new();
        self.description_input = String::new();
        self.selected_category = 0;
        self.active_input = ActiveInput::Unset;
        self.input_mode = InputMode::Normal;
    }

    /// The action a key press requests in normal mode.
    pub open spec fn normal_action_spec(self, key: Key, shift: bool) -> Option<Action> {
        match key {
            Key::Tab => if shift {
                Some(Action::PrevTab)
            } else {
                Some(Action::NextTab)
            },
            Key::Char(c) => {
                if c == 'i' {
                    Some(Action::EnterInsert)
                } else if c == 'k' {
                    Some(Action::Up)
                } else if c == 'j' {
                    Some(Action::Down)
                } else if (c == 'h' || c == 'l') && self.active_tab == ActiveTab::Reports {
                    Some(Action::ChangeDateRange(self.report_date_range_next()))
                } else {
                    None
                }
            },
            Key::Up => Some(Action::Up),
            Key::Down => Some(Action::Down),
            Key::Enter => match self.active_tab {
                ActiveTab::AddFunds => Some(Action::SubmitFunds),
                ActiveTab::AddExpense => Some(Action::SubmitTransaction),
                ActiveTab::Settings => Some(Action::StartEditingCategory),
                _ => None,
            },
            Key::Left => if self.active_tab == ActiveTab::Reports {
                Some(Action::ChangeDateRange(self.report_date_range_next()))
            } else {
                None
            },
            Key::Right => if self.active_tab == ActiveTab::Reports {
                Some(Action::ChangeDateRange(self.report_date_range_next()))
            } else {
                None
            },
            _ => None,
        }
    }

    /// The period after the current reporting period.
    pub open spec fn report_date_range_next(self) -> DateRange {
        match self.report_date_range {
            DateRange::Today => DateRange::Last7Days,
            DateRange::Last7Days => DateRange::Month,
            DateRange::Month => DateRange::Year,
            DateRange::Year => DateRange::FiveYears,
            DateRange::FiveYears => DateRange::Today,
        }
    }

    /// Maps a key press to an action in normal mode.
    pub fn handle_normal_mode(&self, key: Key, shift: bool) -> (r: Option<Action>)
        ensures
            r == self.normal_action_spec(key, shift),
    {
        match key {
            Key::Tab => if shift {
                Some(Action::PrevTab)
            } else {
                Some(Action::NextTab)
            },
            Key::Char(c) => {
                if c == 'i' {
                    Some(Action::EnterInsert)
                } else if c == 'k' {
                    Some(Action::Up)
                } else if c == 'j' {
                    Some(Action::Down)
                } else if (c == 'h' || c == 'l') && self.active_tab == ActiveTab::Reports {
                    Some(Action::ChangeDateRange(self.report_date_range.next()))
                } else {
                    None
                }
            },
            Key::Up => Some(Action::Up),
            Key::Down => Some(Action::Down),
            Key::Enter => match self.active_tab {
                ActiveTab::AddFunds => Some(Action::SubmitFunds),
                ActiveTab::AddExpense => Some(Action::SubmitTransaction),
                ActiveTab::Settings => Some(Action::StartEditingCategory),
                _ => None,
            },
            Key::Left => if self.active_tab == ActiveTab::Reports {
                Some(Action::ChangeDateRange(self.report_date_range.next()))
            } else {
                None
            },
            Key::Right => if self.active_tab == ActiveTab::Reports {
                Some(Action::ChangeDateRange(self.report_date_range.next()))
            } else {
                None
            },
            _ => None,
        }
    }

    /// The action a key press requests in insert mode.
    pub open spec fn insert_action_spec(self, key: Key) -> Option<Action> {
        match key {
            Key::Esc => Some(Action::EnterNormal),
            Key::Enter => match self.active_tab {
                ActiveTab::AddFunds => Some(Action::SubmitFunds),
                ActiveTab::AddExpense => Some(Action::SubmitTransaction),
                ActiveTab::Settings => Some(Action::ConfirmCategoryEdit),
                _ => Some(Action::EnterNormal),
            },
            Key::Tab => None,
            Key::Char(c) => Some(Action::InputChar(c)),
            Key::Backspace => Some(Action::InputBackspace),
            Key::Delete => Some(Action::InputDelete),
            Key::Up => Some(Action::Up),
            Key::Down => Some(Action::Down),
            _ => None,
        }
    }

    /// The active input field after a Tab press in insert mode cycles the
    /// form fields.
    pub open spec fn tab_cycle_spec(self) -> ActiveInput {
        match self.active_input {
            ActiveInput::Amount => ActiveInput::Description,
            ActiveInput::Description => ActiveInput::Category,
            ActiveInput::Category => ActiveInput::Amount,
            ActiveInput::Unset => ActiveInput::Amount,
        }
    }

    /// Maps a key press to an action in insert mode; a Tab press cycles
    /// the active form field in place instead of yielding an action.
    pub fn handle_insert_mode(&mut self, key: Key) -> (r: Option<Action>)
        ensures
            r == old(self).insert_action_spec(key),
            (if key is Tab {
                *final(self) == (State { active_input: old(self).tab_cycle_spec(), ..*old(self) })
            } else {
                *final(self) == *old(self)
            }),
    {
        match key {
            Key::Esc => Some(Action::EnterNormal),
            Key::Enter => match self.active_tab {
                ActiveTab::AddFunds => Some(Action::SubmitFunds),
                ActiveTab::AddExpense => Some(Action::SubmitTransaction),
                ActiveTab::Settings => Some(Action::ConfirmCategoryEdit),
                _ => Some(Action::EnterNormal),
            },
            Key::Tab => {
                self.active_input = match self.active_input {
                    ActiveInput::Amount => ActiveInput::Description,
                    ActiveInput::Description => ActiveInput::Category,
                    ActiveInput::Category => ActiveInput::Amount,
                    ActiveInput::Unset => ActiveInput::Amount,
                };
                None
            },
            Key::Char(c) => Some(Action::InputChar(c)),
            Key::Backspace => Some(Action::InputBackspace),
            Key::Delete => Some(Action::InputDelete),
            Key::Up => Some(Action::Up),
            Key::Down => Some(Action::Down),
            _ => None,
        }
    }

    /// The action a key press requests, before mode dispatch: quitting and
    /// the help overlay are reachable from normal mode whatever the tab.
    pub open spec fn key_action_spec(self, key: Key, shift: bool) -> Option<Action> {
        if self.input_mode == InputMode::Normal && key == Key::Char('q') {
            Some(Action::Quit)
        } else if self.input_mode == InputMode::Normal && key == Key::Char('?') {
            Some(Action::ToggleHelp)
        } else if self.input_mode == InputMode::Normal {
            self.normal_action_spec(key, shift)
        } else {
            self.insert_action_spec(key)
        }
    }

    /// Maps a key press to an action, dispatching on the input mode.
    pub fn handle_key(&mut self, key: Key, shift: bool) -> (r: Option<Action>)
        ensures
            r == old(self).key_action_spec(key, shift),
            (if old(self).input_mode == InputMode::Insert && key is Tab {
                *final(self) == (State { active_input: old(self).tab_cycle_spec(), ..*old(self) })
            } else {
                *final(self) == *old(self)
            }),
    {
        if self.input_mode == InputMode::Normal {
            if let Key::Char(c) = key {
                if c == 'q' {
                    return Some(Action::Quit);
                }
                if c == '?' {
                    return Some(Action::ToggleHelp);
                }
            }
            self.handle_normal_mode(key, shift)
        } else {
            self.handle_insert_mode(key)
        }
    }
}

/// Relies on `String::pop` of std: removes and returns the last character,
/// or `None` when the string is empty.
pub assume_specification[ String::pop ](s: &mut String) -> (r: Option<char>)
    ensures
        old(s)@.len() == 0 ==> final(s)@ == old(s)@ && r is None,
        old(s)@.len() > 0 ==> final(s)@ == old(s)@.drop_last() && r == Some(old(s)@.last()),
;

/// A character the amount buffer accepts: an ASCII digit or a dot.
pub open spec fn amount_char(c: char) -> bool {
    (48 <= c as int <= 57) || c == '.'
}

/// What parsing an amount buffer yields; see `parse_val`.
pub open spec fn parsed_amount(s: Seq<char>) -> Option<int> {
    crate::money::parse_val(vstd::utf8::encode_utf8(s))
}

/// Whether a category row can be picked on the current tab: the settings
/// list shows every category, the expense form hides the sink-like
/// Savings.
pub open spec fn row_selectable(c: Category, settings: bool) -> bool {
    settings || c.name != CategoryName::Savings
}

/// How many of the first `n` categories can be picked.
pub open spec fn selectable_upto(cats: Seq<Category>, settings: bool, n: int) -> int
    decreases n,
{
    if n <= 0 {
        0
    } else {
        selectable_upto(cats, settings, n - 1) + if row_selectable(cats[n - 1], settings) {
            1int
        } else {
            0int
        }
    }
}

/// How many categories can be picked.
pub open spec fn selectable_count(cats: Seq<Category>, settings: bool) -> int {
    selectable_upto(cats, settings, cats.len() as int)
}

/// The `k`-th category whose name is not Savings, in stored order.
pub open spec fn nth_nonsavings(cats: Seq<Category>, k: int) -> Option<Category>
    decreases cats.len(),
{
    if cats.len() == 0 {
        None
    } else if cats[0].name != CategoryName::Savings {
        if k == 0 {
            Some(cats[0])
        } else {
            nth_nonsavings(cats.drop_first(), k - 1)
        }
    } else {
        nth_nonsavings(cats.drop_first(), k)
    }
}

/// The cached data that only the surrounding loop refreshes: `update`
/// never touches it.
pub open spec fn caches_unchanged(pre: State, post: State) -> bool {
    &&& post.categories == pre.categories
    &&& post.balances == pre.balances
    &&& post.transactions == pre.transactions
    &&& post.summary_stats == pre.summary_stats
}

/// The interface fields, all unchanged.
pub open spec fn ui_unchanged(pre: State, post: State) -> bool {
    &&& post.input_mode == pre.input_mode
    &&& post.active_input == pre.active_input
    &&& post.active_tab == pre.active_tab
    &&& post.selected_category == pre.selected_category
    &&& post.amount_input@ == pre.amount_input@
    &&& post.description_input@ == pre.description_input@
    &&& post.status_message == pre.status_message
    &&& post.show_help == pre.show_help
    &&& post.report_date_range == pre.report_date_range
}

/// The interface fields, all unchanged but the amount buffer.
pub open spec fn ui_unchanged_but_amount(pre: State, post: State) -> bool {
    &&& post.input_mode == pre.input_mode
    &&& post.active_input == pre.active_input
    &&& post.active_tab == pre.active_tab
    &&& post.selected_category == pre.selected_category
    &&& post.description_input@ == pre.description_input@
    &&& post.status_message == pre.status_message
    &&& post.show_help == pre.show_help
    &&& post.report_date_range == pre.report_date_range
}

/// The interface fields, all unchanged but the description buffer.
pub open spec fn ui_unchanged_but_description(pre: State, post: State) -> bool {
    &&& post.input_mode == pre.input_mode
    &&& post.active_input == pre.active_input
    &&& post.active_tab == pre.active_tab
    &&& post.selected_category == pre.selected_category
    &&& post.amount_input@ == pre.amount_input@
    &&& post.status_message == pre.status_message
    &&& post.show_help == pre.show_help
    &&& post.report_date_range == pre.report_date_range
}

/// The interface fields, all unchanged but the status line.
pub open spec fn ui_unchanged_but_status(pre: State, post: State) -> bool {
    &&& post.input_mode == pre.input_mode
    &&& post.active_input == pre.active_input
    &&& post.active_tab == pre.active_tab
    &&& post.selected_category == pre.selected_category
    &&& post.amount_input@ == pre.amount_input@
    &&& post.description_input@ == pre.description_input@
    &&& post.show_help == pre.show_help
    &&& post.report_date_range == pre.report_date_range
}

/// The interface fields after the input buffers are cleared and insert
/// mode is left; the rest untouched.
pub open spec fn inputs_cleared(pre: State, post: State) -> bool {
    &&& post.amount_input@ == Seq::<char>::empty()
    &&& post.description_input@ == Seq::<char>::empty()
    &&& post.selected_category == 0
    &&& post.active_input == ActiveInput::Unset
    &&& post.input_mode == InputMode::Normal
    &&& post.status_message == pre.status_message
    &&& post.show_help == pre.show_help
    &&& post.report_date_range == pre.report_date_range
}

fn count_selectable(cats: &Vec<Category>, settings: bool) -> (r: usize)
    ensures
        r as int == selectable_count(cats@, settings),
        r <= cats@.len(),
{
    let n: usize = cats.len();
    let mut count: usize = 0;
    let mut i: usize = 0;
    while i < n
        invariant
            n == cats@.len(),
            i <= n,
            count <= i,
            count as int == selectable_upto(cats@, settings, i as int),
        decreases n - i,
    {
        if settings || cats[i].name != CategoryName::Savings {
            count = count + 1;
        }
        i = i + 1;
    }
    count
}

fn nth_nonsavings_exec(cats: &Vec<Category>, k: usize) -> (r: Option<Category>)
    ensures
        r == nth_nonsavings(cats@, k as int),
{
    let n: usize = cats.len();
    let mut i: usize = 0;
    let mut kk: usize = k;
    proof {
        assert(cats@.skip(0) =~= cats@);
    }
    while i < n
        invariant
            n == cats@.len(),
            i <= n,
            kk <= k,
            nth_nonsavings(cats@, k as int) == nth_nonsavings(cats@.skip(i as int), kk as int),
        decreases n - i,
    {
        proof {
            assert(cats@.skip(i as int)[0] == cats@[i as int]);
            assert(cats@.skip(i as int).drop_first() =~= cats@.skip(i + 1));
        }
        if cats[i].name != CategoryName::Savings {
            if kk == 0 {
                return Some(cats[i]);
            }
            kk = kk - 1;
        }
        i = i + 1;
    }
    proof {
        assert(cats@.skip(n as int) =~= Seq::<Category>::empty());
    }
    None
}

impl State {
    /// Applies an action to the state and yields what the surrounding
    /// loop must perform next. Submissions are validated here — a buffer
    /// that does not parse, or a non-positive amount, only sets the status
    /// line — and handed out as effects; the loop runs them through the
    /// ledger and the store, then refreshes the cached data.
    pub fn update(&mut self, action: Action) -> (r: Effect)
        ensures
            caches_unchanged(*old(self), *final(self)),
            (match action {
                Action::Quit => ui_unchanged(*old(self), *final(self)) && r == Effect::Quit,
                Action::NextTab => {
                    &&& final(self).active_tab == old(self).active_tab.next_spec()
                    &&& inputs_cleared(*old(self), *final(self))
                    &&& r == (if old(self).active_tab.next_spec() == ActiveTab::Reports {
                        Effect::RefreshReports
                    } else {
                        Effect::Nothing
                    })
                },
                Action::PrevTab => {
                    &&& final(self).active_tab == old(self).active_tab.prev_spec()
                    &&& inputs_cleared(*old(self), *final(self))
                    &&& r == (if old(self).active_tab.prev_spec() == ActiveTab::Reports {
                        Effect::RefreshReports
                    } else {
                        Effect::Nothing
                    })
                },
                Action::EnterInsert => {
                    &&& *final(self) == (State {
                        input_mode: InputMode::Insert,
                        active_input: (if old(self).active_input == ActiveInput::Unset {
                            ActiveInput::Amount
                        } else {
                            old(self).active_input
                        }),
                        ..*old(self)
                    })
                    &&& r == Effect::Nothing
                },
                Action::EnterNormal => *final(self) == (State {
                    input_mode: InputMode::Normal,
                    ..*old(self)
                }) && r == Effect::Nothing,
                Action::ToggleHelp => *final(self) == (State {
                    show_help: !old(self).show_help,
                    ..*old(self)
                }) && r == Effect::Nothing,
                Action::StartEditingCategory => {
                    &&& r == Effect::Nothing
                    &&& (if old(self).selected_category < old(self).categories@.len() && old(self).categories@[old(self).selected_category as int].limit_percentage@
                        > i64::MIN {
                        &&& final(self).input_mode == InputMode::Insert
                        &&& final(self).active_input == ActiveInput::Amount
                        &&& final(self).amount_input@ == crate::money::money_text(
                            old(self).categories@[old(self).selected_category as int].limit_percentage@,
                        )
                        &&& final(self).active_tab == old(self).active_tab
                        &&& final(self).selected_category == old(self).selected_category
                        &&& final(self).description_input@ == old(self).description_input@
                        &&& final(self).status_message == old(self).status_message
                        &&& final(self).show_help == old(self).show_help
                        &&& final(self).report_date_range == old(self).report_date_range
                    } else {
                        ui_unchanged(*old(self), *final(self))
                    })
                },
                Action::CancelInput => {
                    &&& inputs_cleared(*old(self), *final(self))
                    &&& final(self).active_tab == old(self).active_tab
                    &&& r == Effect::Nothing
                },
                Action::Up => {
                    &&& *final(self) == (State {
                        selected_category: (if (old(self).active_tab == ActiveTab::Settings || old(self).active_input == ActiveInput::Category) && old(self).selected_category
                            > 0 {
                            (old(self).selected_category - 1) as usize
                        } else {
                            old(self).selected_category
                        }),
                        ..*old(self)
                    })
                    &&& r == Effect::Nothing
                },
                Action::Down => {
                    ({
                        let cnt = selectable_count(
                            old(self).categories@,
                            old(self).active_tab == ActiveTab::Settings,
                        );
                        let maxi = if cnt > 0 {
                            cnt - 1
                        } else {
                            0int
                        };
                        &&& *final(self) == (State {
                            selected_category: (if (old(self).active_tab == ActiveTab::Settings
                                || old(self).active_input == ActiveInput::Category) && (old(self).selected_category as int) < maxi {
                                (old(self).selected_category + 1) as usize
                            } else {
                                old(self).selected_category
                            }),
                            ..*old(self)
                        })
                        &&& r == Effect::Nothing
                    })
                },
                Action::InputChar(c) => {
                    &&& r == Effect::Nothing
                    &&& (match old(self).active_input {
                        ActiveInput::Amount => (if amount_char(c) {
                            ui_unchanged_but_amount(*old(self), *final(self)) && final(self).amount_input@ == old(self).amount_input@.push(c)
                        } else {
                            ui_unchanged(*old(self), *final(self))
                        }),
                        ActiveInput::Description => ui_unchanged_but_description(
                            *old(self),
                            *final(self),
                        ) && final(self).description_input@ == old(self).description_input@.push(
                            c,
                        ),
                        _ => ui_unchanged(*old(self), *final(self)),
                    })
                },
                Action::InputBackspace => {
                    &&& r == Effect::Nothing
                    &&& buffer_popped(*old(self), *final(self))
                },
                Action::InputDelete => {
                    &&& r == Effect::Nothing
                    &&& buffer_popped(*old(self), *final(self))
                },
                Action::SubmitFunds => {
                    (match parsed_amount(old(self).amount_input@) {
                        None => ui_unchanged_but_status(*old(self), *final(self)) && (final(self).status_message matches Some(m) && m@ == "Invalid amount format"@) && r
                            == Effect::Nothing,
                        Some(v) => (if v > 0 {
                            ui_unchanged(*old(self), *final(self)) && r == (Effect::SubmitFunds {
                                amount: Money { minor: v as i64 },
                            })
                        } else {
                            ui_unchanged_but_status(*old(self), *final(self)) && (final(self).status_message matches Some(m) && m@ == "Amount must be positive"@)
                                && r == Effect::Nothing
                        }),
                    })
                },
                Action::SubmitTransaction => {
                    (match parsed_amount(old(self).amount_input@) {
                        None => ui_unchanged_but_status(*old(self), *final(self)) && (final(self).status_message matches Some(m) && m@ == "Invalid amount format"@) && r
                            == Effect::Nothing,
                        Some(v) => (if v > 0 {
                            ui_unchanged(*old(self), *final(self)) && (match nth_nonsavings(
                                old(self).categories@,
                                old(self).selected_category as int,
                            ) {
                                None => r == Effect::Nothing,
                                Some(c) => (r matches Effect::SubmitSpend {
                                    category_id,
                                    amount,
                                    description,
                                } && category_id == c.id && amount == (Money { minor: v as i64 })
                                    && (match description {
                                    None => old(self).description_input@.len() == 0,
                                    Some(d) => old(self).description_input@.len() > 0 && d@ == old(self).description_input@,
                                })),
                            })
                        } else {
                            ui_unchanged_but_status(*old(self), *final(self)) && (final(self).status_message matches Some(m) && m@ == "Amount must be positive"@)
                                && r == Effect::Nothing
                        }),
                    })
                },
                Action::ConfirmCategoryEdit => {
                    (match parsed_amount(old(self).amount_input@) {
                        None => ui_unchanged_but_status(*old(self), *final(self)) && (final(self).status_message matches Some(m) && m@ == "Invalid number format"@) && r
                            == Effect::Nothing,
                        Some(v) => ui_unchanged(*old(self), *final(self)) && (if old(self).selected_category < old(self).categories@.len() {
                            r == (Effect::SavePercentage {
                                category_id: old(self).categories@[old(self).selected_category as int].id,
                                percentage: Money { minor: v as i64 },
                            })
                        } else {
                            r == Effect::Nothing
                        }),
                    })
                },
                Action::RefreshBalances => ui_unchanged(*old(self), *final(self)) && r
                    == Effect::RefreshBalances,
                Action::RefreshCategories => ui_unchanged(*old(self), *final(self)) && r
                    == Effect::RefreshCategories,
                Action::ChangeDateRange(rg) => *final(self) == (State {
                    report_date_range: rg,
                    ..*old(self)
                }) && r == Effect::RefreshReports,
                _ => ui_unchanged(*old(self), *final(self)) && r == Effect::Nothing,
            }),
    {
        match action {
            Action::Quit => Effect::Quit,
            Action::NextTab => {
                self.active_tab = self.active_tab.next();
                self.clear_inputs();
                if self.active_tab == ActiveTab::Reports {
                    Effect::RefreshReports
                } else {
                    Effect::Nothing
                }
            },
            Action::PrevTab => {
                self.active_tab = self.active_tab.prev();
                self.clear_inputs();
                if self.active_tab == ActiveTab::Reports {
                    Effect::RefreshReports
                } else {
                    Effect::Nothing
                }
            },
            Action::EnterInsert => {
                self.input_mode = InputMode::Insert;
                if self.active_input == ActiveInput::Unset {
                    self.active_input = ActiveInput::Amount;
                }
                Effect::Nothing
            },
            Action::EnterNormal => {
                self.input_mode = InputMode::Normal;
                Effect::Nothing
            },
            Action::ToggleHelp => {
                self.show_help = !self.show_help;
                Effect::Nothing
            },
            Action::StartEditingCategory => {
                if self.selected_category < self.categories.len() {
                    let pct: Money = self.categories[self.selected_category].limit_percentage;
                    if pct.minor > i64::MIN {
                        self.input_mode = InputMode::Insert;
                        self.active_input = ActiveInput::Amount;
                        self.amount_input = pct.to_text();
                    }
                }
                Effect::Nothing
            },
            Action::CancelInput => {
                self.clear_inputs();
                Effect::Nothing
            },
            Action::Up => {
                if (self.active_tab == ActiveTab::Settings || self.active_input
                    == ActiveInput::Category) && self.selected_category > 0 {
                    self.selected_category = self.selected_category - 1;
                }
                Effect::Nothing
            },
            Action::Down => {
                let cnt: usize = count_selectable(
                    &self.categories,
                    self.active_tab == ActiveTab::Settings,
                );
                let maxi: usize = if cnt > 0 {
                    cnt - 1
                } else {
                    0
                };
                if (self.active_tab == ActiveTab::Settings || self.active_input
                    == ActiveInput::Category) && self.selected_category < maxi {
                    self.selected_category = self.selected_category + 1;
                }
                Effect::Nothing
            },
            Action::InputChar(c) => {
                match self.active_input {
                    ActiveInput::Amount => {
                        let u: u32 = c as u32;
                        if (48 <= u && u <= 57) || c == '.' {
                            self.amount_input.push(c);
                        }
                    },
                    ActiveInput::Description => {
                        self.description_input.push(c);
                    },
                    _ => {},
                }
                Effect::Nothing
            },
            Action::InputBackspace => {
                self.pop_active_buffer();
                Effect::Nothing
            },
            Action::InputDelete => {
                self.pop_active_buffer();
                Effect::Nothing
            },
            Action::SubmitFunds => {
                match Money::parse(self.amount_input.as_str()) {
                    None => {
                        self.set_status(String::from_str("Invalid amount format"));
                        Effect::Nothing
                    },
                    Some(m) => {
                        if m.minor > 0 {
                            Effect::SubmitFunds { amount: m }
                        } else {
                            self.set_status(String::from_str("Amount must be positive"));
                            Effect::Nothing
                        }
                    },
                }
            },
            Action::SubmitTransaction => {
                match Money::parse(self.amount_input.as_str()) {
                    None => {
                        self.set_status(String::from_str("Invalid amount format"));
                        Effect::Nothing
                    },
                    Some(m) => {
                        if m.minor > 0 {
                            match nth_nonsavings_exec(&self.categories, self.selected_category) {
                                None => Effect::Nothing,
                                Some(c) => {
                                    let desc: Option<String> = if self.description_input.as_str().is_empty() {
                                        None
                                    } else {
                                        Some(self.description_input.clone())
                                    };
                                    Effect::SubmitSpend {
                                        category_id: c.id,
                                        amount: m,
                                        description: desc,
                                    }
                                },
                            }
                        } else {
                            self.set_status(String::from_str("Amount must be positive"));
                            Effect::Nothing
                        }
                    },
                }
            },
            Action::ConfirmCategoryEdit => {
                match Money::parse(self.amount_input.as_str()) {
                    None => {
                        self.set_status(String::from_str("Invalid number format"));
                        Effect::Nothing
                    },
                    Some(m) => {
                        if self.selected_category < self.categories.len() {
                            let cid: i64 = self.categories[self.selected_category].id;
                            Effect::SavePercentage { category_id: cid, percentage: m }
                        } else {
                            Effect::Nothing
                        }
                    },
                }
            },
            Action::RefreshBalances => Effect::RefreshBalances,
            Action::RefreshCategories => Effect::RefreshCategories,
            Action::ChangeDateRange(rg) => {
                self.report_date_range = rg;
                Effect::RefreshReports
            },
            _ => Effect::Nothing,
        }
    }

    fn pop_active_buffer(&mut self)
        ensures
            caches_unchanged(*old(self), *final(self)),
            buffer_popped(*old(self), *final(self)),
    {
        match self.active_input {
            ActiveInput::Amount => {
                self.amount_input.pop();
            },
            ActiveInput::Description => {
                self.description_input.pop();
            },
            _ => {},
        }
    }
}

/// The interface after a backspace or delete press: the last character of
/// the active buffer is gone, nothing else moved.
pub open spec fn buffer_popped(pre: State, post: State) -> bool {
    match pre.active_input {
        ActiveInput::Amount => ui_unchanged_but_amount(pre, post) && post.amount_input@ == (if pre.amount_input@.len() > 0 {
            pre.amount_input@.drop_last()
        } else {
            pre.amount_input@
        }),
        ActiveInput::Description => ui_unchanged_but_description(pre, post)
            && post.description_input@ == (if pre.description_input@.len() > 0 {
            pre.description_input@.drop_last()
        } else {
            pre.description_input@
        }),
        _ => ui_unchanged(pre, post),
    }
}

} // verus!
