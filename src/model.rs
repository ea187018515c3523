use vstd::prelude::*;
use vstd::set_lib::lemma_subset_equality;

use crate::address::address_text;
use crate::app_data::AppData;
use crate::amount::ether_text;
use crate::trusted::{display_width, text_width};
use crate::wallet::{
    address_set, addresses, distinct_addresses, has_address, lemma_toggled, toggled, Wallet,
};

verus! {

/// The screen that the operator sees.
#[derive(Clone, Copy, Debug, PartialEq, Eq, Structural)]
pub enum CurrentScreen {
    /// Browsing and selecting wallets.
    Main,
    /// Asked to confirm the sweep of the selection.
    Transfering,
}

/// The answer highlighted in the confirmation popup.
#[derive(Clone, Copy, Debug, PartialEq, Eq, Structural)]
pub enum CurrentlyConfirming {
    Yes,
    No,
}

/// A key pressed by the operator, as far as the screens tell keys apart.
#[derive(Clone, Copy, Debug, PartialEq, Eq, Structural)]
pub enum Key {
    Char(char),
    Up,
    Down,
    Left,
    Right,
    Enter,
    Esc,
    Other,
}

/// The transition that a key asks for on a screen.
#[derive(Clone, Copy, Debug, PartialEq, Eq, Structural)]
pub enum Action {
    Quit,
    Next,
    Previous,
    ToggleWallet,
    ToggleAll,
    EnterConfirm,
    FlipChoice,
    Cancel,
    Confirm,
    Nothing,
}

/// The transition of each key on each screen; any other key does nothing.
pub open spec fn action_of(screen: CurrentScreen, key: Key) -> Action {
    match screen {
        CurrentScreen::Main => match key {
            Key::Char('q') => Action::Quit,
            Key::Down => Action::Next,
            Key::Up => Action::Previous,
            Key::Enter => Action::ToggleWallet,
            Key::Char('a') => Action::ToggleAll,
            Key::Char('t') => Action::EnterConfirm,
            _ => Action::Nothing,
        },
        CurrentScreen::Transfering => match key {
            Key::Esc => Action::Cancel,
            Key::Left => Action::FlipChoice,
            Key::Right => Action::FlipChoice,
            Key::Enter => Action::Confirm,
            Key::Char('y') => Action::Confirm,
            Key::Char('Y') => Action::Confirm,
            Key::Char('n') => Action::Cancel,
            Key::Char('N') => Action::Cancel,
            _ => Action::Nothing,
        },
    }
}

/// The row that follows the cursor, wrapping to the first one.
pub open spec fn next_row(cursor: Option<usize>, len: nat) -> usize {
    match cursor {
        Some(i) => if i >= len - 1 {
            0
        } else {
            (i + 1) as usize
        },
        None => 0,
    }
}

/// The row before the cursor, wrapping to the last one.
pub open spec fn previous_row(cursor: Option<usize>, len: nat) -> usize {
    match cursor {
        Some(i) => if i == 0 {
            (len - 1) as usize
        } else {
            (i - 1) as usize
        },
        None => 0,
    }
}

/// The other answer of the confirmation popup.
pub open spec fn flipped(c: Option<CurrentlyConfirming>) -> Option<CurrentlyConfirming> {
    if c == Some(CurrentlyConfirming::Yes) {
        Some(CurrentlyConfirming::No)
    } else {
        Some(CurrentlyConfirming::Yes)
    }
}

/// Select-all is all or nothing: a full selection is cleared, any other one
/// becomes the whole directory.
pub open spec fn toggle_all_set(selected: Set<Seq<u8>>, directory: Set<Seq<u8>>) -> Set<Seq<u8>> {
    if selected == directory {
        Set::empty()
    } else {
        directory
    }
}

/// Toggling the same wallet twice leaves the set of selected addresses as it
/// was.
pub proof fn lemma_toggle_twice(selected: Seq<Wallet>, w: Wallet)
    requires
        distinct_addresses(selected),
    ensures
        address_set(toggled(toggled(selected, w), w)) == address_set(selected),
{
    let once = toggled(selected, w);
    let a = w.address@;
    lemma_toggled(selected, w);
    lemma_toggled(once, w);
    crate::wallet::lemma_has_address_set(selected, a);
    crate::wallet::lemma_has_address_set(once, a);
    if has_address(selected, a) {
        assert(address_set(selected).remove(a).insert(a) =~= address_set(selected));
    } else {
        assert(address_set(selected).insert(a).remove(a) =~= address_set(selected));
    }
}

/// Select-all twice restores the selection exactly when it started empty or
/// full; from a partial selection the first call selects every wallet and
/// the second clears the selection.
pub proof fn lemma_toggle_all_twice(selected: Set<Seq<u8>>, directory: Set<Seq<u8>>)
    requires
        selected.subset_of(directory),
    ensures
        (toggle_all_set(toggle_all_set(selected, directory), directory) == selected) <==> (selected
            == Set::<Seq<u8>>::empty() || selected == directory),
        selected != Set::<Seq<u8>>::empty() && selected != directory ==> toggle_all_set(
            selected,
            directory,
        ) == directory && toggle_all_set(toggle_all_set(selected, directory), directory)
            == Set::<Seq<u8>>::empty(),
{
}

/// Number of decimal digits of `n`.
pub open spec fn decimal_len(n: nat) -> nat
    decreases n,
{
    if n < 10 {
        1
    } else {
        1 + decimal_len(n / 10)
    }
}

proof fn lemma_decimal_len_bound(n: nat)
    requires
        n >= 1,
    ensures
        1 <= decimal_len(n) <= n,
    decreases n,
{
    if n >= 10 {
        lemma_decimal_len_bound(n / 10);
    }
}

/// The widest address text of the list, in columns.
pub open spec fn longest_address(ws: Seq<Wallet>) -> nat
    decreases ws.len(),
{
    if ws.len() == 0 {
        0
    } else {
        let w = text_width(address_text(ws.last().address@));
        let m = longest_address(ws.drop_last());
        if w > m {
            w
        } else {
            m
        }
    }
}

/// The widest balance text of the list, in columns.
pub open spec fn longest_balance(ws: Seq<Wallet>) -> nat
    decreases ws.len(),
{
    if ws.len() == 0 {
        0
    } else {
        let w = text_width(ether_text(ws.last().eth_balance as nat));
        let m = longest_balance(ws.drop_last());
        if w > m {
            w
        } else {
            m
        }
    }
}

/// The state of the operator's session: the directory, the cursor, the
/// selection and the confirmation step.
#[derive(Debug)]
pub struct Model {
    pub app_data: AppData,
    /// The highlighted row of the table.
    pub table_state: Option<usize>,
    pub running: bool,
    /// Widths of the table's columns: number, address, balance.
    pub longuest_item_lens: (u16, u16, u16),
    pub wallets_selected: Vec<Wallet>,
    pub current_screen: CurrentScreen,
    pub currently_transfering: Option<CurrentlyConfirming>,
}

impl Model {
    /// The directory is not empty, no address occurs twice in it or in the
    /// selection, and every selected address is in the directory.
    pub open spec fn wf(&self) -> bool {
        &&& self.app_data.wallets@.len() > 0
        &&& distinct_addresses(self.app_data.wallets@)
        &&& distinct_addresses(self.wallets_selected@)
        &&& self.selection_set().subset_of(self.directory_set())
        &&& (self.current_screen == CurrentScreen::Main <==> self.currently_transfering is None)
    }

    /// The session data is the same: directory, destination, count and
    /// column widths.
    pub open spec fn same_session(&self, other: &Model) -> bool {
        &&& self.app_data.wallets@ == other.app_data.wallets@
        &&& self.app_data.to_address == other.app_data.to_address
        &&& self.app_data.next_index == other.app_data.next_index
        &&& self.longuest_item_lens == other.longuest_item_lens
    }

    /// The screen state is the same: cursor, screen, answer and running flag.
    pub open spec fn same_screen_state(&self, other: &Model) -> bool {
        &&& self.table_state == other.table_state
        &&& self.current_screen == other.current_screen
        &&& self.currently_transfering == other.currently_transfering
        &&& self.running == other.running
    }

    /// Nothing observable changed.
    pub open spec fn same_model(&self, other: &Model) -> bool {
        &&& self.same_session(other)
        &&& self.same_screen_state(other)
        &&& self.wallets_selected@ == other.wallets_selected@
    }

    /// The selection after toggling the highlighted wallet, if there is one.
    pub open spec fn toggled_selection(&self) -> Seq<Wallet> {
        match self.table_state {
            Some(i) => if i < self.app_data.wallets@.len() {
                toggled(self.wallets_selected@, self.app_data.wallets@[i as int])
            } else {
                self.wallets_selected@
            },
            None => self.wallets_selected@,
        }
    }

    pub open spec fn selection_set(&self) -> Set<Seq<u8>> {
        address_set(self.wallets_selected@)
    }

    pub open spec fn directory_set(&self) -> Set<Seq<u8>> {
        address_set(self.app_data.wallets@)
    }

    /// A session over a directory, on the main screen with the first row
    /// highlighted and nothing selected.
    pub fn new(app_data: AppData) -> (r: Model)
        requires
            app_data.wallets@.len() > 0,
            distinct_addresses(app_data.wallets@),
        ensures
            r.wf(),
            r.app_data.wallets@ == app_data.wallets@,
            r.app_data.to_address == app_data.to_address,
            r.app_data.next_index == app_data.next_index,
            r.running,
            r.table_state == Some(0usize),
            r.longuest_item_lens == (decimal_len(app_data.wallets@.len()) as u16, longest_address(
                app_data.wallets@,
            ) as u16, longest_balance(app_data.wallets@) as u16),
            r.wallets_selected@.len() == 0,
            r.current_screen == CurrentScreen::Main,
            r.currently_transfering is None,
    {
        let lens = Model::constraint_len_calculator(&app_data);
        let r = Model {
            running: true,
            app_data,
            table_state: Some(0),
            longuest_item_lens: lens,
            wallets_selected: Vec::new(),
            current_screen: CurrentScreen::Main,
            currently_transfering: None,
        };
        assert(r.selection_set() =~= Set::empty());
        r
    }

    /// The widths of the table's columns: the digits of the row count, the
    /// widest address and the widest balance.
    fn constraint_len_calculator(items: &AppData) -> (r: (u16, u16, u16))
        ensures
            r == (decimal_len(items.wallets@.len()) as u16, longest_address(items.wallets@) as u16,
                longest_balance(items.wallets@) as u16),
    {
        let wallets = &items.wallets;
        let mut digits: usize = 1;
        let mut n: usize = wallets.len();
        while n >= 10
            invariant
                digits + decimal_len(n as nat) == 1 + decimal_len(wallets@.len()),
                n <= wallets@.len(),
                wallets@.len() <= usize::MAX,
            decreases n,
        {
            proof {
                lemma_decimal_len_bound(wallets@.len());
                lemma_decimal_len_bound((n / 10) as nat);
                assert(decimal_len(n as nat) == 1 + decimal_len((n / 10) as nat));
                assert(digits + 2 <= 1 + decimal_len(wallets@.len()));
            }
            n = n / 10;
            digits = digits + 1;
        }
        let mut address_len: usize = 0;
        let mut eth_balance_len: usize = 0;
        let mut i: usize = 0;
        while i < wallets.len()
            invariant
                i <= wallets@.len(),
                address_len == longest_address(wallets@.subrange(0, i as int)),
                eth_balance_len == longest_balance(wallets@.subrange(0, i as int)),
            decreases wallets@.len() - i,
        {
            let ghost pre = wallets@.subrange(0, i as int);
            let ghost post = wallets@.subrange(0, i + 1);
            assert(post.drop_last() =~= pre);
            let a = display_width(wallets[i].address_to_string().as_str());
            if a > address_len {
                address_len = a;
            }
            let b = display_width(wallets[i].eth_balance_to_string().as_str());
            if b > eth_balance_len {
                eth_balance_len = b;
            }
            i = i + 1;
        }
        assert(wallets@.subrange(0, wallets@.len() as int) =~= wallets@);
        (
            #[verifier::truncate]
            (digits as u16),
            #[verifier::truncate]
            (address_len as u16),
            #[verifier::truncate]
            (eth_balance_len as u16),
        )
    }
}


/// The transition that a key asks for on a screen.
pub fn key_action(screen: CurrentScreen, key: Key) -> (r: Action)
    ensures
        r == action_of(screen, key),
{
    match screen {
        CurrentScreen::Main => match key {
            Key::Char('q') => Action::Quit,
            Key::Down => Action::Next,
            Key::Up => Action::Previous,
            Key::Enter => Action::ToggleWallet,
            Key::Char('a') => Action::ToggleAll,
            Key::Char('t') => Action::EnterConfirm,
            _ => Action::Nothing,
        },
        CurrentScreen::Transfering => match key {
            Key::Esc => Action::Cancel,
            Key::Left => Action::FlipChoice,
            Key::Right => Action::FlipChoice,
            Key::Enter => Action::Confirm,
            Key::Char('y') => Action::Confirm,
            Key::Char('Y') => Action::Confirm,
            Key::Char('n') => Action::Cancel,
            Key::Char('N') => Action::Cancel,
            _ => Action::Nothing,
        },
    }
}

impl Model {
    /// Highlights the next row, wrapping after the last one.
    pub fn next(&mut self)
        requires
            old(self).wf(),
        ensures
            final(self).wf(),
            final(self).same_session(old(self)),
            final(self).wallets_selected@ == old(self).wallets_selected@,
            final(self).table_state == Some(next_row(old(self).table_state, old(self).app_data.wallets@.len())),
            final(self).current_screen == old(self).current_screen,
            final(self).currently_transfering == old(self).currently_transfering,
            final(self).running == old(self).running,
    {
        let len = self.app_data.wallets.len();
        let i = match self.table_state {
            Some(i) => {
                if i >= len - 1 {
                    0
                } else {
                    i + 1
                }
            },
            None => 0,
        };
        self.table_state = Some(i);
    }

    /// Highlights the previous row, wrapping before the first one.
    pub fn previous(&mut self)
        requires
            old(self).wf(),
        ensures
            final(self).wf(),
            final(self).same_session(old(self)),
            final(self).wallets_selected@ == old(self).wallets_selected@,
            final(self).table_state == Some(previous_row(old(self).table_state, old(self).app_data.wallets@.len())),
            final(self).current_screen == old(self).current_screen,
            final(self).currently_transfering == old(self).currently_transfering,
            final(self).running == old(self).running,
    {
        let len = self.app_data.wallets.len();
        let i = match self.table_state {
            Some(i) => {
                if i == 0 {
                    len - 1
                } else {
                    i - 1
                }
            },
            None => 0,
        };
        self.table_state = Some(i);
    }

    /// On the main screen, toggles the highlighted wallet in the selection:
    /// selected, it leaves; else it joins. Elsewhere, or without a
    /// highlighted wallet, nothing changes.
    pub fn toggle_wallet(&mut self)
        requires
            old(self).wf(),
        ensures
            final(self).wf(),
            final(self).same_session(old(self)),
            final(self).same_screen_state(old(self)),
            old(self).current_screen == CurrentScreen::Main ==> final(self).wallets_selected@ == old(self).toggled_selection(),
            old(self).current_screen != CurrentScreen::Main ==> final(self).wallets_selected@ == old(self).wallets_selected@,
    {
        if self.current_screen != CurrentScreen::Main {
            return;
        }
        if let Some(index) = self.table_state {
            if index < self.app_data.wallets.len() {
                let wallet = self.app_data.wallets[index];
                let ghost dir = self.app_data.wallets@;
                let ghost sel = self.wallets_selected@;
                wallet.toggle_wallet_in_list(&mut self.wallets_selected);
                proof {
                    lemma_toggled(sel, wallet);
                    assert(addresses(dir)[index as int] == wallet.address@);
                    assert(address_set(dir).contains(wallet.address@));
                    assert(self.selection_set().subset_of(self.directory_set()));
                }
            }
        }
    }

    /// On the main screen, select-all: a full selection is cleared, any other
    /// one becomes the whole directory. Elsewhere nothing changes.
    pub fn toggle_all_wallets(&mut self)
        requires
            old(self).wf(),
        ensures
            final(self).wf(),
            final(self).same_session(old(self)),
            final(self).same_screen_state(old(self)),
            old(self).current_screen != CurrentScreen::Main ==> final(self).wallets_selected@ == old(self).wallets_selected@,
            old(self).current_screen == CurrentScreen::Main ==> {
                &&& final(self).selection_set() == toggle_all_set(old(self).selection_set(), old(self).directory_set())
                &&& old(self).selection_set() == old(self).directory_set() ==> final(self).wallets_selected@.len() == 0
                &&& old(self).selection_set() != old(self).directory_set() ==> final(self).wallets_selected@ == old(self).app_data.wallets@
            },
    {
        if self.current_screen != CurrentScreen::Main {
            return;
        }
        proof {
            addresses(self.wallets_selected@).unique_seq_to_set();
            addresses(self.app_data.wallets@).unique_seq_to_set();
            if self.wallets_selected@.len() == self.app_data.wallets@.len() {
                lemma_subset_equality(self.selection_set(), self.directory_set());
            }
        }
        if self.wallets_selected.len() == self.app_data.wallets.len() {
            self.wallets_selected = Vec::new();
            assert(self.selection_set() =~= Set::empty());
        } else {
            self.wallets_selected = self.app_data.wallets();
        }
    }

    /// On the confirmation popup, highlights the other answer. Elsewhere
    /// nothing changes.
    pub fn next_confirm_transfer(&mut self)
        requires
            old(self).wf(),
        ensures
            final(self).wf(),
            final(self).same_session(old(self)),
            final(self).wallets_selected@ == old(self).wallets_selected@,
            final(self).table_state == old(self).table_state,
            final(self).current_screen == old(self).current_screen,
            final(self).running == old(self).running,
            old(self).current_screen == CurrentScreen::Transfering ==> final(self).currently_transfering == flipped(old(self).currently_transfering),
            old(self).current_screen != CurrentScreen::Transfering ==> final(self).currently_transfering == old(self).currently_transfering,
    {
        if self.current_screen != CurrentScreen::Transfering {
            return;
        }
        match self.currently_transfering {
            Some(CurrentlyConfirming::Yes) => {
                self.currently_transfering = Some(CurrentlyConfirming::No);
            },
            _ => {
                self.currently_transfering = Some(CurrentlyConfirming::Yes);
            },
        }
    }

    /// Leaves the confirmation popup for the main screen; the selection
    /// stays. Outside the popup nothing changes.
    pub fn exit_confirm_transfer(&mut self)
        requires
            old(self).wf(),
        ensures
            final(self).wf(),
            final(self).same_session(old(self)),
            final(self).wallets_selected@ == old(self).wallets_selected@,
            final(self).table_state == old(self).table_state,
            final(self).running == old(self).running,
            final(self).current_screen == CurrentScreen::Main,
            final(self).currently_transfering is None,
            old(self).current_screen != CurrentScreen::Transfering ==> final(self).same_model(old(self)),
    {
        if self.current_screen != CurrentScreen::Transfering {
            return;
        }
        self.current_screen = CurrentScreen::Main;
        self.currently_transfering = None;
    }

    /// Answers the confirmation popup: returns whether the selection is to be
    /// swept now (the answer was yes), and goes back to the main screen
    /// either way, so that one confirmation starts at most one sweep.
    /// Outside the popup nothing changes and nothing is swept.
    pub fn perform_action_confirm_transfer(&mut self) -> (sweep: bool)
        requires
            old(self).wf(),
        ensures
            final(self).wf(),
            final(self).same_session(old(self)),
            final(self).wallets_selected@ == old(self).wallets_selected@,
            final(self).table_state == old(self).table_state,
            final(self).running == old(self).running,
            sweep == (old(self).current_screen == CurrentScreen::Transfering
                && old(self).currently_transfering == Some(CurrentlyConfirming::Yes)),
            final(self).current_screen == CurrentScreen::Main,
            final(self).currently_transfering is None,
            old(self).current_screen != CurrentScreen::Transfering ==> final(self).same_model(old(self)),
    {
        if self.current_screen != CurrentScreen::Transfering {
            return false;
        }
        let sweep = match self.currently_transfering {
            Some(CurrentlyConfirming::Yes) => true,
            _ => false,
        };
        self.exit_confirm_transfer();
        sweep
    }

    /// From the main screen, opens the confirmation popup with yes
    /// highlighted. Elsewhere nothing changes.
    pub fn enter_confirm_transfer(&mut self)
        requires
            old(self).wf(),
        ensures
            final(self).wf(),
            final(self).same_session(old(self)),
            final(self).wallets_selected@ == old(self).wallets_selected@,
            final(self).table_state == old(self).table_state,
            final(self).running == old(self).running,
            old(self).current_screen == CurrentScreen::Main ==> final(self).current_screen == CurrentScreen::Transfering
                && final(self).currently_transfering == Some(CurrentlyConfirming::Yes),
            old(self).current_screen != CurrentScreen::Main ==> final(self).same_model(old(self)),
    {
        if self.current_screen != CurrentScreen::Main {
            return;
        }
        self.current_screen = CurrentScreen::Transfering;
        self.currently_transfering = Some(CurrentlyConfirming::Yes);
    }

    /// Ends the session.
    pub fn exit(&mut self)
        requires
            old(self).wf(),
        ensures
            final(self).wf(),
            final(self).same_session(old(self)),
            final(self).wallets_selected@ == old(self).wallets_selected@,
            final(self).table_state == old(self).table_state,
            final(self).current_screen == old(self).current_screen,
            final(self).currently_transfering == old(self).currently_transfering,
            !final(self).running,
    {
        self.running = false;
    }

    /// Applies the transition that a key asks for on the current screen.
    /// Returns whether the selection is to be swept now: only a confirmed
    /// yes does so, and the session is then back on the main screen.
    pub fn handle_key_event(&mut self, key: Key) -> (sweep: bool)
        requires
            old(self).wf(),
        ensures
            final(self).wf(),
            final(self).same_session(old(self)),
            sweep == (action_of(old(self).current_screen, key) == Action::Confirm
                && old(self).currently_transfering == Some(CurrentlyConfirming::Yes)),
            ({
                let old_m = *old(self);
                let new_m = *final(self);
                match action_of(old_m.current_screen, key) {
                    Action::Quit => !new_m.running && new_m.table_state == old_m.table_state
                        && new_m.current_screen == old_m.current_screen
                        && new_m.currently_transfering == old_m.currently_transfering
                        && new_m.wallets_selected@ == old_m.wallets_selected@,
                    Action::Next => new_m.table_state == Some(next_row(old_m.table_state, old_m.app_data.wallets@.len()))
                        && new_m.running == old_m.running
                        && new_m.current_screen == old_m.current_screen
                        && new_m.currently_transfering == old_m.currently_transfering
                        && new_m.wallets_selected@ == old_m.wallets_selected@,
                    Action::Previous => new_m.table_state == Some(previous_row(old_m.table_state, old_m.app_data.wallets@.len()))
                        && new_m.running == old_m.running
                        && new_m.current_screen == old_m.current_screen
                        && new_m.currently_transfering == old_m.currently_transfering
                        && new_m.wallets_selected@ == old_m.wallets_selected@,
                    Action::ToggleWallet => new_m.same_screen_state(&old_m)
                        && new_m.wallets_selected@ == old_m.toggled_selection(),
                    Action::ToggleAll => new_m.same_screen_state(&old_m)
                        && new_m.selection_set() == toggle_all_set(old_m.selection_set(), old_m.directory_set()),
                    Action::EnterConfirm => new_m.current_screen == CurrentScreen::Transfering
                        && new_m.currently_transfering == Some(CurrentlyConfirming::Yes)
                        && new_m.table_state == old_m.table_state
                        && new_m.running == old_m.running
                        && new_m.wallets_selected@ == old_m.wallets_selected@,
                    Action::FlipChoice => new_m.currently_transfering == flipped(old_m.currently_transfering)
                        && new_m.current_screen == old_m.current_screen
                        && new_m.table_state == old_m.table_state
                        && new_m.running == old_m.running
                        && new_m.wallets_selected@ == old_m.wallets_selected@,
                    Action::Cancel | Action::Confirm => new_m.current_screen == CurrentScreen::Main
                        && new_m.currently_transfering is None
                        && new_m.table_state == old_m.table_state
                        && new_m.running == old_m.running
                        && new_m.wallets_selected@ == old_m.wallets_selected@,
                    Action::Nothing => new_m.same_model(&old_m),
                }
            }),
    {
        match key_action(self.current_screen, key) {
            Action::Quit => self.exit(),
            Action::Next => self.next(),
            Action::Previous => self.previous(),
            Action::ToggleWallet => self.toggle_wallet(),
            Action::ToggleAll => self.toggle_all_wallets(),
            Action::EnterConfirm => self.enter_confirm_transfer(),
            Action::FlipChoice => self.next_confirm_transfer(),
            Action::Cancel => self.exit_confirm_transfer(),
            Action::Confirm => {
                return self.perform_action_confirm_transfer();
            },
            Action::Nothing => {},
        }
        false
    }
}

} // verus!
