//! The table controller: owns the rows, the selection and the interaction
//! mode, and keeps at most one row (the selected one) shown in the clear.

use crate::cipher::{
    aead_open, aead_seal, nonce_bytes, nonce_fits, opened_secret, random_nonce, AesWrapper,
    MAX_PLAINTEXT,
};
use crate::store::{CredentialStore, EntryState, StoredView};
use crate::table::{
    build_table_rows, copy_bytes, hidden, hidden_row, leap_index, leap_to, page, page_index,
    reveal_of, step, step_index, EntryView, LeapDirection, MoveDirection, Revealed, RevealedView,
    TableEntry,
};
use vstd::prelude::*;
use vstd::string::StrSliceExecFns;
use vstd::utf8::encode_utf8;

verus! {

/// Relies on `String::push`: appends one character.
pub assume_specification[ String::push ](s: &mut String, ch: char)
    ensures
        final(s)@ == old(s)@.push(ch),
;

/// Relies on `String::pop`: removes and returns the last character, if any.
pub assume_specification[ String::pop ](s: &mut String) -> (r: Option<char>)
    ensures
        old(s)@.len() == 0 ==> r is None && final(s)@ == old(s)@,
        old(s)@.len() > 0 ==> r == Some(old(s)@.last()) && final(s)@ == old(s)@.drop_last(),
;

/// The interaction mode; text being typed lives only in the modes that
/// take text.
#[derive(Debug, Clone, PartialEq, Eq)]
pub enum CurrentMode {
    /// Browsing the table.
    Normal,
    /// The help window is shown.
    WithHelp,
    /// Typing the service name of a new entry.
    NewUserName { input: String },
    /// Typing the secret of a new entry for `new_username`.
    NewPassword { input: String, new_username: String },
    /// A new entry was stored.
    PasswordCreated,
    /// Typing the service name of the entry to delete.
    DeletePassword { input: String },
    /// The entry was deleted.
    PasswordDeleted,
    /// There was no entry to delete under that name.
    NoSuchPassword,
}

/// `CurrentMode` as a value.
pub enum ModeView {
    Normal,
    WithHelp,
    NewUserName { input: Seq<char> },
    NewPassword { input: Seq<char>, new_username: Seq<char> },
    PasswordCreated,
    DeletePassword { input: Seq<char> },
    PasswordDeleted,
    NoSuchPassword,
}

impl View for CurrentMode {
    type V = ModeView;

    open spec fn view(&self) -> ModeView {
        match self {
            CurrentMode::Normal => ModeView::Normal,
            CurrentMode::WithHelp => ModeView::WithHelp,
            CurrentMode::NewUserName { input } => ModeView::NewUserName { input: input@ },
            CurrentMode::NewPassword { input, new_username } => ModeView::NewPassword {
                input: input@,
                new_username: new_username@,
            },
            CurrentMode::PasswordCreated => ModeView::PasswordCreated,
            CurrentMode::DeletePassword { input } => ModeView::DeletePassword { input: input@ },
            CurrentMode::PasswordDeleted => ModeView::PasswordDeleted,
            CurrentMode::NoSuchPassword => ModeView::NoSuchPassword,
        }
    }
}

/// The same mode with its typed text emptied.
pub open spec fn cleared(m: ModeView) -> ModeView {
    match m {
        ModeView::NewUserName { .. } => ModeView::NewUserName { input: Seq::empty() },
        ModeView::NewPassword { .. } => ModeView::NewPassword {
            input: Seq::empty(),
            new_username: Seq::empty(),
        },
        ModeView::DeletePassword { .. } => ModeView::DeletePassword { input: Seq::empty() },
        _ => m,
    }
}

/// The same mode with `c` typed.
pub open spec fn typed(m: ModeView, c: char) -> ModeView {
    match m {
        ModeView::NewUserName { input } => ModeView::NewUserName { input: input.push(c) },
        ModeView::NewPassword { input, new_username } => ModeView::NewPassword {
            input: input.push(c),
            new_username,
        },
        ModeView::DeletePassword { input } => ModeView::DeletePassword { input: input.push(c) },
        _ => m,
    }
}

/// The same mode with the last typed character taken back.
pub open spec fn backspaced(m: ModeView) -> ModeView {
    match m {
        ModeView::NewUserName { input } => ModeView::NewUserName {
            input: if input.len() > 0 { input.drop_last() } else { input },
        },
        ModeView::NewPassword { input, new_username } => ModeView::NewPassword {
            input: if input.len() > 0 { input.drop_last() } else { input },
            new_username,
        },
        ModeView::DeletePassword { input } => ModeView::DeletePassword {
            input: if input.len() > 0 { input.drop_last() } else { input },
        },
        _ => m,
    }
}

/// Every row with nothing shown.
pub open spec fn all_hidden(rows: Seq<EntryView>) -> Seq<EntryView> {
    rows.map_values(|e: EntryView| hidden(e))
}

/// What opening row `e` under `key` shows.
pub open spec fn opened(key: Seq<u8>, e: EntryView) -> RevealedView {
    reveal_of(opened_secret(key, e.nonce, e.ciphertext))
}

/// Row `e` after the reveal toggle: hidden if it was shown, else shown.
pub open spec fn toggled(key: Seq<u8>, e: EntryView) -> EntryView {
    if e.revealed is Some {
        hidden(e)
    } else {
        EntryView { revealed: Some(opened(key, e)), ..e }
    }
}

/// What row `e` shows is what opening it gives; a shown plaintext (short
/// enough to seal) seals again to the row's ciphertext.
pub open spec fn row_consistent(key: Seq<u8>, e: EntryView) -> bool {
    match e.revealed {
        Some(r) => r == opened(key, e) && match r {
            RevealedView::Plaintext(p) => p.len() <= MAX_PLAINTEXT ==> aead_seal(
                key,
                nonce_bytes(e.nonce),
                p,
            ) == e.ciphertext,
            RevealedView::AuthenticationFailure => true,
        },
        None => true,
    }
}

/// The hidden rows of a store snapshot.
pub open spec fn rows_of(s: Seq<StoredView>) -> Seq<EntryView> {
    s.map_values(|x: StoredView| hidden_row(x))
}

/// The selection across a reload to `n` rows: kept, clamped to the last
/// row; the first row when there was none; nothing only when there are no
/// rows.
pub open spec fn clamped(sel: Option<int>, n: int) -> Option<int> {
    if n == 0 {
        None
    } else {
        match sel {
            Some(i) => if i < n { Some(i) } else { Some(n - 1) },
            None => Some(0),
        }
    }
}

/// The selection a fresh table of `n` rows starts with.
pub open spec fn initial_selection(n: int) -> Option<int> {
    if n > 0 { Some(0) } else { None }
}

/// The mode a stored write completes: creation and deletion get their
/// confirmation; any other mode stays.
pub open spec fn completed(m: ModeView) -> ModeView {
    match m {
        ModeView::NewPassword { .. } => ModeView::PasswordCreated,
        ModeView::DeletePassword { .. } => ModeView::PasswordDeleted,
        _ => m,
    }
}

pub open spec fn opt_int(o: Option<usize>) -> Option<int> {
    match o {
        Some(i) => Some(i as int),
        None => None,
    }
}

/// The controller of the entry table.
pub struct StatefulPasswordTable {
    key: AesWrapper,
    items: Vec<TableEntry>,
    selected: Option<usize>,
    current_mode: CurrentMode,
    active: bool,
}

impl StatefulPasswordTable {
    /// The key the rows are sealed under.
    pub closed spec fn key_bytes(&self) -> Seq<u8> {
        self.key.key_bytes()
    }

    /// The rows, in order.
    pub closed spec fn entries(&self) -> Seq<EntryView> {
        self.items@.map_values(|e: TableEntry| e@)
    }

    /// The selected row, if any.
    pub closed spec fn selection(&self) -> Option<int> {
        opt_int(self.selected)
    }

    pub closed spec fn mode(&self) -> ModeView {
        self.current_mode@
    }

    /// False once the user has asked to quit.
    pub closed spec fn is_active(&self) -> bool {
        self.active
    }

    /// The selected row, or 0 when there is none (an empty table).
    pub open spec fn cursor(&self) -> int {
        match self.selection() {
            Some(i) => i,
            None => 0,
        }
    }

    /// The selection lies in the table, and there is one exactly when the
    /// table has rows; every nonce fits the cipher; only
    /// the selected row may be shown, and what a row shows is what opening
    /// its ciphertext gives (so re-sealing a shown plaintext gives back the
    /// same ciphertext).
    pub open spec fn wf(&self) -> bool {
        &&& (self.selection() matches Some(i) ==> 0 <= i < self.entries().len())
        &&& (self.selection() is None <==> self.entries().len() == 0)
        &&& forall|i: int|
            0 <= i < self.entries().len() ==> nonce_fits(#[trigger] self.entries()[i].nonce)
        &&& forall|i: int|
            0 <= i < self.entries().len() && (#[trigger] self.entries()[i]).revealed is Some
                ==> self.selection() == Some(i)
        &&& forall|i: int|
            0 <= i < self.entries().len() ==> row_consistent(
                self.key_bytes(),
                #[trigger] self.entries()[i],
            )
    }

    /// The reveal toggle on the selected row; nothing changes with nothing
    /// selected.
    pub open spec fn toggle_post(old: Self, new: Self) -> bool {
        &&& new.selection() == old.selection()
        &&& new.mode() == old.mode()
        &&& new.key_bytes() == old.key_bytes()
        &&& new.is_active() == old.is_active()
        &&& old.selection() is None ==> new.entries() == old.entries()
        &&& old.selection() matches Some(i) ==> new.entries() == old.entries().update(
            i,
            toggled(old.key_bytes(), old.entries()[i]),
        )
    }

    /// Copying the selected row: `r` is what opening it gives, and every row
    /// ends hidden; `None` with nothing selected.
    pub open spec fn copy_post(old: Self, new: Self, r: Option<RevealedView>) -> bool {
        &&& new.entries() == all_hidden(old.entries())
        &&& new.selection() == old.selection()
        &&& new.mode() == old.mode()
        &&& new.key_bytes() == old.key_bytes()
        &&& new.is_active() == old.is_active()
        &&& old.selection() is None <==> r is None
        &&& old.selection() matches Some(i) ==> r == Some(opened(old.key_bytes(), old.entries()[i]))
    }

    /// Only the mode changed, to `m`.
    pub open spec fn mode_set(old: Self, new: Self, m: ModeView) -> bool {
        Self::same_table(old, new) && new.mode() == m
    }

    /// Nothing changed.
    pub open spec fn unchanged(old: Self, new: Self) -> bool {
        Self::same_table(old, new) && new.mode() == old.mode()
    }

    /// `new` differs from `old` in its mode alone, if at all.
    pub open spec fn same_table(old: Self, new: Self) -> bool {
        &&& new.entries() == old.entries()
        &&& new.selection() == old.selection()
        &&& new.key_bytes() == old.key_bytes()
        &&& new.is_active() == old.is_active()
    }

    /// `new` is `old` with every row hidden and the selection at `target`;
    /// an empty table stays as it is.
    pub open spec fn moved_to(old: Self, new: Self, target: int) -> bool {
        &&& new.key_bytes() == old.key_bytes()
        &&& new.is_active() == old.is_active()
        &&& new.mode() == old.mode()
        &&& if old.entries().len() == 0 {
            new.entries() == old.entries() && new.selection() == old.selection()
        } else {
            new.entries() == all_hidden(old.entries()) && new.selection() == Some(target)
        }
    }

    /// An empty table, browsing.
    pub fn new(key: AesWrapper) -> (r: Self)
        ensures
            r.wf(),
            r.key_bytes() == key.key_bytes(),
            r.entries().len() == 0,
            r.selection() is None,
            r.mode() == ModeView::Normal,
            r.is_active(),
    {
        let r = StatefulPasswordTable {
            key,
            items: Vec::new(),
            selected: None,
            current_mode: CurrentMode::Normal,
            active: true,
        };
        assert(r.entries() =~= Seq::<EntryView>::empty());
        r
    }

    /// The table of a store snapshot, every row hidden, the first row
    /// selected (nothing when the store is empty), browsing.
    pub fn from_store(key: AesWrapper, store: &CredentialStore) -> (r: Self)
        requires
            store.wf(),
        ensures
            r.wf(),
            r.key_bytes() == key.key_bytes(),
            r.entries() == rows_of(store.entries()),
            r.selection() == initial_selection(store.entries().len() as int),
            r.mode() == ModeView::Normal,
            r.is_active(),
    {
        let items = build_table_rows(store);
        let selected = if items.len() > 0 {
            Some(0)
        } else {
            None
        };
        let r = StatefulPasswordTable {
            key,
            items,
            selected,
            current_mode: CurrentMode::Normal,
            active: true,
        };
        assert(r.entries() =~= rows_of(store.entries()));
        r
    }

    /// A table over the given hidden rows, the first row selected (nothing
    /// when there are none), browsing.
    pub fn with_items(key: AesWrapper, items: Vec<TableEntry>) -> (r: Self)
        requires
            forall|i: int| 0 <= i < items@.len() ==> (#[trigger] items@[i]).revealed is None,
            forall|i: int| 0 <= i < items@.len() ==> nonce_fits((#[trigger] items@[i]).nonce@),
        ensures
            r.wf(),
            r.key_bytes() == key.key_bytes(),
            r.entries() == items@.map_values(|e: TableEntry| e@),
            r.selection() == initial_selection(items@.len() as int),
            r.mode() == ModeView::Normal,
            r.is_active(),
    {
        let selected = if items.len() > 0 {
            Some(0)
        } else {
            None
        };
        StatefulPasswordTable {
            key,
            items,
            selected,
            current_mode: CurrentMode::Normal,
            active: true,
        }
    }

    pub fn items(&self) -> (r: &Vec<TableEntry>)
        ensures
            r@.map_values(|e: TableEntry| e@) == self.entries(),
    {
        &self.items
    }

    pub fn selected(&self) -> (r: Option<usize>)
        ensures
            opt_int(r) == self.selection(),
    {
        self.selected
    }

    pub fn current_mode(&self) -> (r: &CurrentMode)
        ensures
            r@ == self.mode(),
    {
        &self.current_mode
    }

    pub fn active(&self) -> (r: bool)
        ensures
            r == self.is_active(),
    {
        self.active
    }

    /// Whether the selected row is shown.
    pub fn decrypted(&self) -> (r: bool)
        requires
            self.wf(),
        ensures
            r <==> exists|i: int|
                0 <= i < self.entries().len() && (#[trigger] self.entries()[i]).revealed is Some,
    {
        match self.selected {
            Some(i) => {
                let shown = self.items[i].revealed.is_some();
                assert(self.entries()[i as int] == self.items@[i as int]@);
                shown
            },
            None => false,
        }
    }

    /// Hides the shown row, if any, sealing its plaintext again under its
    /// own nonce.
    fn hide_selected(&mut self)
        requires
            old(self).wf(),
        ensures
            final(self).wf(),
            final(self).entries() == all_hidden(old(self).entries()),
            final(self).selection() == old(self).selection(),
            final(self).mode() == old(self).mode(),
            final(self).key_bytes() == old(self).key_bytes(),
            final(self).is_active() == old(self).is_active(),
    {
        let ghost rows = self.entries();
        if let Some(i) = self.selected {
            if self.items[i].revealed.is_some() {
                let mut e = self.items.remove(i);
                assert(e@ == rows[i as int]);
                let resealed: Option<Vec<u8>> = match &e.revealed {
                    Some(Revealed::Plaintext(p)) => {
                        if (p.len() as u64) <= MAX_PLAINTEXT {
                            Some(self.key.seal(p.as_slice(), e.nonce.as_str()))
                        } else {
                            None
                        }
                    },
                    _ => None,
                };
                if let Some(c) = resealed {
                    e.ciphertext = c;
                }
                e.revealed = None;
                self.items.insert(i, e);
                proof {
                    assert(self.entries() =~= rows.update(i as int, hidden(rows[i as int])));
                }
            }
        }
        proof {
            let now = self.entries();
            assert forall|j: int| 0 <= j < rows.len() implies now[j] == hidden(rows[j]) by {
                if self.selection() != Some(j) {
                    assert(rows[j].revealed is None);
                }
            }
            assert(now =~= all_hidden(rows));
        }
    }

    /// Moves the selection, hiding the shown row first.
    fn move_selection(&mut self, target: usize)
        requires
            old(self).wf(),
            target < old(self).entries().len(),
        ensures
            final(self).wf(),
            Self::moved_to(*old(self), *final(self), target as int),
    {
        self.hide_selected();
        self.selected = Some(target);
    }

    /// One step down or up, wrapping around; a no-op on an empty table.
    pub fn select(&mut self, direction: MoveDirection)
        requires
            old(self).wf(),
        ensures
            final(self).wf(),
            Self::moved_to(
                *old(self),
                *final(self),
                step_index(old(self).cursor(), old(self).entries().len() as int, direction),
            ),
    {
        let n = self.items.len();
        if n == 0 {
            return;
        }
        let i = match self.selected {
            Some(i) => i,
            None => 0,
        };
        let target = step(i, n, direction);
        self.move_selection(target);
    }

    /// One step down, wrapping from the last row to the first.
    pub fn next(&mut self)
        requires
            old(self).wf(),
        ensures
            final(self).wf(),
            Self::moved_to(
                *old(self),
                *final(self),
                step_index(old(self).cursor(), old(self).entries().len() as int, MoveDirection::DOWN),
            ),
    {
        self.select(MoveDirection::DOWN);
    }

    /// One step up, wrapping from the first row to the last.
    pub fn previous(&mut self)
        requires
            old(self).wf(),
        ensures
            final(self).wf(),
            Self::moved_to(
                *old(self),
                *final(self),
                step_index(old(self).cursor(), old(self).entries().len() as int, MoveDirection::UP),
            ),
    {
        self.select(MoveDirection::UP);
    }

    /// One page down or up, clamped to the first and last row; a no-op on
    /// an empty table.
    pub fn move_by_5(&mut self, direction: MoveDirection)
        requires
            old(self).wf(),
        ensures
            final(self).wf(),
            Self::moved_to(
                *old(self),
                *final(self),
                page_index(old(self).cursor(), old(self).entries().len() as int, direction),
            ),
    {
        let n = self.items.len();
        if n == 0 {
            return;
        }
        let i = match self.selected {
            Some(i) => i,
            None => 0,
        };
        let target = page(i, n, direction);
        self.move_selection(target);
    }

    /// Selects the top, middle or bottom row; a no-op on an empty table.
    pub fn leap(&mut self, direction: LeapDirection)
        requires
            old(self).wf(),
        ensures
            final(self).wf(),
            Self::moved_to(
                *old(self),
                *final(self),
                leap_index(old(self).entries().len() as int, direction),
            ),
    {
        let n = self.items.len();
        if n == 0 {
            return;
        }
        let target = leap_to(n, direction);
        self.move_selection(target);
    }

    /// Selects row `i`, hiding the shown row first.
    pub fn set_selected(&mut self, i: usize)
        requires
            old(self).wf(),
            i < old(self).entries().len(),
        ensures
            final(self).wf(),
            final(self).entries() == all_hidden(old(self).entries()),
            final(self).selection() == Some(i as int),
            final(self).mode() == old(self).mode(),
            final(self).key_bytes() == old(self).key_bytes(),
            final(self).is_active() == old(self).is_active(),
    {
        self.hide_selected();
        self.selected = Some(i);
    }

    /// The row before `idx`, wrapping from the first to the last.
    pub fn backwards_wraparound(&self, idx: usize) -> (r: usize)
        requires
            idx < self.entries().len(),
        ensures
            r == (idx - 1 + self.entries().len()) % (self.entries().len() as int),
    {
        crate::table::backwards_wraparound(idx, self.items.len())
    }

    /// The reveal toggle on the selected row: a shown row is sealed again
    /// under its own nonce and hidden; a hidden one is opened and shown
    /// (or shows the authentication failure). A no-op with nothing selected.
    pub fn decrypt(&mut self)
        requires
            old(self).wf(),
        ensures
            final(self).wf(),
            Self::toggle_post(*old(self), *final(self)),
    {
        let ghost rows = self.entries();
        if self.items.len() == 0 {
            return;
        }
        if let Some(i) = self.selected {
            if self.items[i].revealed.is_some() {
                self.hide_selected();
                proof {
                    assert(self.entries() =~= rows.update(
                        i as int,
                        toggled(self.key_bytes(), rows[i as int]),
                    )) by {
                        assert forall|j: int| 0 <= j < rows.len() && j != i implies rows[j]
                            == hidden(rows[j]) by {
                            assert(rows[j].revealed is None);
                        }
                    }
                }
            } else {
                let mut e = self.items.remove(i);
                assert(e@ == rows[i as int]);
                let shown = match self.key.open(e.ciphertext.as_slice(), e.nonce.as_str()) {
                    Ok(p) => Revealed::Plaintext(p),
                    Err(_) => Revealed::AuthenticationFailure,
                };
                e.revealed = Some(shown);
                self.items.insert(i, e);
                proof {
                    assert(self.entries() =~= rows.update(
                        i as int,
                        toggled(self.key_bytes(), rows[i as int]),
                    ));
                }
            }
        }
    }

    /// What the clipboard gets from the selected row: its opened secret
    /// (or the authentication failure). Afterwards every row is hidden.
    /// `None`, and nothing changes, with nothing selected.
    pub fn copy(&mut self) -> (r: Option<Revealed>)
        requires
            old(self).wf(),
        ensures
            final(self).wf(),
            Self::copy_post(
                *old(self),
                *final(self),
                match r {
                    Some(v) => Some(v@),
                    None => None,
                },
            ),
    {
        let ghost rows = self.entries();
        match self.selected {
            None => {
                proof {
                    assert forall|j: int| 0 <= j < rows.len() implies rows[j] == hidden(
                        rows[j],
                    ) by {
                        assert(rows[j].revealed is None);
                    }
                    assert(rows =~= all_hidden(rows));
                }
                None
            },
            Some(i) => {
                assert(self.items@[i as int]@ == rows[i as int]);
                let out = match &self.items[i].revealed {
                    Some(Revealed::Plaintext(p)) => Revealed::Plaintext(copy_bytes(p)),
                    Some(Revealed::AuthenticationFailure) => Revealed::AuthenticationFailure,
                    None => {
                        let e = &self.items[i];
                        match self.key.open(e.ciphertext.as_slice(), e.nonce.as_str()) {
                            Ok(p) => Revealed::Plaintext(p),
                            Err(_) => Revealed::AuthenticationFailure,
                        }
                    },
                };
                self.hide_selected();
                Some(out)
            },
        }
    }

    /// Types `c` into the text of the current mode, if it takes text.
    pub fn push_input(&mut self, c: char)
        requires
            old(self).wf(),
        ensures
            final(self).wf(),
            Self::same_table(*old(self), *final(self)),
            final(self).mode() == typed(old(self).mode(), c),
    {
        match &self.current_mode {
            CurrentMode::NewUserName { input } => {
                let mut t = input.clone();
                t.push(c);
                self.current_mode = CurrentMode::NewUserName { input: t };
            },
            CurrentMode::NewPassword { input, new_username } => {
                let mut t = input.clone();
                t.push(c);
                let u = new_username.clone();
                self.current_mode = CurrentMode::NewPassword { input: t, new_username: u };
            },
            CurrentMode::DeletePassword { input } => {
                let mut t = input.clone();
                t.push(c);
                self.current_mode = CurrentMode::DeletePassword { input: t };
            },
            _ => {},
        }
    }

    /// Takes back the last character of the current mode's text, if any.
    pub fn pop_input(&mut self)
        requires
            old(self).wf(),
        ensures
            final(self).wf(),
            Self::same_table(*old(self), *final(self)),
            final(self).mode() == backspaced(old(self).mode()),
    {
        match &self.current_mode {
            CurrentMode::NewUserName { input } => {
                let mut t = input.clone();
                t.pop();
                self.current_mode = CurrentMode::NewUserName { input: t };
            },
            CurrentMode::NewPassword { input, new_username } => {
                let mut t = input.clone();
                t.pop();
                let u = new_username.clone();
                self.current_mode = CurrentMode::NewPassword { input: t, new_username: u };
            },
            CurrentMode::DeletePassword { input } => {
                let mut t = input.clone();
                t.pop();
                self.current_mode = CurrentMode::DeletePassword { input: t };
            },
            _ => {},
        }
    }

    /// Empties the text of the current mode.
    pub fn clear_inputs(&mut self)
        requires
            old(self).wf(),
        ensures
            final(self).wf(),
            Self::same_table(*old(self), *final(self)),
            final(self).mode() == cleared(old(self).mode()),
    {
        match &self.current_mode {
            CurrentMode::NewUserName { .. } => {
                self.current_mode = CurrentMode::NewUserName { input: String::new() };
            },
            CurrentMode::NewPassword { .. } => {
                self.current_mode = CurrentMode::NewPassword {
                    input: String::new(),
                    new_username: String::new(),
                };
            },
            CurrentMode::DeletePassword { .. } => {
                self.current_mode = CurrentMode::DeletePassword { input: String::new() };
            },
            _ => {},
        }
    }

    /// Sets the mode, leaving the table as it is.
    pub fn set_mode(&mut self, mode: CurrentMode)
        requires
            old(self).wf(),
        ensures
            final(self).wf(),
            Self::same_table(*old(self), *final(self)),
            final(self).mode() == mode@,
    {
        self.current_mode = mode;
    }

    /// Commits the typed service name: a non-empty name moves on to typing
    /// the secret for it; an empty one is ignored.
    pub fn new_username(&mut self)
        requires
            old(self).wf(),
        ensures
            final(self).wf(),
            Self::same_table(*old(self), *final(self)),
            final(self).mode() == (match old(self).mode() {
                ModeView::NewUserName { input } => if input.len() > 0 {
                    ModeView::NewPassword { input: Seq::empty(), new_username: input }
                } else {
                    old(self).mode()
                },
                _ => old(self).mode(),
            }),
    {
        if let CurrentMode::NewUserName { input } = &self.current_mode {
            if input.as_str().unicode_len() > 0 {
                let u = input.clone();
                self.current_mode = CurrentMode::NewPassword {
                    input: String::new(),
                    new_username: u,
                };
            }
        }
    }

    /// Whether committing the typed secret stores something: in the mode
    /// that types a secret, with a non-empty name and a non-empty secret
    /// short enough to seal.
    pub open spec fn creation_ready(m: ModeView) -> bool {
        match m {
            ModeView::NewPassword { input, new_username } => input.len() > 0
                && new_username.len() > 0 && encode_utf8(input).len() <= MAX_PLAINTEXT,
            _ => false,
        }
    }

    /// Commits the typed secret under the given nonce: the store gets the
    /// secret sealed under the table's key and that nonce. The table and
    /// mode stay as they are until the write is committed
    /// (`commit_store`). Returns whether the store changed.
    pub fn new_password_with_nonce(&self, store: &mut CredentialStore, nonce: String) -> (r: bool)
        requires
            self.wf(),
            old(store).wf(),
            nonce_fits(nonce@),
        ensures
            final(store).wf(),
            r == Self::creation_ready(self.mode()),
            r ==> (match self.mode() {
                ModeView::NewPassword { input, new_username } => final(store)@ == old(
                    store,
                )@.insert(
                    new_username,
                    (aead_seal(self.key_bytes(), nonce_bytes(nonce@), encode_utf8(input)), nonce@),
                ) && aead_open(
                    self.key_bytes(),
                    nonce_bytes(nonce@),
                    final(store)@[new_username].0,
                ) == Some(encode_utf8(input)),
                _ => false,
            }),
            !r ==> final(store)@ == old(store)@,
    {
        if let CurrentMode::NewPassword { input, new_username } = &self.current_mode {
            let secret = input.as_str().as_bytes();
            if input.as_str().unicode_len() > 0 && new_username.as_str().unicode_len() > 0
                && (secret.len() as u64) <= MAX_PLAINTEXT {
                let sealed = self.key.seal(secret, nonce.as_str());
                store.put(new_username.clone(), sealed, nonce);
                return true;
            }
        }
        false
    }

    /// Commits the typed secret under a fresh random nonce; see
    /// `new_password_with_nonce`.
    pub fn new_password(&self, store: &mut CredentialStore) -> (r: bool)
        requires
            self.wf(),
            old(store).wf(),
        ensures
            final(store).wf(),
            r == Self::creation_ready(self.mode()),
            r ==> (match self.mode() {
                ModeView::NewPassword { input, new_username } => exists|n: Seq<char>|
                    #[trigger] nonce_fits(n) && final(store)@ == old(store)@.insert(
                        new_username,
                        (aead_seal(self.key_bytes(), nonce_bytes(n), encode_utf8(input)), n),
                    ) && aead_open(self.key_bytes(), nonce_bytes(n), final(store)@[new_username].0)
                        == Some(encode_utf8(input)),
                _ => false,
            }),
            !r ==> final(store)@ == old(store)@,
    {
        let nonce = random_nonce();
        let ghost n = nonce@;
        let r = self.new_password_with_nonce(store, nonce);
        proof {
            if r {
                if let ModeView::NewPassword { input, new_username } = self.mode() {
                    assert(nonce_fits(n) && final(store)@ == old(store)@.insert(
                        new_username,
                        (aead_seal(self.key_bytes(), nonce_bytes(n), encode_utf8(input)), n),
                    ) && aead_open(self.key_bytes(), nonce_bytes(n), final(store)@[new_username].0)
                        == Some(encode_utf8(input)));
                }
            }
        }
        r
    }

    /// Commits the typed name of the entry to delete. Absent: the mode
    /// becomes `NoSuchPassword` and the store stays. Present: the store
    /// loses it, and the mode stays until the write is committed
    /// (`commit_store`). `None` and no change outside that mode or with
    /// nothing typed.
    pub fn delete_entry(&mut self, store: &mut CredentialStore) -> (r: Option<EntryState>)
        requires
            old(self).wf(),
            old(store).wf(),
        ensures
            final(self).wf(),
            final(store).wf(),
            Self::same_table(*old(self), *final(self)),
            match old(self).mode() {
                ModeView::DeletePassword { input } => if input.len() > 0 {
                    &&& final(store)@ == old(store)@.remove(input)
                    &&& old(store)@.contains_key(input) ==> r == Some(EntryState::PasswordDeleted)
                        && final(self).mode() == old(self).mode()
                    &&& !old(store)@.contains_key(input) ==> r == Some(EntryState::NoSuchPassword)
                        && final(self).mode() == ModeView::NoSuchPassword
                } else {
                    r is None && final(store)@ == old(store)@ && final(self).mode() == old(
                        self,
                    ).mode()
                },
                _ => r is None && final(store)@ == old(store)@ && final(self).mode() == old(
                    self,
                ).mode(),
            },
    {
        let target = match &self.current_mode {
            CurrentMode::DeletePassword { input } => {
                if input.as_str().unicode_len() > 0 {
                    Some(input.clone())
                } else {
                    None
                }
            },
            _ => None,
        };
        match target {
            None => None,
            Some(name) => {
                let state = store.remove(name.as_str());
                if let EntryState::NoSuchPassword = state {
                    self.set_mode(CurrentMode::NoSuchPassword);
                }
                Some(state)
            },
        }
    }

    /// Rebuilds the table from a store snapshot: every row hidden, the
    /// selection clamped to the new rows. The mode stays.
    pub fn re_encrypt(&mut self, store: &CredentialStore)
        requires
            old(self).wf(),
            store.wf(),
        ensures
            final(self).wf(),
            final(self).entries() == rows_of(store.entries()),
            final(self).selection() == clamped(
                old(self).selection(),
                store.entries().len() as int,
            ),
            final(self).mode() == old(self).mode(),
            final(self).key_bytes() == old(self).key_bytes(),
            final(self).is_active() == old(self).is_active(),
    {
        let items = build_table_rows(store);
        let n = items.len();
        self.items = items;
        self.selected = if n == 0 {
            None
        } else {
            match self.selected {
                Some(i) => if i < n {
                    Some(i)
                } else {
                    Some(n - 1)
                },
                None => Some(0),
            }
        };
        assert(self.entries() =~= rows_of(store.entries()));
    }

    /// Completes a write that reached the persisted store: the table is
    /// rebuilt from it, and a creation or deletion gets its confirmation.
    pub fn commit_store(&mut self, store: &CredentialStore)
        requires
            old(self).wf(),
            store.wf(),
        ensures
            final(self).wf(),
            final(self).entries() == rows_of(store.entries()),
            final(self).selection() == clamped(
                old(self).selection(),
                store.entries().len() as int,
            ),
            final(self).mode() == completed(old(self).mode()),
            final(self).key_bytes() == old(self).key_bytes(),
            final(self).is_active() == old(self).is_active(),
    {
        self.re_encrypt(store);
        match &self.current_mode {
            CurrentMode::NewPassword { .. } => self.set_mode(CurrentMode::PasswordCreated),
            CurrentMode::DeletePassword { .. } => self.set_mode(CurrentMode::PasswordDeleted),
            _ => {},
        }
    }

    /// Asks the session to end.
    pub fn quit(&mut self)
        requires
            old(self).wf(),
        ensures
            final(self).wf(),
            final(self).entries() == old(self).entries(),
            final(self).selection() == old(self).selection(),
            final(self).mode() == old(self).mode(),
            final(self).key_bytes() == old(self).key_bytes(),
            !final(self).is_active(),
    {
        self.active = false;
    }
}

/// In every well-formed table, hence after every operation, at most one
/// row is shown in the clear.
pub proof fn lemma_at_most_one_revealed(t: StatefulPasswordTable, i: int, j: int)
    requires
        t.wf(),
        0 <= i < t.entries().len(),
        0 <= j < t.entries().len(),
        t.entries()[i].revealed is Some,
        t.entries()[j].revealed is Some,
    ensures
        i == j,
{
}

/// Toggling the reveal twice in a row leaves every row as it was; in
/// particular each ciphertext is byte for byte what it was before.
pub proof fn lemma_toggle_twice(
    t0: StatefulPasswordTable,
    t1: StatefulPasswordTable,
    t2: StatefulPasswordTable,
)
    requires
        t0.wf(),
        StatefulPasswordTable::toggle_post(t0, t1),
        StatefulPasswordTable::toggle_post(t1, t2),
    ensures
        t2.entries() == t0.entries(),
        t2.selection() == t0.selection(),
        forall|i: int| 0 <= i < t0.entries().len() ==> #[trigger] t2.entries()[i].ciphertext == t0.entries()[i].ciphertext,
{
    if let Some(i) = t0.selection() {
        let e = t0.entries()[i];
        assert(row_consistent(t0.key_bytes(), e));
        assert(t2.entries() =~= t0.entries());
    }
}

} // verus!
