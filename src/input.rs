//! What each key press does, by mode.

use crate::cipher::{aead_open, aead_seal, nonce_bytes, nonce_fits};
use crate::controller::{
    backspaced, typed, CurrentMode, ModeView, StatefulPasswordTable,
};
use crate::store::{CredentialStore, EntryState};
use crate::table::{leap_index, page_index, step_index, LeapDirection, MoveDirection, Revealed, RevealedView};
use vstd::prelude::*;
use vstd::utf8::encode_utf8;

verus! {

/// A key press.
#[derive(Debug, Clone, Copy, PartialEq, Eq, Structural)]
pub enum Key {
    /// A character; Enter arrives as `'\n'`.
    Char(char),
    /// A character with Ctrl held.
    Ctrl(char),
    Up,
    Down,
    Esc,
    Backspace,
    /// Any other key.
    Other,
}

/// What the surroundings must do after a key press.
#[derive(Debug, Clone, PartialEq, Eq)]
pub enum Effect {
    Nothing,
    /// Hand this to the clipboard.
    Copy(Revealed),
    /// Write the store back to its persisted resource, then call
    /// `commit_store` with it.
    Persist,
    /// Read the store from its persisted resource again, then call
    /// `re_encrypt` with it.
    Reload,
}

/// `Effect` as a value.
pub enum EffectView {
    Nothing,
    Copy(RevealedView),
    Persist,
    Reload,
}

impl View for Effect {
    type V = EffectView;

    open spec fn view(&self) -> EffectView {
        match self {
            Effect::Nothing => EffectView::Nothing,
            Effect::Copy(r) => EffectView::Copy(r@),
            Effect::Persist => EffectView::Persist,
            Effect::Reload => EffectView::Reload,
        }
    }
}

type Table = StatefulPasswordTable;

/// A move of the selection to `target` that hands nothing out.
pub open spec fn moved(old: Table, new: Table, target: int, e: EffectView) -> bool {
    Table::moved_to(old, new, target) && e == EffectView::Nothing
}

/// A key press while browsing.
pub open spec fn browse_key_post(old: Table, new: Table, key: Key, e: EffectView) -> bool {
    let n = old.entries().len() as int;
    let sel = old.cursor();
    match key {
        Key::Char('c') => Table::mode_set(old, new, ModeView::NewUserName { input: Seq::empty() })
            && e == EffectView::Nothing,
        Key::Char('j') | Key::Down => moved(old, new, step_index(sel, n, MoveDirection::DOWN), e),
        Key::Char('k') | Key::Up => moved(old, new, step_index(sel, n, MoveDirection::UP), e),
        Key::Char('d') => Table::toggle_post(old, new) && e == EffectView::Nothing,
        Key::Char('y') => exists|r: Option<RevealedView>|
            #[trigger] Table::copy_post(old, new, r) && e == match r {
                Some(v) => EffectView::Copy(v),
                None => EffectView::Nothing,
            },
        Key::Char('D') => Table::mode_set(old, new, ModeView::DeletePassword { input: Seq::empty() })
            && e == EffectView::Nothing,
        Key::Char('q') => {
            &&& new.entries() == old.entries()
            &&& new.selection() == old.selection()
            &&& new.mode() == old.mode()
            &&& new.key_bytes() == old.key_bytes()
            &&& !new.is_active()
            &&& e == EffectView::Nothing
        },
        Key::Ctrl('d') => moved(old, new, page_index(sel, n, MoveDirection::DOWN), e),
        Key::Ctrl('u') => moved(old, new, page_index(sel, n, MoveDirection::UP), e),
        Key::Char('g') => moved(old, new, leap_index(n, LeapDirection::TOP), e),
        Key::Char('M') => moved(old, new, leap_index(n, LeapDirection::MIDDLE), e),
        Key::Char('G') => moved(old, new, leap_index(n, LeapDirection::BOTTOM), e),
        Key::Char('?') => Table::mode_set(old, new, ModeView::WithHelp) && e == EffectView::Nothing,
        Key::Char('r') => Table::unchanged(old, new) && e == EffectView::Reload,
        _ => Table::unchanged(old, new) && e == EffectView::Nothing,
    }
}

/// A key press while the help window is shown.
pub open spec fn help_key_post(old: Table, new: Table, key: Key) -> bool {
    match key {
        Key::Char('?') => Table::mode_set(old, new, ModeView::Normal),
        Key::Char('q') => {
            &&& new.entries() == old.entries()
            &&& new.selection() == old.selection()
            &&& new.mode() == old.mode()
            &&& new.key_bytes() == old.key_bytes()
            &&& !new.is_active()
        },
        _ => Table::unchanged(old, new),
    }
}

/// Editing keys common to the modes that take text: Esc leaves for browsing,
/// a character is typed, Backspace takes one back, anything else is ignored.
pub open spec fn edit_key_post(old: Table, new: Table, key: Key) -> bool {
    match key {
        Key::Esc => Table::mode_set(old, new, ModeView::Normal),
        Key::Char(c) => Table::mode_set(old, new, typed(old.mode(), c)),
        Key::Backspace => Table::mode_set(old, new, backspaced(old.mode())),
        _ => Table::unchanged(old, new),
    }
}

/// A key press while creating an entry, or on its confirmation.
pub open spec fn add_key_post(
    old: Table,
    new: Table,
    old_store: Map<Seq<char>, (Seq<u8>, Seq<char>)>,
    new_store: Map<Seq<char>, (Seq<u8>, Seq<char>)>,
    key: Key,
    e: EffectView,
) -> bool {
    match old.mode() {
        ModeView::NewUserName { input } => new_store == old_store && e == EffectView::Nothing && if key
            == Key::Char('\n') {
            Table::mode_set(
                old,
                new,
                if input.len() > 0 {
                    ModeView::NewPassword { input: Seq::empty(), new_username: input }
                } else {
                    old.mode()
                },
            )
        } else {
            edit_key_post(old, new, key)
        },
        ModeView::NewPassword { input, new_username } => if key == Key::Char('\n') {
            &&& Table::unchanged(old, new)
            &&& (e == EffectView::Persist) == Table::creation_ready(old.mode())
            &&& (e == EffectView::Persist || e == EffectView::Nothing)
            &&& Table::creation_ready(old.mode()) ==> exists|nonce: Seq<char>|
                #[trigger] nonce_fits(nonce) && new_store == old_store.insert(
                    new_username,
                    (aead_seal(old.key_bytes(), nonce_bytes(nonce), encode_utf8(input)), nonce),
                ) && aead_open(old.key_bytes(), nonce_bytes(nonce), new_store[new_username].0)
                    == Some(encode_utf8(input))
            &&& !Table::creation_ready(old.mode()) ==> new_store == old_store
        } else {
            new_store == old_store && e == EffectView::Nothing && edit_key_post(old, new, key)
        },
        ModeView::PasswordCreated => new_store == old_store && e == EffectView::Nothing
            && Table::mode_set(old, new, ModeView::Normal),
        _ => new_store == old_store && e == EffectView::Nothing && Table::unchanged(old, new),
    }
}

/// A key press while deleting an entry, or on its outcome.
pub open spec fn delete_key_post(
    old: Table,
    new: Table,
    old_store: Map<Seq<char>, (Seq<u8>, Seq<char>)>,
    new_store: Map<Seq<char>, (Seq<u8>, Seq<char>)>,
    key: Key,
    e: EffectView,
) -> bool {
    match old.mode() {
        ModeView::DeletePassword { input } => if key == Key::Char('\n') {
            if input.len() > 0 {
                &&& Table::same_table(old, new)
                &&& new_store == old_store.remove(input)
                &&& old_store.contains_key(input) ==> new.mode() == old.mode() && e
                    == EffectView::Persist
                &&& !old_store.contains_key(input) ==> new.mode() == ModeView::NoSuchPassword && e
                    == EffectView::Nothing
            } else {
                Table::unchanged(old, new) && new_store == old_store && e == EffectView::Nothing
            }
        } else {
            new_store == old_store && e == EffectView::Nothing && edit_key_post(old, new, key)
        },
        ModeView::PasswordDeleted | ModeView::NoSuchPassword => new_store == old_store && e
            == EffectView::Nothing && Table::mode_set(old, new, ModeView::Normal),
        _ => new_store == old_store && e == EffectView::Nothing && Table::unchanged(old, new),
    }
}

fn moved_effect(table: &mut Table, direction: MoveDirection) -> (r: Effect)
    requires
        old(table).wf(),
    ensures
        final(table).wf(),
        moved(
            *old(table),
            *final(table),
            step_index(old(table).cursor(), old(table).entries().len() as int, direction),
            r@,
        ),
{
    table.select(direction);
    Effect::Nothing
}

fn paged_effect(table: &mut Table, direction: MoveDirection) -> (r: Effect)
    requires
        old(table).wf(),
    ensures
        final(table).wf(),
        moved(
            *old(table),
            *final(table),
            page_index(old(table).cursor(), old(table).entries().len() as int, direction),
            r@,
        ),
{
    table.move_by_5(direction);
    Effect::Nothing
}

fn leapt_effect(table: &mut Table, direction: LeapDirection) -> (r: Effect)
    requires
        old(table).wf(),
    ensures
        final(table).wf(),
        moved(*old(table), *final(table), leap_index(old(table).entries().len() as int, direction), r@),
{
    table.leap(direction);
    Effect::Nothing
}

/// Handles a key press while browsing.
pub fn password_table_input_handler(table: &mut Table, key: Key) -> (r: Effect)
    requires
        old(table).wf(),
    ensures
        final(table).wf(),
        browse_key_post(*old(table), *final(table), key, r@),
{
    match key {
        Key::Char('c') => {
            table.set_mode(CurrentMode::NewUserName { input: String::new() });
            Effect::Nothing
        },
        Key::Char('j') | Key::Down => moved_effect(table, MoveDirection::DOWN),
        Key::Char('k') | Key::Up => moved_effect(table, MoveDirection::UP),
        Key::Char('d') => {
            table.decrypt();
            Effect::Nothing
        },
        Key::Char('y') => {
            let c = table.copy();
            let ghost rv = match &c {
                Some(v) => Some(v@),
                None => None,
            };
            let e = match c {
                Some(v) => Effect::Copy(v),
                None => Effect::Nothing,
            };
            assert(Table::copy_post(*old(table), *table, rv));
            e
        },
        Key::Char('D') => {
            table.set_mode(CurrentMode::DeletePassword { input: String::new() });
            Effect::Nothing
        },
        Key::Char('q') => {
            table.quit();
            Effect::Nothing
        },
        Key::Ctrl('d') => paged_effect(table, MoveDirection::DOWN),
        Key::Ctrl('u') => paged_effect(table, MoveDirection::UP),
        Key::Char('g') => leapt_effect(table, LeapDirection::TOP),
        Key::Char('M') => leapt_effect(table, LeapDirection::MIDDLE),
        Key::Char('G') => leapt_effect(table, LeapDirection::BOTTOM),
        Key::Char('?') => {
            table.set_mode(CurrentMode::WithHelp);
            Effect::Nothing
        },
        Key::Char('r') => Effect::Reload,
        _ => Effect::Nothing,
    }
}

/// Handles a key press while the help window is shown.
pub fn with_help_input_handler(table: &mut Table, key: Key)
    requires
        old(table).wf(),
    ensures
        final(table).wf(),
        help_key_post(*old(table), *final(table), key),
{
    match key {
        Key::Char('?') => table.set_mode(CurrentMode::Normal),
        Key::Char('q') => table.quit(),
        _ => {},
    }
}

/// The editing keys of the modes that take text.
fn edit_input(table: &mut Table, key: Key)
    requires
        old(table).wf(),
        key != Key::Char('\n'),
    ensures
        final(table).wf(),
        edit_key_post(*old(table), *final(table), key),
{
    match key {
        Key::Esc => table.set_mode(CurrentMode::Normal),
        Key::Char(c) => table.push_input(c),
        Key::Backspace => table.pop_input(),
        _ => {},
    }
}

/// Handles a key press while creating an entry, or on its confirmation.
pub fn add_password_input_handler(table: &mut Table, key: Key, store: &mut CredentialStore) -> (r:
    Effect)
    requires
        old(table).wf(),
        old(store).wf(),
    ensures
        final(table).wf(),
        final(store).wf(),
        add_key_post(*old(table), *final(table), old(store)@, final(store)@, key, r@),
{
    match table.current_mode() {
        CurrentMode::NewUserName { .. } => {
            if key == Key::Char('\n') {
                table.new_username();
            } else {
                edit_input(table, key);
            }
            Effect::Nothing
        },
        CurrentMode::NewPassword { .. } => {
            if key == Key::Char('\n') {
                if table.new_password(store) {
                    Effect::Persist
                } else {
                    Effect::Nothing
                }
            } else {
                edit_input(table, key);
                Effect::Nothing
            }
        },
        CurrentMode::PasswordCreated => {
            table.set_mode(CurrentMode::Normal);
            Effect::Nothing
        },
        _ => Effect::Nothing,
    }
}

/// Handles a key press while deleting an entry, or on its outcome.
pub fn delete_password_input_handler(table: &mut Table, key: Key, store: &mut CredentialStore) -> (r:
    Effect)
    requires
        old(table).wf(),
        old(store).wf(),
    ensures
        final(table).wf(),
        final(store).wf(),
        delete_key_post(*old(table), *final(table), old(store)@, final(store)@, key, r@),
{
    match table.current_mode() {
        CurrentMode::DeletePassword { .. } => {
            if key == Key::Char('\n') {
                match table.delete_entry(store) {
                    Some(EntryState::PasswordDeleted) => Effect::Persist,
                    _ => Effect::Nothing,
                }
            } else {
                edit_input(table, key);
                Effect::Nothing
            }
        },
        CurrentMode::PasswordDeleted | CurrentMode::NoSuchPassword => {
            table.set_mode(CurrentMode::Normal);
            Effect::Nothing
        },
        _ => Effect::Nothing,
    }
}

/// Handles one key press in whatever mode the table is in.
pub fn handle_key(table: &mut Table, key: Key, store: &mut CredentialStore) -> (r: Effect)
    requires
        old(table).wf(),
        old(store).wf(),
    ensures
        final(table).wf(),
        final(store).wf(),
        match old(table).mode() {
            ModeView::Normal => final(store)@ == old(store)@ && browse_key_post(
                *old(table),
                *final(table),
                key,
                r@,
            ),
            ModeView::WithHelp => final(store)@ == old(store)@ && r@ == EffectView::Nothing
                && help_key_post(*old(table), *final(table), key),
            ModeView::NewUserName { .. } | ModeView::NewPassword { .. } | ModeView::PasswordCreated => add_key_post(
                *old(table),
                *final(table),
                old(store)@,
                final(store)@,
                key,
                r@,
            ),
            _ => delete_key_post(*old(table), *final(table), old(store)@, final(store)@, key, r@),
        },
{
    match table.current_mode() {
        CurrentMode::Normal => password_table_input_handler(table, key),
        CurrentMode::WithHelp => {
            with_help_input_handler(table, key);
            Effect::Nothing
        },
        CurrentMode::NewUserName { .. } | CurrentMode::NewPassword { .. } | CurrentMode::PasswordCreated => {
            add_password_input_handler(table, key, store)
        },
        _ => delete_password_input_handler(table, key, store),
    }
}

} // verus!
