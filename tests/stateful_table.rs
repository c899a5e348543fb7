use passcurses::cipher::{encrypt_known, keygen, AesWrapper};
use passcurses::controller::{CurrentMode, StatefulPasswordTable};
use passcurses::store::CredentialStore;
use passcurses::table::{LeapDirection, MoveDirection, Revealed, TableEntry};

const KEY: &[u8] = b"testing987654321";
const NONCE: &str = "asdfjklqasdf";

fn cipher() -> AesWrapper {
    keygen(KEY.to_vec()).unwrap()
}

fn default_entry() -> TableEntry {
    let sealed = cipher().seal(b"test_pass", NONCE);
    TableEntry::new(String::from("test_user"), sealed, String::from(NONCE))
}

fn more_table_entries(num: u8) -> Vec<TableEntry> {
    (0..num).map(|_| default_entry()).collect()
}

fn table_with(extra: u8) -> StatefulPasswordTable {
    let mut items = more_table_entries(3);
    items.extend(more_table_entries(extra));
    StatefulPasswordTable::with_items(cipher(), items)
}

fn default_table() -> StatefulPasswordTable {
    table_with(0)
}

#[test]
fn test_highlight_movement_down_from_no_selection() {
    let mut table = default_table();
    assert_eq!(table.selected(), Some(0));
    table.select(MoveDirection::DOWN);
    assert_eq!(table.selected(), Some(1));
}

#[test]
fn test_highlight_movement_up_from_no_selection() {
    let mut table = default_table();
    table.select(MoveDirection::UP);
    assert_eq!(table.selected(), Some(table.items().len() - 1));
}

#[test]
fn test_highlight_movement_down_from_first_selection() {
    let mut table = default_table();
    table.set_selected(0);
    table.select(MoveDirection::DOWN);
    assert_eq!(table.selected(), Some(1));
    table.select(MoveDirection::DOWN);
    assert_eq!(table.selected(), Some(2));
}

#[test]
fn test_highlight_movement_up_from_last_selection() {
    let mut table = default_table();
    table.set_selected(table.items().len() - 1);
    table.select(MoveDirection::UP);
    assert_eq!(table.selected(), Some(1));
    table.select(MoveDirection::UP);
    assert_eq!(table.selected(), Some(0));
}

#[test]
fn test_highlight_movement_top_wrap_around() {
    let mut table = default_table();
    table.set_selected(0);
    table.select(MoveDirection::UP);
    assert_eq!(table.selected(), Some(table.items().len() - 1));
}

#[test]
fn test_highlight_movement_bottom_wrap_around() {
    let mut table = default_table();
    table.set_selected(table.items().len() - 1);
    table.select(MoveDirection::DOWN);
    assert_eq!(table.selected(), Some(0));
}

#[test]
fn test_highlight_movement_down_by_5() {
    let mut table = table_with(7);
    table.set_selected(0);
    table.move_by_5(MoveDirection::DOWN);
    assert_eq!(table.selected(), Some(5));
}

#[test]
fn test_highlight_movement_up_by_5() {
    let mut table = table_with(7);
    table.move_by_5(MoveDirection::UP);
    assert_eq!(table.selected(), Some(0));
    table.set_selected(9);
    table.move_by_5(MoveDirection::UP);
    assert_eq!(table.selected(), Some(4));
}

#[test]
fn test_highlight_movement_down_by_5_when_within_5_moves() {
    let mut table = table_with(7);
    assert_eq!(table.items().len(), 10);
    table.set_selected(6);
    table.move_by_5(MoveDirection::DOWN);
    assert_eq!(table.selected(), Some(table.items().len() - 1));
}

#[test]
fn test_highlight_movement_up_by_5_when_within_5_moves() {
    let mut table = table_with(2);
    assert_eq!(table.items().len(), 5);
    table.set_selected(2);
    table.move_by_5(MoveDirection::UP);
    assert_eq!(table.selected(), Some(0));
}

#[test]
fn test_leap_bottom() {
    let mut table = table_with(7);
    assert_eq!(table.items().len(), 10);
    table.set_selected(0);
    table.leap(LeapDirection::BOTTOM);
    assert_eq!(table.selected(), Some(9));
}

#[test]
fn test_leap_bottom_when_no_selection() {
    let mut table = table_with(7);
    assert_eq!(table.items().len(), 10);
    table.leap(LeapDirection::BOTTOM);
    assert_eq!(table.selected(), Some(9));
}

#[test]
fn test_leap_top() {
    let mut table = table_with(7);
    assert_eq!(table.items().len(), 10);
    table.set_selected(table.items().len() - 1);
    table.leap(LeapDirection::TOP);
    assert_eq!(table.selected(), Some(0));
}

#[test]
fn test_leap_top_when_no_selection() {
    let mut table = table_with(7);
    assert_eq!(table.items().len(), 10);
    table.leap(LeapDirection::TOP);
    assert_eq!(table.selected(), Some(0));
}

#[test]
fn test_leap_middle_when_no_selection_even_items() {
    let mut table = table_with(7);
    assert_eq!(table.items().len(), 10);
    table.leap(LeapDirection::MIDDLE);
    assert_eq!(table.selected(), Some(4));
}

#[test]
fn test_leap_middle_with_selection_even_items() {
    let mut table = table_with(7);
    assert_eq!(table.items().len(), 10);
    table.set_selected(8);
    table.leap(LeapDirection::MIDDLE);
    assert_eq!(table.selected(), Some(4));
}

#[test]
fn test_leap_middle_with_odd_no_of_items() {
    let mut table = table_with(8);
    assert_eq!(table.items().len(), 11);
    table.set_selected(1);
    table.leap(LeapDirection::MIDDLE);
    assert_eq!(table.selected(), Some(5));
}

#[test]
fn test_leap_middle_with_odd_no_of_items_no_selection() {
    let mut table = table_with(8);
    assert_eq!(table.items().len(), 11);
    table.leap(LeapDirection::MIDDLE);
    assert_eq!(table.selected(), Some(5));
}

#[test]
fn test_encryption_encrypt() {
    let mut table = default_table();
    table.set_selected(0);
    table.decrypt();
    let shown = match &table.items()[0].revealed {
        Some(Revealed::Plaintext(p)) => p.clone(),
        other => panic!("not shown: {:?}", other),
    };
    assert_eq!(
        encrypt_known(&shown, &cipher(), NONCE),
        String::from("Fw6SsG9VijR6gMioOvBRcaFzUkgbiGD/hw==")
    );
}

#[test]
fn test_encryption_decrypt() {
    let mut table = default_table();
    table.set_selected(0);
    table.decrypt();
    assert_eq!(
        table.items()[0].revealed,
        Some(Revealed::Plaintext(String::from("test_pass").into_bytes()))
    );
}

#[test]
fn test_backwards_wraparound_zero_idx() {
    let mut table = default_table();
    let current_idx = 0;
    table.set_selected(current_idx);
    assert_eq!(
        table.backwards_wraparound(current_idx),
        table.items().len() - 1
    );
}

#[test]
fn test_backwards_wraparound_nonzero_idx() {
    let mut table = default_table();
    let current_idx = 1;
    table.set_selected(current_idx);
    assert_eq!(table.backwards_wraparound(current_idx), 0);
}

#[test]
fn test_new_username() {
    let mut table = default_table();
    table.set_mode(CurrentMode::NewUserName {
        input: String::from("new_test_user"),
    });
    table.new_username();
    assert_eq!(
        *table.current_mode(),
        CurrentMode::NewPassword {
            input: String::new(),
            new_username: String::from("new_test_user"),
        }
    );
}

#[test]
fn test_new_password() {
    let mut table = default_table();
    let mut store = CredentialStore::new();
    table.set_mode(CurrentMode::NewPassword {
        input: String::from("new_test_password"),
        new_username: String::from("new_test_user"),
    });
    assert!(table.new_password(&mut store));
    table.commit_store(&store);
    assert_eq!(*table.current_mode(), CurrentMode::PasswordCreated);
    assert_eq!(table.items().len(), 1);
    assert_eq!(table.items()[0].service, "new_test_user");
}
