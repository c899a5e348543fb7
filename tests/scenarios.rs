use passcurses::cipher::{decrypt, encrypt, encrypt_known, keygen, AesWrapper, CipherError};
use passcurses::controller::{CurrentMode, StatefulPasswordTable};
use passcurses::input::{handle_key, Effect, Key};
use passcurses::store::{CredentialStore, EntryState, PasswordEntry, StoreError};
use passcurses::table::{leap_to, LeapDirection, MoveDirection, Revealed};

fn cipher() -> AesWrapper {
    keygen(b"testing987654321".to_vec()).unwrap()
}

fn type_text(table: &mut StatefulPasswordTable, store: &mut CredentialStore, text: &str) {
    for c in text.chars() {
        assert_eq!(handle_key(table, Key::Char(c), store), Effect::Nothing);
    }
}

fn create(table: &mut StatefulPasswordTable, store: &mut CredentialStore, name: &str, secret: &str) {
    assert_eq!(handle_key(table, Key::Char('c'), store), Effect::Nothing);
    type_text(table, store, name);
    assert_eq!(handle_key(table, Key::Char('\n'), store), Effect::Nothing);
    type_text(table, store, secret);
    assert_eq!(handle_key(table, Key::Char('\n'), store), Effect::Persist);
    table.commit_store(store);
}

fn stored(store: &CredentialStore, name: &str) -> Option<PasswordEntry> {
    store
        .records()
        .into_iter()
        .find(|(service, _)| service == name)
        .map(|(_, entry)| entry)
}

fn store_of(names: &[&str]) -> CredentialStore {
    let key = cipher();
    let mut store = CredentialStore::new();
    for name in names {
        let (sealed, nonce) = encrypt(format!("secret of {}", name).as_bytes(), &key);
        store.put(name.to_string(), sealed, nonce);
    }
    store
}

#[test]
fn leap_middle_lands_on_lower_middle() {
    assert_eq!(leap_to(10, LeapDirection::MIDDLE), 4);
    assert_eq!(leap_to(11, LeapDirection::MIDDLE), 5);
    assert_eq!(leap_to(1, LeapDirection::MIDDLE), 0);
    assert_eq!(leap_to(2, LeapDirection::MIDDLE), 0);
}

#[test]
fn page_up_clamps_at_top_without_wrapping() {
    let names: Vec<String> = (0..10).map(|i| format!("svc{}", i)).collect();
    let refs: Vec<&str> = names.iter().map(|s| s.as_str()).collect();
    let store = store_of(&refs);
    let mut table = StatefulPasswordTable::from_store(cipher(), &store);
    table.set_selected(2);
    table.move_by_5(MoveDirection::UP);
    assert_eq!(table.selected(), Some(0));
    table.set_selected(8);
    table.move_by_5(MoveDirection::DOWN);
    assert_eq!(table.selected(), Some(9));
}

#[test]
fn reveal_toggle_on_empty_table_changes_nothing() {
    let mut table = StatefulPasswordTable::new(cipher());
    table.decrypt();
    assert_eq!(*table.current_mode(), CurrentMode::Normal);
    assert_eq!(table.selected(), None);
    assert!(table.items().is_empty());
    table.select(MoveDirection::DOWN);
    table.leap(LeapDirection::BOTTOM);
    table.move_by_5(MoveDirection::UP);
    assert_eq!(table.selected(), None);
    assert_eq!(table.copy(), None);
}

#[test]
fn create_stores_sealed_secret() {
    let key = cipher();
    let mut store = CredentialStore::new();
    let mut table = StatefulPasswordTable::from_store(cipher(), &store);
    create(&mut table, &mut store, "svc1", "secret1");
    assert_eq!(*table.current_mode(), CurrentMode::PasswordCreated);
    let record = stored(&store, "svc1").expect("svc1 stored");
    assert_ne!(record.password, "secret1");
    assert_eq!(
        decrypt(&record.password, &key, &record.nonce),
        Ok(b"secret1".to_vec())
    );
    assert_eq!(record.nonce.len(), 12);
    assert!(record.nonce.chars().all(|c| c.is_ascii_alphanumeric()));
    assert_eq!(table.items().len(), 1);
    assert_eq!(table.items()[0].service, "svc1");
    assert_eq!(handle_key(&mut table, Key::Char('x'), &mut store), Effect::Nothing);
    assert_eq!(*table.current_mode(), CurrentMode::Normal);
}

#[test]
fn empty_commits_are_ignored() {
    let mut store = CredentialStore::new();
    let mut table = StatefulPasswordTable::new(cipher());
    handle_key(&mut table, Key::Char('c'), &mut store);
    assert_eq!(handle_key(&mut table, Key::Char('\n'), &mut store), Effect::Nothing);
    assert_eq!(
        *table.current_mode(),
        CurrentMode::NewUserName { input: String::new() }
    );
    type_text(&mut table, &mut store, "svc");
    handle_key(&mut table, Key::Char('\n'), &mut store);
    assert_eq!(handle_key(&mut table, Key::Char('\n'), &mut store), Effect::Nothing);
    assert_eq!(
        *table.current_mode(),
        CurrentMode::NewPassword { input: String::new(), new_username: String::from("svc") }
    );
    assert_eq!(store.len(), 0);
}

#[test]
fn delete_present_then_absent() {
    let mut store = CredentialStore::new();
    let mut table = StatefulPasswordTable::new(cipher());
    create(&mut table, &mut store, "svc1", "secret1");
    handle_key(&mut table, Key::Esc, &mut store);
    assert_eq!(*table.current_mode(), CurrentMode::Normal);

    handle_key(&mut table, Key::Char('D'), &mut store);
    type_text(&mut table, &mut store, "svc1");
    assert_eq!(handle_key(&mut table, Key::Char('\n'), &mut store), Effect::Persist);
    table.commit_store(&store);
    assert_eq!(*table.current_mode(), CurrentMode::PasswordDeleted);
    assert!(stored(&store, "svc1").is_none());
    assert!(table.items().is_empty());

    handle_key(&mut table, Key::Char('q'), &mut store);
    assert_eq!(*table.current_mode(), CurrentMode::Normal);
    let before = store.records();
    handle_key(&mut table, Key::Char('D'), &mut store);
    type_text(&mut table, &mut store, "ghost");
    assert_eq!(handle_key(&mut table, Key::Char('\n'), &mut store), Effect::Nothing);
    assert_eq!(*table.current_mode(), CurrentMode::NoSuchPassword);
    assert_eq!(store.records().len(), before.len());
}

#[test]
fn wrong_key_fails_authentication() {
    let right = cipher();
    let wrong = keygen(b"another key".to_vec()).unwrap();
    let (sealed, nonce) = encrypt(b"secret1", &right);
    assert_eq!(right.open(&sealed, &nonce), Ok(b"secret1".to_vec()));
    assert_eq!(wrong.open(&sealed, &nonce), Err(CipherError::AuthenticationFailure));

    let mut store = CredentialStore::new();
    store.put(String::from("svc1"), sealed, nonce);
    let mut table = StatefulPasswordTable::from_store(wrong, &store);
    table.set_selected(0);
    table.decrypt();
    assert_eq!(table.items()[0].revealed, Some(Revealed::AuthenticationFailure));
    table.decrypt();
    assert_eq!(table.items()[0].revealed, None);
    assert_eq!(table.copy(), Some(Revealed::AuthenticationFailure));
}

#[test]
fn tampered_ciphertext_fails_authentication() {
    let key = cipher();
    let (mut sealed, nonce) = encrypt(b"secret1", &key);
    sealed[0] ^= 1;
    assert_eq!(key.open(&sealed, &nonce), Err(CipherError::AuthenticationFailure));
    assert_eq!(decrypt("not base64!", &key, &nonce), Err(CipherError::AuthenticationFailure));
    let text = encrypt_known(b"secret1", &key, &nonce);
    assert_eq!(decrypt(&text, &key, &nonce), Ok(b"secret1".to_vec()));
    assert_eq!(decrypt(&text, &key, "short"), Err(CipherError::AuthenticationFailure));
    assert_eq!(key.open(&sealed, "short"), Err(CipherError::AuthenticationFailure));
}

#[test]
fn at_most_one_row_is_shown() {
    let store = store_of(&["a", "b", "c"]);
    let mut table = StatefulPasswordTable::from_store(cipher(), &store);
    table.set_selected(0);
    table.decrypt();
    table.select(MoveDirection::DOWN);
    assert!(table.items().iter().all(|e| e.revealed.is_none()));
    table.decrypt();
    let shown: Vec<usize> = (0..3).filter(|&i| table.items()[i].revealed.is_some()).collect();
    assert_eq!(shown, vec![1]);
    assert!(table.decrypted());
    table.leap(LeapDirection::TOP);
    assert!(!table.decrypted());
}

#[test]
fn steps_down_wrap_modulo_length() {
    let store = store_of(&["a", "b", "c"]);
    let mut table = StatefulPasswordTable::from_store(cipher(), &store);
    table.set_selected(1);
    for _ in 0..5 {
        table.select(MoveDirection::DOWN);
    }
    assert_eq!(table.selected(), Some((1 + 5) % 3));
}

#[test]
fn toggling_twice_restores_ciphertext() {
    let store = store_of(&["a", "b"]);
    let mut table = StatefulPasswordTable::from_store(cipher(), &store);
    table.set_selected(1);
    let before = table.items()[1].ciphertext.clone();
    table.decrypt();
    assert_eq!(
        table.items()[1].revealed,
        Some(Revealed::Plaintext(b"secret of b".to_vec()))
    );
    table.decrypt();
    assert_eq!(table.items()[1].ciphertext, before);
    assert_eq!(table.items()[1].revealed, None);
}

#[test]
fn copy_hands_out_plaintext_and_leaves_all_hidden() {
    let store = store_of(&["a", "b"]);
    let mut table = StatefulPasswordTable::from_store(cipher(), &store);
    assert_eq!(table.selected(), Some(0));
    assert_eq!(table.copy(), Some(Revealed::Plaintext(b"secret of a".to_vec())));
    assert!(table.items().iter().all(|e| e.revealed.is_none()));
    table.decrypt();
    let mut empty = CredentialStore::new();
    assert_eq!(
        handle_key(&mut table, Key::Char('y'), &mut empty),
        Effect::Copy(Revealed::Plaintext(b"secret of a".to_vec()))
    );
    assert!(table.items().iter().all(|e| e.revealed.is_none()));
}

#[test]
fn store_keeps_names_sorted_and_upserts() {
    let mut store = store_of(&["mail", "bank", "zoo", "alpha"]);
    let names: Vec<String> = store.records().into_iter().map(|(n, _)| n).collect();
    assert_eq!(names, vec!["alpha", "bank", "mail", "zoo"]);
    let key = cipher();
    let (sealed, nonce) = encrypt(b"new", &key);
    store.put(String::from("bank"), sealed, nonce);
    assert_eq!(store.len(), 4);
    let bank = stored(&store, "bank").unwrap();
    assert_eq!(decrypt(&bank.password, &key, &bank.nonce), Ok(b"new".to_vec()));
    assert_eq!(store.remove("nothing"), EntryState::NoSuchPassword);
    assert_eq!(store.remove("mail"), EntryState::PasswordDeleted);
    let names: Vec<String> = store.records().into_iter().map(|(n, _)| n).collect();
    assert_eq!(names, vec!["alpha", "bank", "zoo"]);
}

#[test]
fn records_round_trip_through_base64() {
    let store = store_of(&["a", "b"]);
    let records = store.records();
    assert_eq!(records[0].1.password, base64_of_first(&store));
    let again = CredentialStore::from_records(&records).unwrap();
    assert_eq!(again.records().len(), 2);
    for (x, y) in again.records().iter().zip(records.iter()) {
        assert_eq!(x.0, y.0);
        assert_eq!(x.1.password, y.1.password);
        assert_eq!(x.1.nonce, y.1.nonce);
    }
}

fn base64_of_first(store: &CredentialStore) -> String {
    let table = StatefulPasswordTable::from_store(cipher(), store);
    let bytes = &table.items()[0].ciphertext;
    let text = store.records()[0].1.password.clone();
    assert_ne!(text.as_bytes(), bytes.as_slice());
    text
}

#[test]
fn malformed_records_are_refused() {
    let good = store_of(&["a"]).records();
    let nonce = good[0].1.nonce.clone();
    let bad_secret = vec![(
        String::from("x"),
        PasswordEntry::new(String::from("%%%"), nonce.clone()),
    )];
    assert_eq!(CredentialStore::from_records(&bad_secret).err(), Some(StoreError::CorruptSecret));
    let bad_nonce = vec![(
        String::from("x"),
        PasswordEntry::new(good[0].1.password.clone(), String::from("short")),
    )];
    assert_eq!(CredentialStore::from_records(&bad_nonce).err(), Some(StoreError::CorruptNonce));
    let later_wins = vec![
        (String::from("x"), PasswordEntry::new(String::from("AAAA"), nonce.clone())),
        (String::from("x"), PasswordEntry::new(good[0].1.password.clone(), nonce.clone())),
    ];
    let store = CredentialStore::from_records(&later_wins).unwrap();
    assert_eq!(store.len(), 1);
    assert_eq!(store.records()[0].1.password, good[0].1.password);
}

#[test]
fn help_and_quit_keys() {
    let mut store = CredentialStore::new();
    let mut table = StatefulPasswordTable::new(cipher());
    handle_key(&mut table, Key::Char('?'), &mut store);
    assert_eq!(*table.current_mode(), CurrentMode::WithHelp);
    handle_key(&mut table, Key::Char('j'), &mut store);
    assert_eq!(*table.current_mode(), CurrentMode::WithHelp);
    handle_key(&mut table, Key::Char('?'), &mut store);
    assert_eq!(*table.current_mode(), CurrentMode::Normal);
    assert_eq!(handle_key(&mut table, Key::Char('r'), &mut store), Effect::Reload);
    assert!(table.active());
    handle_key(&mut table, Key::Char('q'), &mut store);
    assert!(!table.active());
}

#[test]
fn editing_keys_change_only_the_typed_text() {
    let mut store = CredentialStore::new();
    let mut table = StatefulPasswordTable::new(cipher());
    handle_key(&mut table, Key::Char('D'), &mut store);
    type_text(&mut table, &mut store, "ab");
    handle_key(&mut table, Key::Backspace, &mut store);
    assert_eq!(
        *table.current_mode(),
        CurrentMode::DeletePassword { input: String::from("a") }
    );
    handle_key(&mut table, Key::Esc, &mut store);
    assert_eq!(*table.current_mode(), CurrentMode::Normal);
}

#[test]
fn reload_clamps_selection() {
    let mut store = store_of(&["a", "b", "c"]);
    let mut table = StatefulPasswordTable::from_store(cipher(), &store);
    table.set_selected(2);
    store.remove("c");
    table.re_encrypt(&store);
    assert_eq!(table.selected(), Some(1));
    store.remove("a");
    store.remove("b");
    table.re_encrypt(&store);
    assert_eq!(table.selected(), None);
}

#[test]
fn ciphertext_is_plaintext_plus_tag() {
    let key = cipher();
    let (sealed, nonce) = encrypt(b"secret1", &key);
    assert_eq!(sealed.len(), 7 + 16);
    assert_eq!(key.seal(b"", &nonce).len(), 16);
}

#[test]
fn wrong_key_never_opens_either_secret() {
    let right = cipher();
    let wrong = keygen(b"other".to_vec()).unwrap();
    let nonce = "asdfjklqasdf";
    let c1 = encrypt_known(b"first", &right, nonce);
    let c2 = encrypt_known(b"second", &right, nonce);
    assert_eq!(decrypt(&c1, &wrong, nonce), Err(CipherError::AuthenticationFailure));
    assert_eq!(decrypt(&c2, &wrong, nonce), Err(CipherError::AuthenticationFailure));
}

#[test]
fn selection_exists_exactly_when_rows_exist() {
    let mut store = CredentialStore::new();
    let mut table = StatefulPasswordTable::from_store(cipher(), &store);
    assert_eq!(table.selected(), None);
    create(&mut table, &mut store, "svc1", "secret1");
    assert_eq!(table.selected(), Some(0));
    let full = store_of(&["a", "b"]);
    assert_eq!(StatefulPasswordTable::from_store(cipher(), &full).selected(), Some(0));
    let mut reloaded = StatefulPasswordTable::new(cipher());
    reloaded.re_encrypt(&full);
    assert_eq!(reloaded.selected(), Some(0));
}
