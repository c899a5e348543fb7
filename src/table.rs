//! Table entries built from a store snapshot, and the selection arithmetic.

use crate::cipher::nonce_fits;
use crate::store::{CredentialStore, StoredView};
use vstd::arithmetic::div_mod::{
    lemma_add_mod_noop, lemma_mod_add_multiples_vanish, lemma_mod_self_0, lemma_small_mod,
};
use vstd::prelude::*;

verus! {

/// What showing a sealed secret gave.
#[derive(Debug, Clone, PartialEq, Eq)]
pub enum Revealed {
    /// The secret opened to these bytes.
    Plaintext(Vec<u8>),
    /// The tag did not authenticate the ciphertext under the table's key.
    AuthenticationFailure,
}

/// `Revealed` as a value.
pub enum RevealedView {
    Plaintext(Seq<u8>),
    AuthenticationFailure,
}

impl View for Revealed {
    type V = RevealedView;

    open spec fn view(&self) -> RevealedView {
        match self {
            Revealed::Plaintext(p) => RevealedView::Plaintext(p@),
            Revealed::AuthenticationFailure => RevealedView::AuthenticationFailure,
        }
    }
}

/// What opening a secret gives, as the table shows it.
pub open spec fn reveal_of(opened: Option<Seq<u8>>) -> RevealedView {
    match opened {
        Some(p) => RevealedView::Plaintext(p),
        None => RevealedView::AuthenticationFailure,
    }
}

/// One row: a service, its sealed secret and nonce, and what is shown of it.
#[derive(Debug, Clone)]
pub struct TableEntry {
    pub service: String,
    pub ciphertext: Vec<u8>,
    pub nonce: String,
    pub revealed: Option<Revealed>,
}

/// A row as a value.
pub struct EntryView {
    pub service: Seq<char>,
    pub ciphertext: Seq<u8>,
    pub nonce: Seq<char>,
    pub revealed: Option<RevealedView>,
}

impl View for TableEntry {
    type V = EntryView;

    open spec fn view(&self) -> EntryView {
        EntryView {
            service: self.service@,
            ciphertext: self.ciphertext@,
            nonce: self.nonce@,
            revealed: match self.revealed {
                Some(r) => Some(r@),
                None => None,
            },
        }
    }
}

/// The hidden row for a stored secret.
pub open spec fn hidden_row(s: StoredView) -> EntryView {
    EntryView { service: s.service, ciphertext: s.ciphertext, nonce: s.nonce, revealed: None }
}

/// The same row with nothing shown.
pub open spec fn hidden(e: EntryView) -> EntryView {
    EntryView { revealed: None, ..e }
}

impl TableEntry {
    /// A hidden row.
    pub fn new(service: String, password: Vec<u8>, nonce: String) -> (r: Self)
        ensures
            r@ == (EntryView {
                service: service@,
                ciphertext: password@,
                nonce: nonce@,
                revealed: None,
            }),
    {
        TableEntry { service, ciphertext: password, nonce, revealed: None }
    }
}

/// The rows of a store snapshot, in its (ascending) name order, all hidden.
pub fn build_table_rows(store: &CredentialStore) -> (r: Vec<TableEntry>)
    requires
        store.wf(),
    ensures
        r@.len() == store.entries().len(),
        forall|i: int| 0 <= i < r@.len() ==> (#[trigger] r@[i])@ == hidden_row(store.entries()[i]),
        forall|i: int| 0 <= i < r@.len() ==> nonce_fits((#[trigger] r@[i]).nonce@),
{
    let mut rows: Vec<TableEntry> = Vec::new();
    let n = store.len();
    let mut i: usize = 0;
    while i < n
        invariant
            n == store.entries().len(),
            store.wf(),
            i <= n,
            rows@.len() == i,
            forall|j: int| 0 <= j < i ==> (#[trigger] rows@[j])@ == hidden_row(store.entries()[j]),
        decreases n - i,
    {
        let e = store.entry(i);
        let ciphertext = copy_bytes(&e.ciphertext);
        rows.push(TableEntry::new(e.service.clone(), ciphertext, e.nonce.clone()));
        i = i + 1;
    }
    rows
}

/// A copy of `b`.
pub fn copy_bytes(b: &Vec<u8>) -> (r: Vec<u8>)
    ensures
        r@ == b@,
{
    vstd::slice::slice_to_vec(b.as_slice())
}

/// Which way a step or a page goes.
#[derive(Debug, Clone, Copy, PartialEq, Eq, Structural)]
pub enum MoveDirection {
    DOWN,
    UP,
}

/// Where a leap lands.
#[derive(Debug, Clone, Copy, PartialEq, Eq, Structural)]
pub enum LeapDirection {
    TOP,
    MIDDLE,
    BOTTOM,
}

/// How far a page moves the selection.
pub const PAGE: usize = 5;

/// The selection after one step from row `i` of `n > 0` rows: wraps around
/// in both directions.
pub open spec fn step_index(i: int, n: int, direction: MoveDirection) -> int {
    match direction {
        MoveDirection::DOWN => (i + 1) % n,
        MoveDirection::UP => (i - 1 + n) % n,
    }
}

/// The selection after one page from row `i` of `n > 0` rows: clamped to
/// the first and last row, never wrapping.
pub open spec fn page_index(i: int, n: int, direction: MoveDirection) -> int {
    match direction {
        MoveDirection::DOWN => if i + PAGE < n { i + PAGE } else { n - 1 },
        MoveDirection::UP => if i >= PAGE { i - PAGE } else { 0 },
    }
}

/// Where a leap lands in a table of `n > 0` rows; the middle is `(n-1)/2`,
/// that is `n/2` for odd `n` and `n/2 - 1` for even `n`.
pub open spec fn leap_index(n: int, direction: LeapDirection) -> int {
    match direction {
        LeapDirection::TOP => 0,
        LeapDirection::MIDDLE => (n - 1) / 2,
        LeapDirection::BOTTOM => n - 1,
    }
}

/// The row before `idx`, wrapping from the first to the last.
pub fn backwards_wraparound(idx: usize, len: usize) -> (r: usize)
    requires
        idx < len,
    ensures
        r == (idx - 1 + len) % (len as int),
        r < len,
{
    proof {
        if idx == 0 {
            lemma_small_mod((len - 1) as nat, len as nat);
        } else {
            lemma_mod_add_multiples_vanish(idx - 1, len as int);
            lemma_small_mod((idx - 1) as nat, len as nat);
        }
    }
    if idx == 0 {
        len - 1
    } else {
        idx - 1
    }
}

/// The selection after one step.
pub fn step(i: usize, len: usize, direction: MoveDirection) -> (r: usize)
    requires
        i < len,
    ensures
        r == step_index(i as int, len as int, direction),
        r < len,
{
    proof {
        if i + 1 == len {
            lemma_mod_self_0(len as int);
        } else {
            lemma_small_mod((i + 1) as nat, len as nat);
        }
    }
    match direction {
        MoveDirection::DOWN => if i + 1 == len { 0 } else { i + 1 },
        MoveDirection::UP => backwards_wraparound(i, len),
    }
}

/// The selection after one page.
pub fn page(i: usize, len: usize, direction: MoveDirection) -> (r: usize)
    requires
        i < len,
    ensures
        r == page_index(i as int, len as int, direction),
        r < len,
{
    match direction {
        MoveDirection::DOWN => if len >= PAGE && i < len - PAGE { i + PAGE } else { len - 1 },
        MoveDirection::UP => if i >= PAGE { i - PAGE } else { 0 },
    }
}

/// Where a leap lands.
pub fn leap_to(len: usize, direction: LeapDirection) -> (r: usize)
    requires
        len > 0,
    ensures
        r == leap_index(len as int, direction),
        r < len,
{
    match direction {
        LeapDirection::TOP => 0,
        LeapDirection::MIDDLE => (len - 1) / 2,
        LeapDirection::BOTTOM => len - 1,
    }
}

/// The selection after `k` steps down from row `initial` of `n` rows.
pub open spec fn steps_down(initial: int, n: int, k: nat) -> int
    decreases k,
{
    if k == 0 {
        initial
    } else {
        step_index(steps_down(initial, n, (k - 1) as nat), n, MoveDirection::DOWN)
    }
}

/// In a table of `n > 0` rows, `k` consecutive steps down from row
/// `initial` select row `(initial + k) mod n`.
pub proof fn lemma_steps_down_wrap(initial: int, n: int, k: nat)
    requires
        0 <= initial < n,
    ensures
        steps_down(initial, n, k) == (initial + k) % n,
    decreases k,
{
    if k == 0 {
        lemma_small_mod(initial as nat, n as nat);
    } else {
        lemma_steps_down_wrap(initial, n, (k - 1) as nat);
        lemma_mod_add_one(initial + k - 1, n);
    }
}

proof fn lemma_mod_add_one(x: int, n: int)
    requires
        0 <= x,
        0 < n,
    ensures
        (x % n + 1) % n == (x + 1) % n,
{
    lemma_add_mod_noop(x, 1, n);
    if n > 1 {
        lemma_small_mod(1, n as nat);
    } else {
        assert((x % n + 1) % n == 0 && (x + 1) % n == 0) by (nonlinear_arith)
            requires
                n == 1,
        ;
    }
}

} // verus!
