//! The cancel button: the identifier it carries, and which click on it
//! becomes a cancellation.
//!
//! The identifier names the anchor message of the session and the user who
//! owns it: `cancel#<anchor>#<owner>`, both in decimal.

use vstd::prelude::*;
use vstd::string::StringExecFns;
use crate::decimal::{
    digit_value, digits, lemma_digits_read_back, parse_decimal, push_decimal, read_number,
};
use crate::text::{chars_of, find_from, first_from, matches_at, occurs_at, push_char};

verus! {

/// What every cancel button identifier begins with.
pub open spec fn cancel_prefix() -> Seq<char> {
    seq!['c', 'a', 'n', 'c', 'e', 'l', '#']
}

/// The separator between the two ids.
pub open spec fn separator() -> Seq<char> {
    seq!['#']
}

/// The identifier of the cancel button of a session.
pub open spec fn button_text(anchor: u64, owner: u64) -> Seq<char> {
    cancel_prefix() + digits(anchor as nat) + separator() + digits(owner as nat)
}

/// The anchor and the owner that an identifier names: it must begin with
/// the prefix, and what follows must be two decimal numbers that fit 64
/// bits, divided by the first `#`.
pub open spec fn parsed_id(id: Seq<char>) -> Option<(u64, u64)> {
    let start = cancel_prefix().len() as int;
    if occurs_at(id, cancel_prefix(), 0) && exists|k: int| first_from(id, separator(), start, k) {
        let k = choose|k: int| first_from(id, separator(), start, k);
        match (read_number(id.subrange(start, k)), read_number(id.subrange(k + 1, id.len() as int))) {
            (Some(anchor), Some(owner)) => Some((anchor, owner)),
            _ => None,
        }
    } else {
        None
    }
}

/// The anchor to cancel when `user` clicks the button `id`: the click counts
/// only if the button is a cancel button and `user` owns its session.
pub open spec fn click_target(id: Seq<char>, user: u64) -> Option<u64> {
    match parsed_id(id) {
        Some((anchor, owner)) if owner == user => Some(anchor),
        _ => None,
    }
}

/// Builds the identifier of the cancel button for the session with this
/// anchor and owner.
pub fn button_id(anchor: u64, owner: u64) -> (id: String)
    ensures
        id@ == button_text(anchor, owner),
{
    let mut id = String::from_str("cancel#");
    proof {
        reveal_strlit("cancel#");
        assert(id@ =~= cancel_prefix());
    }
    push_decimal(&mut id, anchor);
    push_char(&mut id, '#');
    push_decimal(&mut id, owner);
    assert(id@ =~= button_text(anchor, owner));
    id
}

/// Reads the anchor and the owner out of a button identifier; `None` for
/// any text that is not a cancel button identifier.
pub fn parse_id(id: &str) -> (ids: Option<(u64, u64)>)
    ensures
        ids == parsed_id(id@),
{
    let chars = chars_of(id);
    let prefix: Vec<char> = vec!['c', 'a', 'n', 'c', 'e', 'l', '#'];
    let hash: Vec<char> = vec!['#'];
    assert(prefix@ =~= cancel_prefix());
    assert(hash@ =~= separator());
    if !matches_at(&chars, 0, &prefix) {
        return None;
    }
    let start: usize = prefix.len();
    let k: usize = match find_from(&chars, &hash, start) {
        Some(k) => k,
        None => {
            return None;
        },
    };
    proof {
        assert forall|k2: int| first_from(id@, separator(), start as int, k2) implies k2 == k by {
            if k2 < k {
                assert(!occurs_at(id@, separator(), k2));
            }
        }
        assert(occurs_at(chars@, hash@, k as int));
        assert(chars@.subrange(k + 1, chars.len() as int) == id@.subrange(
            k + 1,
            id@.len() as int,
        ));
    }
    let anchor: u64 = match parse_decimal(&chars, start, k) {
        Some(anchor) => anchor,
        None => {
            return None;
        },
    };
    match parse_decimal(&chars, k + 1, chars.len()) {
        Some(owner) => Some((anchor, owner)),
        None => None,
    }
}

/// Decides what a click on a button means: the anchor whose session is to
/// be cancelled, or `None` when the button is no cancel button or the user
/// who clicked is not the owner of its session.
pub fn cancel_target(id: &str, user: u64) -> (target: Option<u64>)
    ensures
        target == click_target(id@, user),
{
    match parse_id(id) {
        Some((anchor, owner)) => if owner == user {
            Some(anchor)
        } else {
            None
        },
        None => None,
    }
}

/// An identifier built for a session reads back as that session's anchor
/// and owner.
pub proof fn lemma_button_id_reads_back(anchor: u64, owner: u64)
    ensures
        parsed_id(button_text(anchor, owner)) == Some((anchor, owner)),
{
    let id = button_text(anchor, owner);
    let a = digits(anchor as nat);
    let o = digits(owner as nat);
    let start = cancel_prefix().len() as int;
    let k = start + a.len();
    lemma_digits_read_back(anchor as nat);
    lemma_digits_read_back(owner as nat);
    assert(id.subrange(0, start) =~= cancel_prefix());
    assert(id.subrange(k, k + 1) =~= separator());
    assert forall|j: int| start <= j < k implies !occurs_at(id, separator(), j) by {
        assert(id[j] == a[j - start]);
        assert(digit_value(a[j - start]) is Some);
        if occurs_at(id, separator(), j) {
            assert(id.subrange(j, j + 1)[0] == separator()[0]);
        }
    }
    assert(first_from(id, separator(), start, k));
    assert forall|k2: int| first_from(id, separator(), start, k2) implies k2 == k by {
        if k2 < k {
            assert(!occurs_at(id, separator(), k2));
        }
    }
    assert(id.subrange(start, k) =~= a);
    assert(id.subrange(k + 1, id.len() as int) =~= o);
}

/// Only the owner's click cancels: for an identifier built for a session, a
/// click counts exactly when the user who clicked is the owner.
pub proof fn lemma_only_owner_cancels(anchor: u64, owner: u64, user: u64)
    ensures
        click_target(button_text(anchor, owner), user) == if user == owner {
            Some(anchor)
        } else {
            None
        },
{
    lemma_button_id_reads_back(anchor, owner);
}

} // verus!
