use basics::ownership::{check_history, step, BindingState, Violation};

use basics::ownership::BindingEvent::{
    BorrowExclusive, BorrowShared, EndExclusive, EndShared, MoveOut, MutateOwner, ReadOwner, ScopeEnd,
};

#[test]
fn move_then_use_is_rejected() {
    assert_eq!(check_history(&vec![MoveOut, ReadOwner]), Err((1, Violation::UseAfterMove)));
    assert_eq!(
        check_history(&vec![MutateOwner, MoveOut, ScopeEnd, BorrowShared]),
        Err((3, Violation::UseAfterMove))
    );
    assert_eq!(check_history(&vec![MoveOut, ScopeEnd]), Ok(BindingState::MovedOut));
}

#[test]
fn exclusive_borrow_rejects_everything_but_its_end() {
    let s = BindingState::ExclusiveBorrowed;
    assert_eq!(step(s, BorrowShared), Err(Violation::ConflictingBorrow));
    assert_eq!(step(s, BorrowExclusive), Err(Violation::ConflictingBorrow));
    assert_eq!(step(s, MoveOut), Err(Violation::MoveWhileBorrowed));
    assert_eq!(step(s, MutateOwner), Err(Violation::MutationWhileBorrowed));
    assert_eq!(step(s, ReadOwner), Err(Violation::ReadWhileExclusive));
    assert_eq!(step(s, ScopeEnd), Err(Violation::BorrowOutlivesOwner));
    assert_eq!(step(s, EndShared), Err(Violation::NoSuchBorrow));
    assert_eq!(step(s, EndExclusive), Ok(BindingState::Owned));
}

#[test]
fn shared_borrows_accumulate_and_release() {
    let h = vec![BorrowShared, BorrowShared, BorrowShared, ReadOwner];
    assert_eq!(check_history(&h), Ok(BindingState::SharedBorrowed(3)));
    let h = vec![BorrowShared, BorrowShared, EndShared, EndShared, MutateOwner];
    assert_eq!(check_history(&h), Ok(BindingState::Owned));
    let h = vec![BorrowShared, MutateOwner];
    assert_eq!(check_history(&h), Err((1, Violation::MutationWhileBorrowed)));
    let h = vec![BorrowShared, BorrowExclusive];
    assert_eq!(check_history(&h), Err((1, Violation::ConflictingBorrow)));
    assert_eq!(step(BindingState::SharedBorrowed(u64::MAX - 1), BorrowShared), Ok(BindingState::SharedBorrowed(u64::MAX)));
}

#[test]
fn exclusive_then_shared_history() {
    let h = vec![BorrowExclusive, EndExclusive, BorrowShared, ReadOwner, EndShared, ReadOwner, ScopeEnd];
    assert_eq!(check_history(&h), Ok(BindingState::Released));
}

#[test]
fn scope_end_rules() {
    assert_eq!(check_history(&vec![]), Ok(BindingState::Owned));
    assert_eq!(check_history(&vec![ScopeEnd]), Ok(BindingState::Released));
    assert_eq!(check_history(&vec![ScopeEnd, ScopeEnd]), Err((1, Violation::UseAfterRelease)));
    assert_eq!(check_history(&vec![BorrowExclusive, ScopeEnd]), Err((1, Violation::BorrowOutlivesOwner)));
    assert_eq!(check_history(&vec![EndShared]), Err((0, Violation::NoSuchBorrow)));
    assert_eq!(step(BindingState::Owned, EndExclusive), Err(Violation::NoSuchBorrow));
    assert_eq!(step(BindingState::SharedBorrowed(2), MoveOut), Err(Violation::MoveWhileBorrowed));
}
