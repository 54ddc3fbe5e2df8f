use vstd::prelude::*;

verus! {

/// Where a single binding stands in the single-owner discipline.
#[derive(Clone, Copy, Debug, PartialEq, Eq, Structural)]
pub enum BindingState {
    /// The binding owns its value and nothing borrows it.
    Owned,
    /// The given number (at least one) of read-only borrows are live.
    SharedBorrowed(u64),
    /// One mutable borrow is live.
    ExclusiveBorrowed,
    /// The value was moved to another binding; this one is invalid, and its
    /// scope ending releases nothing.
    MovedOut,
    /// The binding's scope ended while it still owned its value, and that
    /// value was released.
    Released,
}

/// Something a program does with a binding.
#[derive(Clone, Copy, Debug, PartialEq, Eq, Structural)]
pub enum BindingEvent {
    /// Assign, pass or return the value by value.
    MoveOut,
    /// Take a read-only reference.
    BorrowShared,
    /// Take a mutable reference.
    BorrowExclusive,
    /// A read-only reference goes out of scope.
    EndShared,
    /// The mutable reference goes out of scope.
    EndExclusive,
    /// Read the value through the binding itself.
    ReadOwner,
    /// Assign to the value through the binding itself.
    MutateOwner,
    /// The binding's own scope ends.
    ScopeEnd,
}

/// Why an event is rejected.
#[derive(Clone, Copy, Debug, PartialEq, Eq, Structural)]
pub enum Violation {
    /// The binding was moved out of.
    UseAfterMove,
    /// The binding's scope has already ended.
    UseAfterRelease,
    /// A borrow was asked for that the live borrows exclude.
    ConflictingBorrow,
    /// The owner was read while a mutable borrow is live.
    ReadWhileExclusive,
    /// The owner was assigned to while borrowed.
    MutationWhileBorrowed,
    /// The value was moved while borrowed.
    MoveWhileBorrowed,
    /// A borrow was ended that was never taken.
    NoSuchBorrow,
    /// The owner's scope ended while a borrow is live.
    BorrowOutlivesOwner,
}

impl BindingState {
    /// A shared state counts at least one borrow.
    pub open spec fn wf(self) -> bool {
        self matches BindingState::SharedBorrowed(n) ==> n >= 1
    }

    /// The number of live borrows of either kind.
    pub open spec fn live_borrows(self) -> nat {
        match self {
            BindingState::SharedBorrowed(n) => n as nat,
            BindingState::ExclusiveBorrowed => 1,
            _ => 0,
        }
    }
}

impl BindingEvent {
    /// Every event but the end of the binding's own scope uses the binding.
    pub open spec fn is_use(self) -> bool {
        self != BindingEvent::ScopeEnd
    }
}

/// The one transition of the discipline: the next state, or why `e` is
/// rejected in state `s`.
pub open spec fn transition(s: BindingState, e: BindingEvent) -> Result<BindingState, Violation> {
    match s {
        BindingState::Owned => match e {
            BindingEvent::MoveOut => Ok(BindingState::MovedOut),
            BindingEvent::BorrowShared => Ok(BindingState::SharedBorrowed(1)),
            BindingEvent::BorrowExclusive => Ok(BindingState::ExclusiveBorrowed),
            BindingEvent::EndShared => Err(Violation::NoSuchBorrow),
            BindingEvent::EndExclusive => Err(Violation::NoSuchBorrow),
            BindingEvent::ReadOwner => Ok(BindingState::Owned),
            BindingEvent::MutateOwner => Ok(BindingState::Owned),
            BindingEvent::ScopeEnd => Ok(BindingState::Released),
        },
        BindingState::SharedBorrowed(n) => match e {
            BindingEvent::MoveOut => Err(Violation::MoveWhileBorrowed),
            BindingEvent::BorrowShared => Ok(BindingState::SharedBorrowed((n + 1) as u64)),
            BindingEvent::BorrowExclusive => Err(Violation::ConflictingBorrow),
            BindingEvent::EndShared => if n <= 1 {
                Ok(BindingState::Owned)
            } else {
                Ok(BindingState::SharedBorrowed((n - 1) as u64))
            },
            BindingEvent::EndExclusive => Err(Violation::NoSuchBorrow),
            BindingEvent::ReadOwner => Ok(s),
            BindingEvent::MutateOwner => Err(Violation::MutationWhileBorrowed),
            BindingEvent::ScopeEnd => Err(Violation::BorrowOutlivesOwner),
        },
        BindingState::ExclusiveBorrowed => match e {
            BindingEvent::MoveOut => Err(Violation::MoveWhileBorrowed),
            BindingEvent::BorrowShared => Err(Violation::ConflictingBorrow),
            BindingEvent::BorrowExclusive => Err(Violation::ConflictingBorrow),
            BindingEvent::EndShared => Err(Violation::NoSuchBorrow),
            BindingEvent::EndExclusive => Ok(BindingState::Owned),
            BindingEvent::ReadOwner => Err(Violation::ReadWhileExclusive),
            BindingEvent::MutateOwner => Err(Violation::MutationWhileBorrowed),
            BindingEvent::ScopeEnd => Err(Violation::BorrowOutlivesOwner),
        },
        BindingState::MovedOut => match e {
            BindingEvent::ScopeEnd => Ok(BindingState::MovedOut),
            _ => Err(Violation::UseAfterMove),
        },
        BindingState::Released => Err(Violation::UseAfterRelease),
    }
}

/// Whether event `e` in state `s` releases what the binding owns: only the
/// end of the scope of a binding that still owns its value, unborrowed.
pub open spec fn releases(s: BindingState, e: BindingEvent) -> bool {
    s == BindingState::Owned && e == BindingEvent::ScopeEnd
}

/// The outcome of a binding's whole history, starting from `Owned`: the
/// final state, or the index of the first rejected event and why.
pub open spec fn run(events: Seq<BindingEvent>) -> Result<BindingState, (nat, Violation)>
    decreases events.len(),
{
    if events.len() == 0 {
        Ok(BindingState::Owned)
    } else {
        let last = (events.len() - 1) as nat;
        match run(events.drop_last()) {
            Err(x) => Err(x),
            Ok(s) => match transition(s, events.last()) {
                Ok(t) => Ok(t),
                Err(v) => Err((last, v)),
            },
        }
    }
}

/// How many resources a history releases, starting from `Owned`.
pub open spec fn release_count(events: Seq<BindingEvent>) -> nat
    decreases events.len(),
{
    if events.len() == 0 {
        0
    } else {
        let before = release_count(events.drop_last());
        match run(events.drop_last()) {
            Ok(s) => if releases(s, events.last()) {
                before + 1
            } else {
                before
            },
            Err(_) => before,
        }
    }
}

/// Applies one event to a binding's state.
pub fn step(s: BindingState, e: BindingEvent) -> (r: Result<BindingState, Violation>)
    requires
        s.wf(),
        e == BindingEvent::BorrowShared ==> (s matches BindingState::SharedBorrowed(n) ==> n < u64::MAX),
    ensures
        r == transition(s, e),
        r matches Ok(t) ==> t.wf(),
{
    match s {
        BindingState::Owned => match e {
            BindingEvent::MoveOut => Ok(BindingState::MovedOut),
            BindingEvent::BorrowShared => Ok(BindingState::SharedBorrowed(1)),
            BindingEvent::BorrowExclusive => Ok(BindingState::ExclusiveBorrowed),
            BindingEvent::EndShared => Err(Violation::NoSuchBorrow),
            BindingEvent::EndExclusive => Err(Violation::NoSuchBorrow),
            BindingEvent::ReadOwner => Ok(BindingState::Owned),
            BindingEvent::MutateOwner => Ok(BindingState::Owned),
            BindingEvent::ScopeEnd => Ok(BindingState::Released),
        },
        BindingState::SharedBorrowed(n) => match e {
            BindingEvent::MoveOut => Err(Violation::MoveWhileBorrowed),
            BindingEvent::BorrowShared => Ok(BindingState::SharedBorrowed(n + 1)),
            BindingEvent::BorrowExclusive => Err(Violation::ConflictingBorrow),
            BindingEvent::EndShared => {
                if n <= 1 {
                    Ok(BindingState::Owned)
                } else {
                    Ok(BindingState::SharedBorrowed(n - 1))
                }
            },
            BindingEvent::EndExclusive => Err(Violation::NoSuchBorrow),
            BindingEvent::ReadOwner => Ok(s),
            BindingEvent::MutateOwner => Err(Violation::MutationWhileBorrowed),
            BindingEvent::ScopeEnd => Err(Violation::BorrowOutlivesOwner),
        },
        BindingState::ExclusiveBorrowed => match e {
            BindingEvent::MoveOut => Err(Violation::MoveWhileBorrowed),
            BindingEvent::BorrowShared => Err(Violation::ConflictingBorrow),
            BindingEvent::BorrowExclusive => Err(Violation::ConflictingBorrow),
            BindingEvent::EndShared => Err(Violation::NoSuchBorrow),
            BindingEvent::EndExclusive => Ok(BindingState::Owned),
            BindingEvent::ReadOwner => Err(Violation::ReadWhileExclusive),
            BindingEvent::MutateOwner => Err(Violation::MutationWhileBorrowed),
            BindingEvent::ScopeEnd => Err(Violation::BorrowOutlivesOwner),
        },
        BindingState::MovedOut => match e {
            BindingEvent::ScopeEnd => Ok(BindingState::MovedOut),
            _ => Err(Violation::UseAfterMove),
        },
        BindingState::Released => Err(Violation::UseAfterRelease),
    }
}

/// Checks a binding's whole history before anything runs: the state it ends
/// in, or the index of the first rejected event and why.
pub fn check_history(events: &Vec<BindingEvent>) -> (r: Result<BindingState, (usize, Violation)>)
    ensures
        (match r {
            Ok(s) => run(events@) == Ok::<BindingState, (nat, Violation)>(s),
            Err((i, v)) => run(events@) == Err::<BindingState, (nat, Violation)>((i as nat, v)),
        }),
{
    let mut acc: Result<BindingState, (usize, Violation)> = Ok(BindingState::Owned);
    let mut i: usize = 0;
    while i < events.len()
        invariant
            i <= events@.len(),
            (match acc {
                Ok(s) => run(events@.take(i as int)) == Ok::<BindingState, (nat, Violation)>(s)
                    && s.wf() && s.live_borrows() <= i,
                Err((k, v)) => run(events@.take(i as int)) == Err::<BindingState, (nat, Violation)>(
                    (k as nat, v),
                ),
            }),
        decreases events@.len() - i,
    {
        let e = events[i];
        assert(events@.take(i as int + 1).drop_last() == events@.take(i as int));
        if let Ok(s) = acc {
            acc = match step(s, e) {
                Ok(t) => Ok(t),
                Err(v) => Err((i, v)),
            };
        }
        i = i + 1;
    }
    assert(events@.take(i as int) == events@);
    acc
}

/// A binding that was moved out of rejects every later use, whatever came
/// between: ends of its scope change nothing, and the first use is refused
/// as a use after move.
pub proof fn lemma_use_after_move_rejected(h: Seq<BindingEvent>, rest: Seq<BindingEvent>)
    requires
        run(h) matches Ok(s) && transition(s, BindingEvent::MoveOut) is Ok,
    ensures
        (forall|k: int| 0 <= k < rest.len() ==> !rest[k].is_use()) ==> run(
            h.push(BindingEvent::MoveOut) + rest,
        ) == Ok::<BindingState, (nat, Violation)>(BindingState::MovedOut),
        (exists|k: int| 0 <= k < rest.len() && rest[k].is_use()) ==> (run(
            h.push(BindingEvent::MoveOut) + rest,
        ) matches Err((i, v)) && i > h.len() && v == Violation::UseAfterMove),
    decreases rest.len(),
{
    let moved = h.push(BindingEvent::MoveOut);
    assert(moved.drop_last() == h);
    if rest.len() == 0 {
        assert(moved + rest == moved);
    } else {
        let front = rest.drop_last();
        lemma_use_after_move_rejected(h, front);
        assert((moved + rest).drop_last() == moved + front);
        assert((moved + rest).last() == rest.last());
        if exists|k: int| 0 <= k < front.len() && front[k].is_use() {
            let k = choose|k: int| 0 <= k < front.len() && front[k].is_use();
            assert(rest[k] == front[k]);
        } else if exists|k: int| 0 <= k < rest.len() && rest[k].is_use() {
            let k = choose|k: int| 0 <= k < rest.len() && rest[k].is_use();
            if k < front.len() {
                assert(front[k] == rest[k]);
            }
            assert(rest.last().is_use());
        } else {
            assert(!rest[rest.len() - 1].is_use());
            assert forall|k: int| 0 <= k < front.len() implies !front[k].is_use() by {
                assert(front[k] == rest[k]);
            }
        }
    }
}

/// While a mutable borrow is live, the only event accepted is the end of
/// that borrow: a second borrow of either kind, a move, and a read or an
/// assignment through the owner are all rejected.
pub proof fn lemma_exclusive_borrow_excludes(e: BindingEvent)
    ensures
        transition(BindingState::ExclusiveBorrowed, e) is Ok <==> e == BindingEvent::EndExclusive,
        e == BindingEvent::BorrowShared || e == BindingEvent::BorrowExclusive ==> transition(
            BindingState::ExclusiveBorrowed,
            e,
        ) == Err::<BindingState, Violation>(Violation::ConflictingBorrow),
        e == BindingEvent::MoveOut ==> transition(BindingState::ExclusiveBorrowed, e) == Err::<
            BindingState,
            Violation,
        >(Violation::MoveWhileBorrowed),
        e == BindingEvent::MutateOwner ==> transition(BindingState::ExclusiveBorrowed, e) == Err::<
            BindingState,
            Violation,
        >(Violation::MutationWhileBorrowed),
{
}

/// Any number of read-only borrows may be live at once: `n` of them taken
/// in a row from a fresh binding are all accepted and all counted.
pub proof fn lemma_shared_borrows_accumulate(n: nat)
    requires
        1 <= n <= u64::MAX,
    ensures
        run(Seq::new(n, |_i: int| BindingEvent::BorrowShared)) == Ok::<
            BindingState,
            (nat, Violation),
        >(BindingState::SharedBorrowed(n as u64)),
    decreases n,
{
    let h = Seq::new(n, |_i: int| BindingEvent::BorrowShared);
    let front = Seq::new((n - 1) as nat, |_i: int| BindingEvent::BorrowShared);
    assert(h.drop_last() == front);
    if n == 1 {
        assert(run(front) == Ok::<BindingState, (nat, Violation)>(BindingState::Owned));
    } else {
        lemma_shared_borrows_accumulate((n - 1) as nat);
    }
}

/// While read-only borrows are live, the owner may still be read, and its
/// value stays as it is: assigning through the owner, moving it and taking
/// a mutable borrow are rejected.
pub proof fn lemma_shared_borrows_read_only(n: u64)
    requires
        n >= 1,
    ensures
        transition(BindingState::SharedBorrowed(n), BindingEvent::ReadOwner) == Ok::<
            BindingState,
            Violation,
        >(BindingState::SharedBorrowed(n)),
        transition(BindingState::SharedBorrowed(n), BindingEvent::MutateOwner) is Err,
        transition(BindingState::SharedBorrowed(n), BindingEvent::MoveOut) is Err,
        transition(BindingState::SharedBorrowed(n), BindingEvent::BorrowExclusive) is Err,
{
}

/// Every history releases the binding's value at most once, and an accepted
/// history has released it exactly when it ends in `Released`.
pub proof fn lemma_released_at_most_once(h: Seq<BindingEvent>)
    ensures
        release_count(h) <= 1,
        run(h) is Ok ==> (release_count(h) == 1 <==> run(h) == Ok::<
            BindingState,
            (nat, Violation),
        >(BindingState::Released)),
    decreases h.len(),
{
    if h.len() > 0 {
        lemma_released_at_most_once(h.drop_last());
    }
}

} // verus!
