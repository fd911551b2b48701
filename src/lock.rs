use vstd::prelude::*;

use crate::connect::{decimal, is_digit};
use crate::error::Error;

verus! {

/// The sequence number that `name` carries, when it ends with `filter`
/// followed by the ten digits that the server appends to sequential nodes.
pub open spec fn sequence_of(name: Seq<char>, filter: Seq<char>) -> Option<int> {
    let n = name.len() as int;
    let f = filter.len() as int;
    if n >= f + 10 && name.subrange(n - 10 - f, n - 10) == filter && (forall|i: int|
        n - 10 <= i < n ==> is_digit(#[trigger] name[i])) {
        Some(decimal(name.subrange(n - 10, n)))
    } else {
        None
    }
}

/// The lock contender `name` comes before the sequence number `own`.
pub open spec fn ahead(name: Seq<char>, filter: Seq<char>, own: int) -> bool {
    sequence_of(name, filter) matches Some(s) && s < own
}

/// What a contender for a lock does after listing the lock's children.
#[derive(Debug, PartialEq, Eq)]
pub enum LockDecision {
    /// No contender comes first: the lock is held.
    Acquired,
    /// Wait for the contender just ahead to go away.
    Wait { predecessor: String },
}

/// Ten to the power `k`.
pub open spec fn pow10(k: int) -> int
    decreases k,
{
    if k <= 0 {
        1
    } else {
        10 * pow10(k - 1)
    }
}

/// The sequence number that `name` carries after `filter`, if any.
pub fn parse_sequence(name: &str, filter: &str) -> (r: Option<u64>)
    ensures
        r is Some <==> sequence_of(name@, filter@) is Some,
        r matches Some(v) ==> sequence_of(name@, filter@) == Some(v as int),
{
    let n = name.unicode_len();
    let f = filter.unicode_len();
    if n < 10 || n - 10 < f {
        return None;
    }
    let marker = String::from_str(name.substring_char(n - 10 - f, n - 10));
    if marker != String::from_str(filter) {
        return None;
    }
    let digits = name.substring_char(n - 10, n);
    let ghost ds = digits@;
    let mut v: u64 = 0;
    let mut k: usize = 0;
    while k < 10
        invariant
            n == name@.len(),
            n >= 10,
            digits@ == ds,
            ds == name@.subrange(n - 10, n as int),
            ds.len() == 10,
            k <= 10,
            v as int == decimal(ds.subrange(0, k as int)),
            v < pow10(k as int),
            forall|i: int| 0 <= i < k ==> is_digit(#[trigger] ds[i]),
        decreases 10 - k,
    {
        let c = digits.get_char(k);
        if c < '0' || c > '9' {
            assert(name@[n - 10 + k] == ds[k as int]);
            return None;
        }
        assert(ds.subrange(0, k + 1).drop_last() =~= ds.subrange(0, k as int));
        assert(pow10(k + 1) == 10 * pow10(k as int));
        assert(v * 10 + 9 < pow10(k + 1)) by (nonlinear_arith)
            requires
                v < pow10(k as int),
                pow10(k + 1) == 10 * pow10(k as int),
        ;
        assert(pow10(k + 1) <= 10000000000) by {
            reveal_with_fuel(pow10, 11);
        }
        v = v * 10 + ((c as u32) - ('0' as u32)) as u64;
        k = k + 1;
    }
    assert(ds.subrange(0, 10) =~= ds);
    assert forall|i: int| n - 10 <= i < n implies is_digit(#[trigger] name@[i]) by {
        assert(name@[i] == ds[i - (n - 10)]);
    }
    Some(v)
}

/// Decides, from the lock's children `siblings`, whether the contender
/// `own` holds the lock, or which contender just ahead of it to wait for.
/// Contenders are the children whose name carries a sequence number after
/// `filter`; `own` must be one.
pub fn lock_decision(siblings: &Vec<String>, filter: &str, own: &str) -> (r: Result<
    LockDecision,
    Error,
>)
    ensures
        r is Err <==> sequence_of(own@, filter@) is None,
        r is Err ==> r == Err::<LockDecision, Error>(Error::BadArguments),
        sequence_of(own@, filter@) matches Some(o) ==> {
            &&& (r == Ok::<LockDecision, Error>(LockDecision::Acquired) <==> forall|i: int|
                0 <= i < siblings@.len() ==> !ahead(#[trigger] siblings@[i]@, filter@, o))
            &&& (r matches Ok(LockDecision::Wait { predecessor }) ==> exists|i: int|
                0 <= i < siblings@.len() && #[trigger] siblings@[i]@ == predecessor@ && ahead(
                    predecessor@,
                    filter@,
                    o,
                ) && forall|j: int|
                    0 <= j < siblings@.len() && ahead(#[trigger] siblings@[j]@, filter@, o)
                        ==> sequence_of(siblings@[j]@, filter@)->0 <= sequence_of(
                        predecessor@,
                        filter@,
                    )->0)
        },
{
    let own_seq = match parse_sequence(own, filter) {
        Some(s) => s,
        None => return Err(Error::BadArguments),
    };
    let ghost o = own_seq as int;
    let mut best: Option<usize> = None;
    let mut best_seq: u64 = 0;
    let mut k: usize = 0;
    while k < siblings.len()
        invariant
            k <= siblings@.len(),
            o == own_seq as int,
            best is None ==> forall|j: int| 0 <= j < k ==> !ahead(#[trigger] siblings@[j]@, filter@, o),
            best matches Some(b) ==> {
                &&& b < k
                &&& sequence_of(siblings@[b as int]@, filter@) == Some(best_seq as int)
                &&& best_seq < own_seq
                &&& forall|j: int|
                    0 <= j < k && ahead(#[trigger] siblings@[j]@, filter@, o)
                        ==> sequence_of(siblings@[j]@, filter@)->0 <= best_seq
            },
        decreases siblings@.len() - k,
    {
        match parse_sequence(siblings[k].as_str(), filter) {
            Some(s) => {
                if s < own_seq {
                    match best {
                        None => {
                            best = Some(k);
                            best_seq = s;
                        },
                        Some(_) => {
                            if s > best_seq {
                                best = Some(k);
                                best_seq = s;
                            }
                        },
                    }
                }
            },
            None => {},
        }
        k = k + 1;
    }
    match best {
        None => Ok(LockDecision::Acquired),
        Some(b) => {
            let predecessor = siblings[b].clone();
            assert(siblings@[b as int]@ == predecessor@);
            assert(!(forall|i: int|
                0 <= i < siblings@.len() ==> !ahead(#[trigger] siblings@[i]@, filter@, o))) by {
                assert(ahead(siblings@[b as int]@, filter@, o));
            }
            Ok(LockDecision::Wait { predecessor })
        },
    }
}

} // verus!
