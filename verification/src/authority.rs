//! The authority registry: the fixed set of external callers permitted to
//! invoke the privileged ledger operations (lock, unlock, transfer).
//!
//! The registry is created once by an administrative bootstrap and never
//! mutated afterwards in this scope. The caller list is stored deduplicated
//! and bounded.

use vstd::prelude::*;
use crate::errors::ErrorCode;

verus! {

/// The largest number of distinct authorized callers the registry can hold.
pub const MAX_AUTHORIZED_PROGRAMS: usize = 10;

/// The singleton set of callers allowed to lock, unlock and transfer
/// collateral.
#[derive(Debug, Clone)]
pub struct VaultAuthority {
    authorized_programs: Vec<u64>,
    bump: u8,
}

/// The subsequence of `s` that keeps the first occurrence of each value, in
/// order.
pub open spec fn dedup_first(s: Seq<u64>) -> Seq<u64>
    decreases s.len(),
{
    if s.len() == 0 {
        Seq::<u64>::empty()
    } else {
        let rest = dedup_first(s.drop_last());
        if rest.contains(s.last()) {
            rest
        } else {
            rest.push(s.last())
        }
    }
}

/// `dedup_first` keeps exactly the values of its input, once each.
pub proof fn lemma_dedup_first_props(s: Seq<u64>)
    ensures
        dedup_first(s).no_duplicates(),
        forall|c: u64| dedup_first(s).contains(c) <==> s.contains(c),
        dedup_first(s).len() <= s.len(),
    decreases s.len(),
{
    if s.len() == 0 {
        assert forall|c: u64| dedup_first(s).contains(c) <==> s.contains(c) by {
            if s.contains(c) {
                let i = choose|i: int| 0 <= i < s.len() && s[i] == c;
                assert(false);
            }
        }
    } else {
        let rest = dedup_first(s.drop_last());
        lemma_dedup_first_props(s.drop_last());
        assert forall|c: u64| dedup_first(s).contains(c) <==> s.contains(c) by {
            if dedup_first(s).contains(c) {
                if rest.contains(c) {
                    assert(s.drop_last().contains(c));
                    let i = choose|i: int| 0 <= i < s.drop_last().len() && s.drop_last()[i] == c;
                    assert(s[i] == c);
                } else {
                    let i = choose|i: int|
                        0 <= i < dedup_first(s).len() && dedup_first(s)[i] == c;
                    assert(c == s.last());
                    assert(s[s.len() - 1] == c);
                }
            }
            if s.contains(c) {
                let i = choose|i: int| 0 <= i < s.len() && s[i] == c;
                if i < s.len() - 1 {
                    assert(s.drop_last()[i] == c);
                    assert(s.drop_last().contains(c));
                    assert(rest.contains(c));
                    if !rest.contains(s.last()) {
                        let j = choose|j: int| 0 <= j < rest.len() && rest[j] == c;
                        assert(dedup_first(s)[j] == c);
                    }
                } else {
                    if rest.contains(s.last()) {
                        let j = choose|j: int| 0 <= j < rest.len() && rest[j] == s.last();
                        assert(dedup_first(s)[j] == c);
                    } else {
                        assert(dedup_first(s)[rest.len() as int] == c);
                    }
                }
            }
        }
        if !rest.contains(s.last()) {
            assert forall|i: int, j: int|
                0 <= i < dedup_first(s).len() && 0 <= j < dedup_first(s).len() && i != j
                implies dedup_first(s)[i] != dedup_first(s)[j] by {
                if i < rest.len() && j < rest.len() {
                    assert(rest[i] != rest[j]);
                } else if i < rest.len() {
                    assert(rest[i] == dedup_first(s)[i]);
                    if dedup_first(s)[i] == s.last() {
                        assert(rest.contains(s.last()));
                    }
                } else if j < rest.len() {
                    assert(rest[j] == dedup_first(s)[j]);
                    if dedup_first(s)[j] == s.last() {
                        assert(rest.contains(s.last()));
                    }
                }
            }
        }
    }
}

/// The deduplicated prefix of a sequence is never longer than the
/// deduplicated whole.
pub proof fn lemma_dedup_first_prefix_len(s: Seq<u64>, i: int)
    requires
        0 <= i <= s.len(),
    ensures
        dedup_first(s.take(i)).len() <= dedup_first(s).len(),
    decreases s.len() - i,
{
    if i == s.len() {
        assert(s.take(i) =~= s);
    } else {
        lemma_dedup_first_prefix_len(s, i + 1);
        assert(s.take(i + 1).drop_last() =~= s.take(i));
        assert(s.take(i + 1).last() == s[i]);
    }
}

impl VaultAuthority {
    /// The registry is well formed: its caller list is duplicate-free and
    /// within the bound.
    pub closed spec fn wf(self) -> bool {
        &&& self.authorized_programs@.no_duplicates()
        &&& self.authorized_programs@.len() <= MAX_AUTHORIZED_PROGRAMS
    }

    /// Membership of `caller` in the stored set.
    pub closed spec fn spec_is_authorized(self, caller: u64) -> bool {
        self.authorized_programs@.contains(caller)
    }

    /// The stored derivation nonce.
    pub closed spec fn spec_bump(self) -> u8 {
        self.bump
    }

    /// The number of distinct callers stored.
    pub closed spec fn spec_len(self) -> nat {
        self.authorized_programs@.len()
    }

    /// Builds the registry from a caller list, deduplicating it.
    ///
    /// Rejects a list of more than `MAX_AUTHORIZED_PROGRAMS` distinct
    /// callers; the state of the caller is then unchanged.
    pub fn new(authorized_programs: Vec<u64>, bump: u8) -> (r: Result<VaultAuthority, ErrorCode>)
        ensures
            r is Ok <==> dedup_first(authorized_programs@).len() <= MAX_AUTHORIZED_PROGRAMS,
            r is Err ==> r == Err::<VaultAuthority, ErrorCode>(ErrorCode::CallerListTooLarge),
            r matches Ok(a) ==> {
                &&& a.wf()
                &&& a.spec_bump() == bump
                &&& forall|c: u64| a.spec_is_authorized(c) <==> authorized_programs@.contains(c)
            },
    {
        let mut kept: Vec<u64> = Vec::new();
        let n = authorized_programs.len();
        let mut i: usize = 0;
        while i < n
            invariant
                i <= n,
                n == authorized_programs@.len(),
                kept@ == dedup_first(authorized_programs@.take(i as int)),
                kept@.len() <= MAX_AUTHORIZED_PROGRAMS,
            decreases n - i,
        {
            let x = authorized_programs[i];
            proof {
                assert(authorized_programs@.take(i + 1).drop_last() =~= authorized_programs@.take(
                    i as int,
                ));
                assert(authorized_programs@.take(i + 1).last() == authorized_programs@[i as int]);
            }
            if !contains_caller(&kept, x) {
                if kept.len() == MAX_AUTHORIZED_PROGRAMS {
                    proof {
                        lemma_dedup_first_prefix_len(authorized_programs@, i + 1);
                    }
                    return Err(ErrorCode::CallerListTooLarge);
                }
                kept.push(x);
            }
            i = i + 1;
        }
        proof {
            assert(authorized_programs@.take(n as int) =~= authorized_programs@);
            lemma_dedup_first_props(authorized_programs@);
        }
        Ok(VaultAuthority { authorized_programs: kept, bump })
    }

    /// Pure membership check against the authorized-caller set.
    pub fn is_authorized(&self, caller: u64) -> (r: bool)
        ensures
            r == self.spec_is_authorized(caller),
    {
        contains_caller(&self.authorized_programs, caller)
    }

    /// The number of distinct callers stored.
    pub fn len(&self) -> (r: usize)
        ensures
            r == self.spec_len(),
    {
        self.authorized_programs.len()
    }
}

/// Linear membership scan over a caller list.
fn contains_caller(callers: &Vec<u64>, caller: u64) -> (r: bool)
    ensures
        r == callers@.contains(caller),
{
    let n = callers.len();
    let mut i: usize = 0;
    while i < n
        invariant
            i <= n,
            n == callers@.len(),
            forall|j: int| 0 <= j < i ==> callers@[j] != caller,
        decreases n - i,
    {
        if callers[i] == caller {
            return true;
        }
        i = i + 1;
    }
    false
}

} // verus!
