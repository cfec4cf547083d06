//! Assets, asset amounts, and ordered collections of them.
//!
//! An asset is either a directly-transferable native coin, identified by its
//! denomination, or an account-held token, identified by its contract
//! address. Amounts are 128-bit unsigned integers, the ledger's native width;
//! they combine by checked addition and subtraction, never by wraparound.

use vstd::pervasive::VecAdditionalExecFns;
use vstd::prelude::*;

use crate::error::ZapError;

verus! {

/// The two token representations the ledger distinguishes: a native coin
/// (transferred by attaching funds to a message) and an account-held token
/// (transferred by an explicit instruction to its contract).
#[derive(Debug, PartialEq, Eq)]
pub enum AssetKind {
    Native(String),
    Cw20(String),
}

impl Clone for AssetKind {
    fn clone(&self) -> (r: Self)
        ensures
            r == *self,
    {
        match self {
            AssetKind::Native(x) => AssetKind::Native(x.clone()),
            AssetKind::Cw20(x) => AssetKind::Cw20(x.clone()),
        }
    }
}

/// Two kinds are the same asset when they are the same representation with
/// the same identifier.
pub open spec fn kind_eq(a: AssetKind, b: AssetKind) -> bool {
    match (a, b) {
        (AssetKind::Native(x), AssetKind::Native(y)) => x@ == y@,
        (AssetKind::Cw20(x), AssetKind::Cw20(y)) => x@ == y@,
        _ => false,
    }
}

impl AssetKind {
    /// Whether this kind is the same asset as `other`.
    pub fn matches(&self, other: &AssetKind) -> (r: bool)
        ensures
            r == kind_eq(*self, *other),
    {
        match (self, other) {
            (AssetKind::Native(x), AssetKind::Native(y)) => *x == *y,
            (AssetKind::Cw20(x), AssetKind::Cw20(y)) => *x == *y,
            _ => false,
        }
    }

    /// Whether this kind is an account-held token.
    pub fn is_cw20(&self) -> (r: bool)
        ensures
            r == (self is Cw20),
    {
        match self {
            AssetKind::Cw20(_) => true,
            AssetKind::Native(_) => false,
        }
    }
}

/// A quantity of one asset.
#[derive(Debug, PartialEq, Eq)]
pub struct AssetAmount {
    pub kind: AssetKind,
    pub amount: u128,
}

impl Clone for AssetAmount {
    fn clone(&self) -> (r: Self)
        ensures
            r == *self,
    {
        AssetAmount { kind: self.kind.clone(), amount: self.amount }
    }
}

impl AssetAmount {
    pub fn new(kind: AssetKind, amount: u128) -> (r: AssetAmount)
        ensures
            r.kind == kind,
            r.amount == amount,
    {
        AssetAmount { kind, amount }
    }

    pub fn is_zero(&self) -> (r: bool)
        ensures
            r == (self.amount == 0),
    {
        self.amount == 0
    }
}

/// Index of the first entry of `s` whose kind is `k`, or `-1` if none.
pub open spec fn first_match(s: Seq<AssetAmount>, k: AssetKind) -> int
    decreases s.len(),
{
    if s.len() == 0 {
        -1
    } else if kind_eq(s[0].kind, k) {
        0
    } else if first_match(s.drop_first(), k) == -1 {
        -1
    } else {
        first_match(s.drop_first(), k) + 1
    }
}

/// Whether some entry of `s` has kind `k`.
pub open spec fn has_kind(s: Seq<AssetAmount>, k: AssetKind) -> bool {
    first_match(s, k) >= 0
}

/// The amount held at the first entry of kind `k`, or zero if none.
pub open spec fn amount_of(s: Seq<AssetAmount>, k: AssetKind) -> int {
    if has_kind(s, k) {
        s[first_match(s, k)].amount as int
    } else {
        0
    }
}

/// `first_match` points at the first matching entry: it matches, no earlier
/// entry does, and `-1` means no entry matches at all.
pub proof fn lemma_first_match(s: Seq<AssetAmount>, k: AssetKind)
    ensures
        first_match(s, k) == -1 ==> forall|j: int| 0 <= j < s.len() ==> !kind_eq(s[j].kind, k),
        first_match(s, k) != -1 ==> {
            &&& 0 <= first_match(s, k) < s.len()
            &&& kind_eq(s[first_match(s, k)].kind, k)
            &&& forall|j: int| 0 <= j < first_match(s, k) ==> !kind_eq(s[j].kind, k)
        },
    decreases s.len(),
{
    if s.len() != 0 && !kind_eq(s[0].kind, k) {
        lemma_first_match(s.drop_first(), k);
        assert forall|j: int| 0 <= j < s.len() && first_match(s, k) == -1 implies !kind_eq(
            s[j].kind,
            k,
        ) by {
            if j > 0 {
                assert(s.drop_first()[j - 1] == s[j]);
            }
        }
        if first_match(s, k) != -1 {
            assert(s.drop_first()[first_match(s, k) - 1] == s[first_match(s, k)]);
            assert forall|j: int| 0 <= j < first_match(s, k) implies !kind_eq(s[j].kind, k) by {
                if j > 0 {
                    assert(s.drop_first()[j - 1] == s[j]);
                }
            }
        }
    }
}

/// A matching entry with no match before it is exactly what `first_match`
/// points at.
pub proof fn lemma_first_match_at(s: Seq<AssetAmount>, k: AssetKind, i: int)
    requires
        0 <= i < s.len(),
        kind_eq(s[i].kind, k),
        forall|j: int| 0 <= j < i ==> !kind_eq(s[j].kind, k),
    ensures
        first_match(s, k) == i,
    decreases s.len(),
{
    if i == 0 {
    } else {
        assert(!kind_eq(s[0].kind, k));
        assert(s.drop_first()[i - 1] == s[i]);
        assert forall|j: int| 0 <= j < i - 1 implies !kind_eq(s.drop_first()[j].kind, k) by {
            assert(s.drop_first()[j] == s[j + 1]);
        }
        lemma_first_match_at(s.drop_first(), k, i - 1);
    }
}

/// No entry of `s` has kind `k` exactly when `first_match` is `-1`.
pub proof fn lemma_first_match_none(s: Seq<AssetAmount>, k: AssetKind)
    requires
        forall|j: int| 0 <= j < s.len() ==> !kind_eq(s[j].kind, k),
    ensures
        first_match(s, k) == -1,
    decreases s.len(),
{
    if s.len() != 0 {
        assert forall|j: int| 0 <= j < s.drop_first().len() implies !kind_eq(
            s.drop_first()[j].kind,
            k,
        ) by {
            assert(s.drop_first()[j] == s[j + 1]);
        }
        lemma_first_match_none(s.drop_first(), k);
    }
}

/// `s` with every zero-amount entry dropped, order kept.
pub open spec fn purged(s: Seq<AssetAmount>) -> Seq<AssetAmount> {
    s.filter(|a: AssetAmount| a.amount != 0)
}

/// `s` with `a` merged in as [`AssetSet::add`] does it: added onto the
/// first entry of `a`'s kind, or appended, with zero entries then dropped.
/// Meaningful when the touched amount stays within the ledger's width.
pub open spec fn merged(s: Seq<AssetAmount>, a: AssetAmount) -> Seq<AssetAmount> {
    if has_kind(s, a.kind) {
        purged(
            s.update(
                first_match(s, a.kind),
                AssetAmount {
                    kind: s[first_match(s, a.kind)].kind,
                    amount: (s[first_match(s, a.kind)].amount + a.amount) as u128,
                },
            ),
        )
    } else {
        purged(s.push(a))
    }
}

/// `s` with `a`'s amount removed as [`AssetSet::deduct`] does it: taken
/// off the first entry of `a`'s kind, with zero entries then dropped.
/// Meaningful when such an entry exists and holds at least `a.amount`.
pub open spec fn deducted(s: Seq<AssetAmount>, a: AssetAmount) -> Seq<AssetAmount> {
    purged(
        s.update(
            first_match(s, a.kind),
            AssetAmount {
                kind: s[first_match(s, a.kind)].kind,
                amount: (s[first_match(s, a.kind)].amount - a.amount) as u128,
            },
        ),
    )
}

/// No two entries share a kind.
pub open spec fn kinds_unique(s: Seq<AssetAmount>) -> bool {
    forall|i: int, j: int|
        0 <= i < j < s.len() ==> !kind_eq(#[trigger] s[i].kind, #[trigger] s[j].kind)
}

/// An ordered collection of asset amounts. Lookup, merge and removal all go
/// by the first entry of the sought kind; well-formed sets (see
/// [`kinds_unique`]) have at most one entry per kind.
#[derive(Debug, PartialEq, Eq)]
pub struct AssetSet {
    entries: Vec<AssetAmount>,
}

impl Clone for AssetSet {
    fn clone(&self) -> (r: Self)
        ensures
            r@ == self@,
    {
        let n = self.entries.len();
        let mut copied: Vec<AssetAmount> = Vec::new();
        let mut i: usize = 0;
        while i < n
            invariant
                0 <= i <= n,
                n == self.entries@.len(),
                copied@ == self.entries@.take(i as int),
            decreases n - i,
        {
            copied.push(self.entries[i].clone());
            proof {
                assert(copied@ =~= self.entries@.take(i + 1));
            }
            i += 1;
        }
        proof {
            assert(self.entries@.take(n as int) =~= self.entries@);
        }
        AssetSet { entries: copied }
    }
}

impl View for AssetSet {
    type V = Seq<AssetAmount>;

    closed spec fn view(&self) -> Seq<AssetAmount> {
        self.entries@
    }
}

impl AssetSet {
    pub fn new() -> (r: AssetSet)
        ensures
            r@ == Seq::<AssetAmount>::empty(),
    {
        AssetSet { entries: Vec::new() }
    }

    pub fn from_vec(entries: Vec<AssetAmount>) -> (r: AssetSet)
        ensures
            r@ == entries@,
    {
        AssetSet { entries }
    }

    pub fn len(&self) -> (r: usize)
        ensures
            r == self@.len(),
    {
        self.entries.len()
    }

    pub fn entries(&self) -> (r: &Vec<AssetAmount>)
        ensures
            r@ == self@,
    {
        &self.entries
    }

    pub fn get(&self, i: usize) -> (r: &AssetAmount)
        requires
            i < self@.len(),
        ensures
            *r == self@[i as int],
    {
        &self.entries[i]
    }

    /// Index of the first entry whose kind is `*k`, if any.
    pub fn index_of(&self, k: &AssetKind) -> (r: Option<usize>)
        ensures
            match r {
                Some(i) => i as int == first_match(self@, *k) && i < self@.len(),
                None => first_match(self@, *k) == -1,
            },
    {
        let n = self.entries.len();
        let mut i: usize = 0;
        while i < n
            invariant
                0 <= i <= n,
                n == self@.len(),
                forall|j: int| 0 <= j < i ==> !kind_eq(self@[j].kind, *k),
            decreases n - i,
        {
            if self.entries[i].kind.matches(k) {
                proof {
                    lemma_first_match_at(self@, *k, i as int);
                }
                return Some(i);
            }
            i += 1;
        }
        proof {
            lemma_first_match_none(self@, *k);
        }
        None
    }

    /// The amount held of kind `*k`, zero when the set has no such entry.
    pub fn amount_of_kind(&self, k: &AssetKind) -> (r: u128)
        ensures
            r as int == amount_of(self@, *k),
    {
        match self.index_of(k) {
            Some(i) => self.entries[i].amount,
            None => 0,
        }
    }

    /// Merge `a` into the set: added onto the first entry of the same kind,
    /// or appended; zero-amount entries are then dropped. Fails on amount
    /// overflow, leaving the set unchanged.
    pub fn add(&mut self, a: &AssetAmount) -> (r: Result<(), ZapError>)
        ensures
            match r {
                Ok(()) => {
                    &&& has_kind(old(self)@, a.kind) ==> old(self)@[first_match(
                        old(self)@,
                        a.kind,
                    )].amount + a.amount <= u128::MAX
                    &&& final(self)@ == merged(old(self)@, *a)
                },
                Err(e) => {
                    &&& e matches ZapError::Overflow
                    &&& has_kind(old(self)@, a.kind)
                    &&& old(self)@[first_match(old(self)@, a.kind)].amount + a.amount > u128::MAX
                    &&& final(self)@ == old(self)@
                },
            },
    {
        match self.index_of(&a.kind) {
            Some(i) => {
                let cur = self.entries[i].amount;
                match cur.checked_add(a.amount) {
                    Some(sum) => {
                        let kind = self.entries[i].kind.clone();
                        self.entries.set(i, AssetAmount { kind, amount: sum });
                        self.purge();
                        Ok(())
                    },
                    None => Err(ZapError::Overflow),
                }
            },
            None => {
                self.entries.push(a.clone());
                self.purge();
                Ok(())
            },
        }
    }

    /// Remove `a`'s amount from the first entry of its kind; zero-amount
    /// entries are then dropped. Fails when no such entry exists or the
    /// entry holds too little, leaving the set unchanged.
    pub fn deduct(&mut self, a: &AssetAmount) -> (r: Result<(), ZapError>)
        ensures
            match r {
                Ok(()) => {
                    &&& has_kind(old(self)@, a.kind)
                    &&& a.amount <= old(self)@[first_match(old(self)@, a.kind)].amount
                    &&& final(self)@ == deducted(old(self)@, *a)
                },
                Err(e) => {
                    &&& final(self)@ == old(self)@
                    &&& if has_kind(old(self)@, a.kind) {
                        &&& e matches ZapError::Underflow
                        &&& old(self)@[first_match(old(self)@, a.kind)].amount < a.amount
                    } else {
                        e matches ZapError::AssetNotFound(kk) && kk == a.kind
                    }
                },
            },
    {
        match self.index_of(&a.kind) {
            Some(i) => {
                let cur = self.entries[i].amount;
                if cur < a.amount {
                    Err(ZapError::Underflow)
                } else {
                    let kind = self.entries[i].kind.clone();
                    self.entries.set(i, AssetAmount { kind, amount: cur - a.amount });
                    self.purge();
                    Ok(())
                }
            },
            None => Err(ZapError::AssetNotFound(a.kind.clone())),
        }
    }

    /// Drop every zero-amount entry, keeping the order of the rest.
    pub fn purge(&mut self)
        ensures
            final(self)@ == purged(old(self)@),
    {
        let n = self.entries.len();
        let mut kept: Vec<AssetAmount> = Vec::new();
        let mut i: usize = 0;
        while i < n
            invariant
                0 <= i <= n,
                n == self.entries@.len(),
                kept@ == self.entries@.take(i as int).filter(|a: AssetAmount| a.amount != 0),
            decreases n - i,
        {
            if self.entries[i].amount != 0 {
                kept.push(self.entries[i].clone());
            }
            proof {
                reveal_with_fuel(Seq::<_>::filter, 2);
                assert(self.entries@.take(i + 1).drop_last() =~= self.entries@.take(i as int));
                assert(self.entries@.take(i + 1).last() == self.entries@[i as int]);
                assert(kept@ =~= self.entries@.take(i + 1).filter(
                    |a: AssetAmount| a.amount != 0,
                ));
            }
            i += 1;
        }
        proof {
            assert(self.entries@.take(n as int) =~= self.entries@);
        }
        self.entries = kept;
    }
}

} // verus!
