//! The access-control ledger: asset listings, access grants and balances,
//! keyed by derived addresses.
//!
//! The ledger is an explicit key-value store exposing create-if-absent and
//! read, never blanket mutation, so the create-once invariants of the data
//! model hold by construction: at most one asset record per derived address,
//! and at most one access grant per `(asset, user)` pair. Every operation is
//! all-or-nothing: any error leaves the ledger exactly as it was.

use vstd::prelude::*;

use crate::address::{
    asset_address, asset_bump, grant_address, grant_bump, derive_address, asset_tag_vec,
    access_tag_vec, content_prefix, ADDRESS_LEN,
};
use crate::bytes::{bytes_equal, clone_bytes};
use crate::IDENTITY_LEN;

verus! {

/// Why a ledger operation was refused. Any error leaves the ledger unchanged.
#[derive(Debug, Clone, Copy, PartialEq, Eq)]
pub enum LedgerError {
    /// The creator identity handed in does not equal the asset's owner.
    OwnerMismatch,
    /// A record already exists at the derived asset address.
    AddressOccupied,
    /// An access grant already exists for this `(asset, user)` pair.
    DuplicateGrant,
    /// The value transfer could not be carried out in full.
    TransferFailed,
}

/// A listed asset: who owns it, its price, and the content it names.
#[derive(Debug)]
pub struct Asset {
    /// Identity of the creator who listed the asset.
    pub owner: Vec<u8>,
    /// Price in the smallest value unit.
    pub price: u64,
    /// Identifier of the off-system content blob.
    pub content_id: Vec<u8>,
    /// Derived address the record lives at.
    pub address: Vec<u8>,
    /// Derivation discriminator byte.
    pub bump: u8,
}

impl Asset {
    /// A well-formed asset: a 32-byte owner identity, and an address and
    /// bump that really are the ones derived from owner and content id.
    pub open spec fn wf(self) -> bool {
        &&& self.owner@.len() == IDENTITY_LEN
        &&& self.address@ == asset_address(self.owner@, self.content_id@)
        &&& self.bump == asset_bump(self.owner@, self.content_id@)
    }
}

/// An access grant: proof that `user` is authorized for the asset
/// whose record lives at `asset`.
#[derive(Debug)]
pub struct AccessState {
    /// Address of the asset record the grant is bound to.
    pub asset: Vec<u8>,
    /// Identity of the grantee.
    pub user: Vec<u8>,
    /// Derived address the grant record lives at.
    pub address: Vec<u8>,
    /// Derivation discriminator byte.
    pub bump: u8,
}

impl AccessState {
    /// A well-formed grant: 32-byte references, and an address and bump
    /// derived from the `(asset, user)` pair.
    pub open spec fn wf(self) -> bool {
        &&& self.asset@.len() == ADDRESS_LEN
        &&& self.user@.len() == IDENTITY_LEN
        &&& self.address@ == grant_address(self.asset@, self.user@)
        &&& self.bump == grant_bump(self.asset@, self.user@)
    }
}

/// One identity's balance, in the smallest value unit.
#[derive(Debug)]
pub struct Balance {
    /// The identity the balance belongs to.
    pub who: Vec<u8>,
    /// How much it holds.
    pub amount: u64,
}

/// First asset record with the given address, if any.
pub open spec fn asset_lookup(s: Seq<Asset>, addr: Seq<u8>) -> Option<Asset>
    decreases s.len(),
{
    if s.len() == 0 {
        None
    } else if s[0].address@ == addr {
        Some(s[0])
    } else {
        asset_lookup(s.drop_first(), addr)
    }
}

/// First grant record with the given address, if any.
pub open spec fn grant_lookup(s: Seq<AccessState>, addr: Seq<u8>) -> Option<AccessState>
    decreases s.len(),
{
    if s.len() == 0 {
        None
    } else if s[0].address@ == addr {
        Some(s[0])
    } else {
        grant_lookup(s.drop_first(), addr)
    }
}

/// First balance entry of the given identity, if any.
pub open spec fn bal_lookup(s: Seq<Balance>, who: Seq<u8>) -> Option<Balance>
    decreases s.len(),
{
    if s.len() == 0 {
        None
    } else if s[0].who@ == who {
        Some(s[0])
    } else {
        bal_lookup(s.drop_first(), who)
    }
}

/// The ledger state: every asset record, every grant record, and the
/// balance of every identity that holds value.
pub struct Ledger {
    /// Asset records, one per derived asset address.
    pub assets: Vec<Asset>,
    /// Grant records, one per derived grant address.
    pub grants: Vec<AccessState>,
    /// Balances; an identity without an entry holds zero.
    pub balances: Vec<Balance>,
}

impl Ledger {
    /// The ledger's invariant: every record well formed, and no derived
    /// address or balance key occurs twice.
    pub open spec fn wf(self) -> bool {
        &&& forall|i: int| 0 <= i < self.assets@.len() ==> (#[trigger] self.assets@[i]).wf()
        &&& forall|i: int, j: int|
            0 <= i < j < self.assets@.len() ==> (#[trigger] self.assets@[i]).address@ != (
            #[trigger] self.assets@[j]).address@
        &&& forall|i: int| 0 <= i < self.grants@.len() ==> (#[trigger] self.grants@[i]).wf()
        &&& forall|i: int, j: int|
            0 <= i < j < self.grants@.len() ==> (#[trigger] self.grants@[i]).address@ != (
            #[trigger] self.grants@[j]).address@
        &&& forall|i: int|
            0 <= i < self.balances@.len() ==> (#[trigger] self.balances@[i]).who@.len()
                == IDENTITY_LEN
        &&& forall|i: int, j: int|
            0 <= i < j < self.balances@.len() ==> (#[trigger] self.balances@[i]).who@ != (
            #[trigger] self.balances@[j]).who@
    }

    /// Whether an asset record exists at `addr`.
    pub open spec fn has_asset(self, addr: Seq<u8>) -> bool {
        asset_lookup(self.assets@, addr) is Some
    }

    /// The asset record at `addr` (meaningful only when `has_asset`).
    pub open spec fn asset_at(self, addr: Seq<u8>) -> Asset {
        asset_lookup(self.assets@, addr)->Some_0
    }

    /// Whether a grant record exists at `addr`.
    pub open spec fn has_grant(self, addr: Seq<u8>) -> bool {
        grant_lookup(self.grants@, addr) is Some
    }

    /// The grant record at `addr` (meaningful only when `has_grant`).
    pub open spec fn grant_at(self, addr: Seq<u8>) -> AccessState {
        grant_lookup(self.grants@, addr)->Some_0
    }

    /// The balance of an identity; zero when it has no entry.
    pub open spec fn balance_of(self, who: Seq<u8>) -> u64 {
        match bal_lookup(self.balances@, who) {
            Some(b) => b.amount,
            None => 0,
        }
    }

    /// Whether `amount` can move from `from` to `to` in full: `from` holds
    /// enough, and the credit does not overflow the receiver.
    pub open spec fn can_transfer(self, from: Seq<u8>, to: Seq<u8>, amount: u64) -> bool {
        &&& self.balance_of(from) >= amount
        &&& (from == to || self.balance_of(to) + amount <= u64::MAX)
    }

    /// Whether two ledger states hold exactly the same records and balances.
    pub open spec fn same_state(self, other: Ledger) -> bool {
        &&& other.assets@ == self.assets@
        &&& other.grants@ == self.grants@
        &&& other.balances@ == self.balances@
    }
}

proof fn lemma_asset_lookup_push(s: Seq<Asset>, a: Asset, x: Seq<u8>)
    ensures
        asset_lookup(s.push(a), x) == (if asset_lookup(s, x) is Some {
            asset_lookup(s, x)
        } else if a.address@ == x {
            Some(a)
        } else {
            None::<Asset>
        }),
    decreases s.len(),
{
    if s.len() == 0 {
        assert(s.push(a)[0] == a);
        assert(s.push(a).drop_first() =~= Seq::<Asset>::empty());
    } else {
        assert(s.push(a)[0] == s[0]);
        assert(s.push(a).drop_first() =~= s.drop_first().push(a));
        lemma_asset_lookup_push(s.drop_first(), a, x);
    }
}

proof fn lemma_asset_lookup_none_all(s: Seq<Asset>, x: Seq<u8>)
    requires
        asset_lookup(s, x) is None,
    ensures
        forall|i: int| 0 <= i < s.len() ==> (#[trigger] s[i]).address@ != x,
    decreases s.len(),
{
    if s.len() > 0 {
        lemma_asset_lookup_none_all(s.drop_first(), x);
        assert forall|i: int| 0 <= i < s.len() implies (#[trigger] s[i]).address@ != x by {
            if i > 0 {
                assert(s[i] == s.drop_first()[i - 1]);
            }
        }
    }
}

proof fn lemma_grant_lookup_push(s: Seq<AccessState>, g: AccessState, x: Seq<u8>)
    ensures
        grant_lookup(s.push(g), x) == (if grant_lookup(s, x) is Some {
            grant_lookup(s, x)
        } else if g.address@ == x {
            Some(g)
        } else {
            None::<AccessState>
        }),
    decreases s.len(),
{
    if s.len() == 0 {
        assert(s.push(g)[0] == g);
        assert(s.push(g).drop_first() =~= Seq::<AccessState>::empty());
    } else {
        assert(s.push(g)[0] == s[0]);
        assert(s.push(g).drop_first() =~= s.drop_first().push(g));
        lemma_grant_lookup_push(s.drop_first(), g, x);
    }
}

proof fn lemma_grant_lookup_none_all(s: Seq<AccessState>, x: Seq<u8>)
    requires
        grant_lookup(s, x) is None,
    ensures
        forall|i: int| 0 <= i < s.len() ==> (#[trigger] s[i]).address@ != x,
    decreases s.len(),
{
    if s.len() > 0 {
        lemma_grant_lookup_none_all(s.drop_first(), x);
        assert forall|i: int| 0 <= i < s.len() implies (#[trigger] s[i]).address@ != x by {
            if i > 0 {
                assert(s[i] == s.drop_first()[i - 1]);
            }
        }
    }
}

proof fn lemma_bal_lookup_push(s: Seq<Balance>, b: Balance, w: Seq<u8>)
    ensures
        bal_lookup(s.push(b), w) == (if bal_lookup(s, w) is Some {
            bal_lookup(s, w)
        } else if b.who@ == w {
            Some(b)
        } else {
            None::<Balance>
        }),
    decreases s.len(),
{
    if s.len() == 0 {
        assert(s.push(b)[0] == b);
        assert(s.push(b).drop_first() =~= Seq::<Balance>::empty());
    } else {
        assert(s.push(b)[0] == s[0]);
        assert(s.push(b).drop_first() =~= s.drop_first().push(b));
        lemma_bal_lookup_push(s.drop_first(), b, w);
    }
}

proof fn lemma_bal_lookup_none_all(s: Seq<Balance>, w: Seq<u8>)
    requires
        bal_lookup(s, w) is None,
    ensures
        forall|i: int| 0 <= i < s.len() ==> (#[trigger] s[i]).who@ != w,
    decreases s.len(),
{
    if s.len() > 0 {
        lemma_bal_lookup_none_all(s.drop_first(), w);
        assert forall|i: int| 0 <= i < s.len() implies (#[trigger] s[i]).who@ != w by {
            if i > 0 {
                assert(s[i] == s.drop_first()[i - 1]);
            }
        }
    }
}

proof fn lemma_bal_lookup_update(s: Seq<Balance>, i: int, nb: Balance, w: Seq<u8>)
    requires
        0 <= i < s.len(),
        nb.who@ == s[i].who@,
        forall|j: int| 0 <= j < i ==> (#[trigger] s[j]).who@ != s[i].who@,
    ensures
        bal_lookup(s.update(i, nb), w) == (if w == s[i].who@ {
            Some(nb)
        } else {
            bal_lookup(s, w)
        }),
    decreases s.len(),
{
    if i == 0 {
        assert(s.update(0, nb)[0] == nb);
        assert(s.update(0, nb).drop_first() =~= s.drop_first());
    } else {
        assert(s.update(i, nb)[0] == s[0]);
        assert(s.update(i, nb).drop_first() =~= s.drop_first().update(i - 1, nb));
        assert forall|j: int| 0 <= j < i - 1 implies (#[trigger] s.drop_first()[j]).who@
            != s.drop_first()[i - 1].who@ by {
            assert(s.drop_first()[j] == s[j + 1]);
        }
        lemma_bal_lookup_update(s.drop_first(), i - 1, nb, w);
    }
}

impl Ledger {
    /// An empty ledger: no assets, no grants, no balances.
    pub fn new() -> (r: Ledger)
        ensures
            r.wf(),
            r.assets@.len() == 0,
            r.grants@.len() == 0,
            r.balances@.len() == 0,
    {
        Ledger { assets: Vec::new(), grants: Vec::new(), balances: Vec::new() }
    }

    fn find_asset_index(&self, addr: &Vec<u8>) -> (r: Option<usize>)
        ensures
            match r {
                Some(i) => i < self.assets@.len() && asset_lookup(self.assets@, addr@) == Some(
                    self.assets@[i as int],
                ),
                None => asset_lookup(self.assets@, addr@) is None,
            },
    {
        let mut i: usize = 0;
        proof {
            assert(self.assets@.skip(0) =~= self.assets@);
        }
        while i < self.assets.len()
            invariant
                0 <= i <= self.assets@.len(),
                asset_lookup(self.assets@, addr@) == asset_lookup(
                    self.assets@.skip(i as int),
                    addr@,
                ),
            decreases self.assets@.len() - i,
        {
            proof {
                assert(self.assets@.skip(i as int)[0] == self.assets@[i as int]);
                assert(self.assets@.skip(i as int).drop_first() =~= self.assets@.skip(
                    i as int + 1,
                ));
            }
            if bytes_equal(&self.assets[i].address, addr) {
                return Some(i);
            }
            i = i + 1;
        }
        proof {
            assert(self.assets@.skip(self.assets@.len() as int) =~= Seq::<Asset>::empty());
        }
        None
    }

    fn find_grant_index(&self, addr: &Vec<u8>) -> (r: Option<usize>)
        ensures
            match r {
                Some(i) => i < self.grants@.len() && grant_lookup(self.grants@, addr@) == Some(
                    self.grants@[i as int],
                ),
                None => grant_lookup(self.grants@, addr@) is None,
            },
    {
        let mut i: usize = 0;
        proof {
            assert(self.grants@.skip(0) =~= self.grants@);
        }
        while i < self.grants.len()
            invariant
                0 <= i <= self.grants@.len(),
                grant_lookup(self.grants@, addr@) == grant_lookup(
                    self.grants@.skip(i as int),
                    addr@,
                ),
            decreases self.grants@.len() - i,
        {
            proof {
                assert(self.grants@.skip(i as int)[0] == self.grants@[i as int]);
                assert(self.grants@.skip(i as int).drop_first() =~= self.grants@.skip(
                    i as int + 1,
                ));
            }
            if bytes_equal(&self.grants[i].address, addr) {
                return Some(i);
            }
            i = i + 1;
        }
        proof {
            assert(self.grants@.skip(self.grants@.len() as int) =~= Seq::<AccessState>::empty());
        }
        None
    }

    fn find_balance_index(&self, who: &Vec<u8>) -> (r: Option<usize>)
        ensures
            match r {
                Some(i) => {
                    &&& i < self.balances@.len()
                    &&& bal_lookup(self.balances@, who@) == Some(self.balances@[i as int])
                    &&& self.balances@[i as int].who@ == who@
                    &&& forall|j: int|
                        0 <= j < i ==> (#[trigger] self.balances@[j]).who@
                            != self.balances@[i as int].who@
                },
                None => bal_lookup(self.balances@, who@) is None,
            },
    {
        let mut i: usize = 0;
        proof {
            assert(self.balances@.skip(0) =~= self.balances@);
        }
        while i < self.balances.len()
            invariant
                0 <= i <= self.balances@.len(),
                bal_lookup(self.balances@, who@) == bal_lookup(
                    self.balances@.skip(i as int),
                    who@,
                ),
                forall|j: int| 0 <= j < i ==> (#[trigger] self.balances@[j]).who@ != who@,
            decreases self.balances@.len() - i,
        {
            proof {
                assert(self.balances@.skip(i as int)[0] == self.balances@[i as int]);
                assert(self.balances@.skip(i as int).drop_first() =~= self.balances@.skip(
                    i as int + 1,
                ));
            }
            if bytes_equal(&self.balances[i].who, who) {
                return Some(i);
            }
            i = i + 1;
        }
        proof {
            assert(self.balances@.skip(self.balances@.len() as int) =~= Seq::<Balance>::empty());
        }
        None
    }

    /// Whether an asset record exists at this address.
    pub fn contains_asset(&self, addr: &Vec<u8>) -> (r: bool)
        ensures
            r == self.has_asset(addr@),
    {
        self.find_asset_index(addr).is_some()
    }

    /// Whether a grant record exists at this address.
    pub fn contains_grant(&self, addr: &Vec<u8>) -> (r: bool)
        ensures
            r == self.has_grant(addr@),
    {
        self.find_grant_index(addr).is_some()
    }

    /// Read the asset record at an address, if one exists.
    pub fn get_asset(&self, addr: &Vec<u8>) -> (r: Option<&Asset>)
        ensures
            match r {
                Some(a) => self.has_asset(addr@) && *a == self.asset_at(addr@),
                None => !self.has_asset(addr@),
            },
    {
        match self.find_asset_index(addr) {
            Some(i) => Some(&self.assets[i]),
            None => None,
        }
    }

    /// Read the grant record at an address, if one exists.
    pub fn get_grant(&self, addr: &Vec<u8>) -> (r: Option<&AccessState>)
        ensures
            match r {
                Some(g) => self.has_grant(addr@) && *g == self.grant_at(addr@),
                None => !self.has_grant(addr@),
            },
    {
        match self.find_grant_index(addr) {
            Some(i) => Some(&self.grants[i]),
            None => None,
        }
    }

    /// Read an identity's balance; an identity without an entry holds zero.
    pub fn balance(&self, who: &Vec<u8>) -> (r: u64)
        ensures
            r == self.balance_of(who@),
    {
        match self.find_balance_index(who) {
            Some(i) => self.balances[i].amount,
            None => 0,
        }
    }

    /// Set an identity's balance to exactly `amount`, leaving every other
    /// balance and all records as they were.
    fn set_balance(&mut self, who: &Vec<u8>, amount: u64)
        requires
            old(self).wf(),
            who@.len() == IDENTITY_LEN,
        ensures
            final(self).wf(),
            final(self).assets@ == old(self).assets@,
            final(self).grants@ == old(self).grants@,
            forall|w: Seq<u8>|
                final(self).balance_of(w) == (if w == who@ {
                    amount
                } else {
                    old(self).balance_of(w)
                }),
    {
        match self.find_balance_index(who) {
            Some(i) => {
                let nb = Balance { who: clone_bytes(who), amount };
                proof {
                    assert(old(self).balances@.remove(i as int).insert(i as int, nb)
                        =~= old(self).balances@.update(i as int, nb));
                }
                self.balances.remove(i);
                self.balances.insert(i, nb);
                proof {
                    let s = old(self).balances@;
                    lemma_bal_lookup_update(s, i as int, nb, who@);
                    assert forall|w: Seq<u8>| final(self).balance_of(w) == (if w == who@ {
                        amount
                    } else {
                        old(self).balance_of(w)
                    }) by {
                        lemma_bal_lookup_update(s, i as int, nb, w);
                    }
                }
            },
            None => {
                let nb = Balance { who: clone_bytes(who), amount };
                self.balances.push(nb);
                proof {
                    let s = old(self).balances@;
                    lemma_bal_lookup_none_all(s, who@);
                    assert forall|w: Seq<u8>| final(self).balance_of(w) == (if w == who@ {
                        amount
                    } else {
                        old(self).balance_of(w)
                    }) by {
                        lemma_bal_lookup_push(s, nb, w);
                    }
                }
            },
        }
    }

    /// Credit an identity with `amount`, creating its balance entry if it
    /// has none. Returns false, changing nothing, exactly when the credit
    /// would overflow the balance.
    pub fn fund(&mut self, who: &Vec<u8>, amount: u64) -> (ok: bool)
        requires
            old(self).wf(),
            who@.len() == IDENTITY_LEN,
        ensures
            final(self).wf(),
            final(self).assets@ == old(self).assets@,
            final(self).grants@ == old(self).grants@,
            ok == (old(self).balance_of(who@) + amount <= u64::MAX),
            ok ==> forall|w: Seq<u8>|
                final(self).balance_of(w) == (if w == who@ {
                    (old(self).balance_of(who@) + amount) as u64
                } else {
                    old(self).balance_of(w)
                }),
            !ok ==> final(self).balances@ == old(self).balances@,
    {
        let cur = self.balance(who);
        if amount > u64::MAX - cur {
            return false;
        }
        self.set_balance(who, cur + amount);
        true
    }

    /// Move `amount` from `from` to `to`, in full or not at all. Returns
    /// false, changing nothing, exactly when `from` holds too little or the
    /// credit would overflow the receiver's balance.
    fn transfer(&mut self, from: &Vec<u8>, to: &Vec<u8>, amount: u64) -> (ok: bool)
        requires
            old(self).wf(),
            from@.len() == IDENTITY_LEN,
            to@.len() == IDENTITY_LEN,
        ensures
            final(self).wf(),
            final(self).assets@ == old(self).assets@,
            final(self).grants@ == old(self).grants@,
            ok == old(self).can_transfer(from@, to@, amount),
            !ok ==> final(self).balances@ == old(self).balances@,
            ok ==> forall|w: Seq<u8>|
                final(self).balance_of(w) == (if from@ == to@ {
                    old(self).balance_of(w)
                } else if w == from@ {
                    (old(self).balance_of(w) - amount) as u64
                } else if w == to@ {
                    (old(self).balance_of(w) + amount) as u64
                } else {
                    old(self).balance_of(w)
                }),
    {
        let bal_from = self.balance(from);
        if bal_from < amount {
            return false;
        }
        if bytes_equal(from, to) {
            return true;
        }
        let bal_to = self.balance(to);
        if amount > u64::MAX - bal_to {
            return false;
        }
        self.set_balance(from, bal_from - amount);
        self.set_balance(to, bal_to + amount);
        true
    }

    /// List an asset: derive its address from the creator identity and the
    /// content identifier's leading bytes, and create the record there,
    /// failing if the address is already occupied. No payment is involved.
    ///
    /// Calling this twice with the same `(creator, content_id)` seeds yields
    /// success and then `AddressOccupied`: the first call makes
    /// `has_asset` true at the derived address, and the error case below is
    /// an exact iff over that same address.
    pub fn init_asset(&mut self, creator: &Vec<u8>, price: u64, content_id: &Vec<u8>) -> (r:
        Result<(), LedgerError>)
        requires
            old(self).wf(),
            creator@.len() == IDENTITY_LEN,
        ensures
            final(self).wf(),
            final(self).grants@ == old(self).grants@,
            final(self).balances@ == old(self).balances@,
            r is Ok <==> !old(self).has_asset(asset_address(creator@, content_id@)),
            r is Err ==> r == Err::<(), LedgerError>(LedgerError::AddressOccupied)
                && final(self).assets@ == old(self).assets@,
            r is Ok ==> ({
                let addr = asset_address(creator@, content_id@);
                &&& final(self).has_asset(addr)
                &&& final(self).asset_at(addr).owner@ == creator@
                &&& final(self).asset_at(addr).price == price
                &&& final(self).asset_at(addr).content_id@ == content_id@
                &&& final(self).asset_at(addr).address@ == addr
                &&& final(self).asset_at(addr).bump == asset_bump(creator@, content_id@)
                &&& final(self).assets@.len() == old(self).assets@.len() + 1
                &&& forall|x: Seq<u8>|
                    x != addr ==> asset_lookup(final(self).assets@, x) == asset_lookup(
                        old(self).assets@,
                        x,
                    )
            }),
    {
        let tag = asset_tag_vec();
        let prefix = content_prefix(content_id);
        let (addr_v, bump) = derive_address(&tag, creator, &prefix);
        if self.contains_asset(&addr_v) {
            return Err(LedgerError::AddressOccupied);
        }
        let a = Asset {
            owner: clone_bytes(creator),
            price,
            content_id: clone_bytes(content_id),
            address: addr_v,
            bump,
        };
        let ghost ga = a;
        let ghost s = self.assets@;
        let ghost addr = asset_address(creator@, content_id@);
        self.assets.push(a);
        proof {
            assert(ga.wf());
            lemma_asset_lookup_none_all(s, addr);
            lemma_asset_lookup_push(s, ga, addr);
            assert forall|x: Seq<u8>| x != addr implies asset_lookup(self.assets@, x)
                == asset_lookup(s, x) by {
                lemma_asset_lookup_push(s, ga, x);
            }
            assert forall|i: int, j: int| 0 <= i < j < self.assets@.len() implies (
            #[trigger] self.assets@[i]).address@ != (#[trigger] self.assets@[j]).address@ by {
                if j == s.len() as int {
                    assert(self.assets@[i] == s[i]);
                    assert(self.assets@[j] == ga);
                }
            }
        }
        Ok(())
    }

    /// Buy an asset: check that the supplied creator identity is the asset's
    /// owner, refuse a duplicate grant, move the price from the buyer to the
    /// owner, and create the access grant at its derived address,
    /// all-or-nothing. The owner check comes before any value movement, so a
    /// failed authorization never moves funds; and if the grant already
    /// exists or the transfer cannot go through in full, the ledger is left
    /// exactly as it was.
    #[verifier::rlimit(100)]
    pub fn buy_asset(&mut self, buyer: &Vec<u8>, creator: &Vec<u8>, asset: &Asset) -> (r: Result<
        (),
        LedgerError,
    >)
        requires
            old(self).wf(),
            buyer@.len() == IDENTITY_LEN,
            creator@.len() == IDENTITY_LEN,
            asset.wf(),
        ensures
            final(self).wf(),
            r is Err ==> old(self).same_state(*final(self)),
            match r {
                Ok(_) => creator@ == asset.owner@ && old(self).can_transfer(
                    buyer@,
                    asset.owner@,
                    asset.price,
                ) && !old(self).has_grant(grant_address(asset.address@, buyer@)),
                Err(e) => match e {
                    LedgerError::OwnerMismatch => creator@ != asset.owner@,
                    LedgerError::DuplicateGrant => creator@ == asset.owner@ && old(
                        self,
                    ).has_grant(grant_address(asset.address@, buyer@)),
                    LedgerError::TransferFailed => creator@ == asset.owner@ && !old(
                        self,
                    ).has_grant(grant_address(asset.address@, buyer@)) && !old(
                        self,
                    ).can_transfer(buyer@, asset.owner@, asset.price),
                    LedgerError::AddressOccupied => false,
                },
            },
            r is Ok ==> ({
                let gaddr = grant_address(asset.address@, buyer@);
                &&& final(self).has_grant(gaddr)
                &&& final(self).grant_at(gaddr).asset@ == asset.address@
                &&& final(self).grant_at(gaddr).user@ == buyer@
                &&& final(self).grant_at(gaddr).address@ == gaddr
                &&& final(self).grant_at(gaddr).bump == grant_bump(asset.address@, buyer@)
                &&& final(self).grants@.len() == old(self).grants@.len() + 1
                &&& forall|x: Seq<u8>|
                    x != gaddr ==> grant_lookup(final(self).grants@, x) == grant_lookup(
                        old(self).grants@,
                        x,
                    )
                &&& final(self).assets@ == old(self).assets@
                &&& forall|w: Seq<u8>|
                    #![trigger final(self).balance_of(w)]
                    final(self).balance_of(w) == (if buyer@ == asset.owner@ {
                        old(self).balance_of(w)
                    } else if w == buyer@ {
                        (old(self).balance_of(w) - asset.price) as u64
                    } else if w == asset.owner@ {
                        (old(self).balance_of(w) + asset.price) as u64
                    } else {
                        old(self).balance_of(w)
                    })
            }),
    {
        if !bytes_equal(creator, &asset.owner) {
            return Err(LedgerError::OwnerMismatch);
        }
        proof {
            crate::address::lemma_address_bytes_len(
                crate::address::seed_input(
                    crate::address::asset_tag(),
                    asset.owner@,
                    crate::address::prefix_bytes(
                        asset.content_id@,
                        crate::address::CONTENT_ID_PREFIX_LEN as int,
                    ),
                ),
            );
        }
        let tag = access_tag_vec();
        let (gaddr, gbump) = derive_address(&tag, &asset.address, buyer);
        if self.contains_grant(&gaddr) {
            return Err(LedgerError::DuplicateGrant);
        }
        if !self.transfer(buyer, &asset.owner, asset.price) {
            return Err(LedgerError::TransferFailed);
        }
        let ghost mid = *self;
        let g = AccessState {
            asset: clone_bytes(&asset.address),
            user: clone_bytes(buyer),
            address: gaddr,
            bump: gbump,
        };
        let ghost gg = g;
        let ghost s = old(self).grants@;
        let ghost gaddr_s = grant_address(asset.address@, buyer@);
        self.grants.push(g);
        proof {
            assert(gg.wf());
            lemma_grant_lookup_none_all(s, gaddr_s);
            lemma_grant_lookup_push(s, gg, gaddr_s);
            assert forall|x: Seq<u8>| x != gaddr_s implies grant_lookup(self.grants@, x)
                == grant_lookup(s, x) by {
                lemma_grant_lookup_push(s, gg, x);
            }
            assert forall|i: int, j: int| 0 <= i < j < self.grants@.len() implies (
            #[trigger] self.grants@[i]).address@ != (#[trigger] self.grants@[j]).address@ by {
                if j == s.len() as int {
                    assert(self.grants@[i] == s[i]);
                    assert(self.grants@[j] == gg);
                }
            }
            assert forall|w: Seq<u8>| #[trigger] self.balance_of(w) == mid.balance_of(w) by {
                assert(self.balances@ == mid.balances@);
            }
        }
        Ok(())
    }

    /// Grant access without payment: check that the supplied creator
    /// identity is the asset's owner and create the grant record at its
    /// derived address, with the same duplicate guard as the paid path.
    ///
    /// Calling this twice for the same `(asset, user)` pair yields success
    /// and then `DuplicateGrant`: the first call makes `has_grant` true at
    /// the derived grant address, and the error case below is an exact iff
    /// over that same address.
    pub fn grant_access(&mut self, creator: &Vec<u8>, asset: &Asset, user: &Vec<u8>) -> (r: Result<
        (),
        LedgerError,
    >)
        requires
            old(self).wf(),
            creator@.len() == IDENTITY_LEN,
            user@.len() == IDENTITY_LEN,
            asset.wf(),
        ensures
            final(self).wf(),
            final(self).assets@ == old(self).assets@,
            final(self).balances@ == old(self).balances@,
            r is Err ==> old(self).same_state(*final(self)),
            (creator@ != asset.owner@) <==> r == Err::<(), LedgerError>(LedgerError::OwnerMismatch),
            (creator@ == asset.owner@ && old(self).has_grant(grant_address(asset.address@, user@)))
                <==> r == Err::<(), LedgerError>(LedgerError::DuplicateGrant),
            (creator@ == asset.owner@ && !old(self).has_grant(
                grant_address(asset.address@, user@),
            )) <==> r is Ok,
            r is Ok ==> ({
                let gaddr = grant_address(asset.address@, user@);
                &&& final(self).has_grant(gaddr)
                &&& final(self).grant_at(gaddr).asset@ == asset.address@
                &&& final(self).grant_at(gaddr).user@ == user@
                &&& final(self).grant_at(gaddr).address@ == gaddr
                &&& final(self).grant_at(gaddr).bump == grant_bump(asset.address@, user@)
                &&& final(self).grants@.len() == old(self).grants@.len() + 1
                &&& forall|x: Seq<u8>|
                    x != gaddr ==> grant_lookup(final(self).grants@, x) == grant_lookup(
                        old(self).grants@,
                        x,
                    )
            }),
    {
        if !bytes_equal(creator, &asset.owner) {
            return Err(LedgerError::OwnerMismatch);
        }
        proof {
            crate::address::lemma_address_bytes_len(
                crate::address::seed_input(
                    crate::address::asset_tag(),
                    asset.owner@,
                    crate::address::prefix_bytes(
                        asset.content_id@,
                        crate::address::CONTENT_ID_PREFIX_LEN as int,
                    ),
                ),
            );
        }
        let tag = access_tag_vec();
        let (gaddr, gbump) = derive_address(&tag, &asset.address, user);
        if self.contains_grant(&gaddr) {
            return Err(LedgerError::DuplicateGrant);
        }
        let g = AccessState {
            asset: clone_bytes(&asset.address),
            user: clone_bytes(user),
            address: gaddr,
            bump: gbump,
        };
        let ghost gg = g;
        let ghost s = old(self).grants@;
        let ghost gaddr_s = grant_address(asset.address@, user@);
        self.grants.push(g);
        proof {
            assert(gg.wf());
            lemma_grant_lookup_none_all(s, gaddr_s);
            lemma_grant_lookup_push(s, gg, gaddr_s);
            assert forall|x: Seq<u8>| x != gaddr_s implies grant_lookup(self.grants@, x)
                == grant_lookup(s, x) by {
                lemma_grant_lookup_push(s, gg, x);
            }
            assert forall|i: int, j: int| 0 <= i < j < self.grants@.len() implies (
            #[trigger] self.grants@[i]).address@ != (#[trigger] self.grants@[j]).address@ by {
                if j == s.len() as int {
                    assert(self.grants@[i] == s[i]);
                    assert(self.grants@[j] == gg);
                }
            }
        }
        Ok(())
    }
}

} // verus!
