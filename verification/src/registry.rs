//! The intent store and its call surface: owner-gated mutation and
//! unauthenticated queries.

use crate::intent::IntentView;
use crate::intent::PaymentIntent;
use crate::intent::PaymentIntentInput;
use crate::intent::fulfilled_with;
use crate::intent::stored_of;
use crate::parse::parse_u128_or_zero;
use crate::parse::parse_u64_or_zero;
use vstd::prelude::*;

verus! {

/// Why a mutating call was refused.
#[derive(Clone, Copy, Debug, PartialEq, Eq, Structural)]
pub enum IntentError {
    /// The caller is not the stored owner.
    Unauthorized,
}

/// The views of a stored sequence of intents.
pub open spec fn views_of(s: Seq<PaymentIntent>) -> Seq<IntentView> {
    s.map_values(|p: PaymentIntent| p@)
}

/// The first index holding an intent under `id`, scanning in insertion order.
pub open spec fn find_first(s: Seq<IntentView>, id: Seq<char>) -> Option<int>
    decreases s.len(),
{
    if s.len() == 0 {
        None
    } else if s[0].id == id {
        Some(0)
    } else {
        match find_first(s.subrange(1, s.len() as int), id) {
            Some(j) => Some(j + 1),
            None => None,
        }
    }
}

/// The open subset of a store: the unfulfilled intents, in insertion order.
pub open spec fn open_intents(s: Seq<IntentView>) -> Seq<IntentView> {
    s.filter(|v: IntentView| !v.fulfilled)
}

/// `find_first` finds a first match: a match at the returned index, no match
/// before it, and no match at all when it returns `None`.
pub proof fn lemma_find_first_characterizes(s: Seq<IntentView>, id: Seq<char>)
    ensures
        match find_first(s, id) {
            Some(i) => 0 <= i < s.len() && s[i].id == id && forall|j: int|
                0 <= j < i ==> (#[trigger] s[j]).id != id,
            None => forall|j: int| 0 <= j < s.len() ==> (#[trigger] s[j]).id != id,
        },
    decreases s.len(),
{
    if s.len() > 0 && s[0].id != id {
        let rest = s.subrange(1, s.len() as int);
        lemma_find_first_characterizes(rest, id);
        assert forall|j: int| 1 <= j < s.len() implies (#[trigger] s[j]) == rest[j - 1] by {}
    }
}

/// Conversely, a first match at `i` is what `find_first` returns.
pub proof fn lemma_find_first_at(s: Seq<IntentView>, id: Seq<char>, i: int)
    requires
        0 <= i < s.len(),
        s[i].id == id,
        forall|j: int| 0 <= j < i ==> (#[trigger] s[j]).id != id,
    ensures
        find_first(s, id) == Some(i),
    decreases s.len(),
{
    if i > 0 {
        let rest = s.subrange(1, s.len() as int);
        assert(rest[i - 1] == s[i]);
        assert forall|j: int| 0 <= j < i - 1 implies (#[trigger] rest[j]).id != id by {
            assert(rest[j] == s[j + 1]);
        }
        lemma_find_first_at(rest, id, i - 1);
    }
}

/// The registry: the ordered intent collection and the one identity allowed
/// to mutate it. Intents are only ever appended or marked fulfilled, never
/// removed; insertion order is the only order any query relies on.
pub struct Contract {
    intents: Vec<PaymentIntent>,
    owner: String,
}

/// The mathematical value of a [`Contract`].
#[verifier::ext_equal]
pub ghost struct ContractView {
    pub intents: Seq<IntentView>,
    pub owner: Seq<char>,
}

impl View for Contract {
    type V = ContractView;

    closed spec fn view(&self) -> ContractView {
        ContractView { intents: views_of(self.intents@), owner: self.owner@ }
    }
}

impl Contract {
    /// An empty registry owned by `owner`; the owner is immutable thereafter.
    pub fn new(owner: String) -> (c: Contract)
        ensures
            c@.intents == Seq::<IntentView>::empty(),
            c@.owner == owner@,
    {
        let c = Contract { intents: Vec::new(), owner };
        proof {
            assert(c@.intents =~= Seq::<IntentView>::empty());
        }
        c
    }

    /// A registry rebuilt from persisted state: the stored intents in their
    /// insertion order, and the owner identity.
    pub fn from_parts(intents: Vec<PaymentIntent>, owner: String) -> (c: Contract)
        ensures
            c@.intents == views_of(intents@),
            c@.owner == owner@,
    {
        Contract { intents, owner }
    }

    /// The stored intents, in insertion order.
    pub fn intents(&self) -> (r: &Vec<PaymentIntent>)
        ensures
            views_of(r@) == self@.intents,
    {
        &self.intents
    }

    /// The owner identity, fixed at initialization.
    pub fn owner(&self) -> (r: &String)
        ensures
            r@ == self@.owner,
    {
        &self.owner
    }

    /// The access gate for mutating calls: permits exactly the stored owner,
    /// and refuses anyone else with `Unauthorized`.
    pub fn authorize(&self, caller: &String) -> (r: Result<(), IntentError>)
        ensures
            r is Ok <==> caller@ == self@.owner,
            r is Err ==> r == Err::<(), IntentError>(IntentError::Unauthorized),
    {
        if *caller == self.owner {
            Ok(())
        } else {
            Err(IntentError::Unauthorized)
        }
    }

    /// The first index holding `id`, in insertion order, if any.
    pub fn find_by_id(&self, id: &String) -> (r: Option<usize>)
        ensures
            match r {
                Some(i) => find_first(self@.intents, id@) == Some(i as int),
                None => find_first(self@.intents, id@) is None,
            },
    {
        let mut i: usize = 0;
        while i < self.intents.len()
            invariant
                i <= self@.intents.len(),
                forall|j: int| 0 <= j < i ==> (#[trigger] self@.intents[j]).id != id@,
            decreases self@.intents.len() - i,
        {
            if self.intents[i].id == *id {
                proof {
                    assert(self@.intents[i as int].id == id@);
                    lemma_find_first_at(self@.intents, id@, i as int);
                }
                return Some(i);
            }
            proof {
                assert(self@.intents[i as int].id != id@);
            }
            i += 1;
        }
        proof {
            lemma_find_first_characterizes(self@.intents, id@);
            if find_first(self@.intents, id@) is Some {
                let k = find_first(self@.intents, id@)->Some_0;
                assert(self@.intents[k].id != id@);
            }
        }
        None
    }

    /// Record a new intent. The caller must be the owner: anyone else is
    /// refused with `Unauthorized` and the store is left untouched. For the
    /// owner the call always succeeds: the input is decoded under the
    /// fallback-to-zero policy and appended to the end of the store, with no
    /// uniqueness check on its id.
    pub fn create_intent(&mut self, caller: String, intent: PaymentIntentInput) -> (r: Result<
        (),
        IntentError,
    >)
        ensures
            caller@ == old(self)@.owner ==> r is Ok && final(self)@.owner == old(self)@.owner
                && final(self)@.intents == old(self)@.intents.push(stored_of(intent@)),
            caller@ != old(self)@.owner ==> r == Err::<(), IntentError>(IntentError::Unauthorized)
                && final(self)@ == old(self)@,
    {
        if let Err(e) = self.authorize(&caller) {
            return Err(e);
        }
        let ghost pre = self@;
        let ghost inp = intent@;
        let PaymentIntentInput {
            id,
            payment_id,
            dest_chain,
            dest_asset,
            dest_address,
            amount_atomic,
            decimals,
            zcash_burn_txid,
            created_at,
            fulfilled,
            payout_tx_hash,
        } = intent;
        let amount_atomic: u128 = parse_u128_or_zero(amount_atomic.as_str());
        let created_at: u64 = parse_u64_or_zero(created_at.as_str());
        let stored = PaymentIntent {
            id,
            payment_id,
            dest_chain,
            dest_asset,
            dest_address,
            amount_atomic,
            decimals,
            zcash_burn_txid,
            created_at,
            fulfilled,
            payout_tx_hash,
        };
        proof {
            assert(stored@ =~= stored_of(inp));
        }
        self.intents.push(stored);
        proof {
            assert(self@.intents =~= pre.intents.push(stored_of(inp)));
        }
        Ok(())
    }

    /// Mark the first intent stored under `id` as fulfilled, recording the
    /// payout transaction hash. The caller must be the owner: anyone else is
    /// refused with `Unauthorized` and the store is left untouched. For the
    /// owner the call always succeeds; when no intent carries `id` it is a
    /// silent no-op, not an error.
    pub fn mark_fulfilled(&mut self, caller: String, id: String, payout_tx_hash: String) -> (r:
        Result<(), IntentError>)
        ensures
            caller@ == old(self)@.owner ==> r is Ok && final(self)@.owner == old(self)@.owner
                && (match find_first(old(self)@.intents, id@) {
                Some(i) => final(self)@.intents == old(self)@.intents.update(
                    i,
                    fulfilled_with(old(self)@.intents[i], payout_tx_hash@),
                ),
                None => final(self)@.intents == old(self)@.intents,
            }),
            caller@ != old(self)@.owner ==> r == Err::<(), IntentError>(IntentError::Unauthorized)
                && final(self)@ == old(self)@,
    {
        if let Err(e) = self.authorize(&caller) {
            return Err(e);
        }
        let ghost pre = self@;
        match self.find_by_id(&id) {
            Some(i) => {
                proof {
                    lemma_find_first_characterizes(pre.intents, id@);
                }
                self.intents[i].fulfilled = true;
                self.intents[i].payout_tx_hash = Some(payout_tx_hash);
                proof {
                    assert(self@.intents[i as int] =~= fulfilled_with(
                        pre.intents[i as int],
                        payout_tx_hash@,
                    ));
                    assert(self@.intents =~= pre.intents.update(
                        i as int,
                        fulfilled_with(pre.intents[i as int], payout_tx_hash@),
                    ));
                }
            },
            None => {
            },
        }
        Ok(())
    }

    /// The intents still awaiting fulfillment, in insertion order, as copies:
    /// the result never aliases the store. Open to any caller, and unbounded:
    /// the registry does not paginate.
    pub fn list_open_intents(&self) -> (r: Vec<PaymentIntent>)
        ensures
            views_of(r@) == open_intents(self@.intents),
    {
        let ghost s = self@.intents;
        let mut out: Vec<PaymentIntent> = Vec::new();
        let mut i: usize = 0;
        proof {
            assert(views_of(out@) =~= open_intents(s.take(0)));
        }
        while i < self.intents.len()
            invariant
                i <= s.len(),
                s == self@.intents,
                views_of(out@) == open_intents(s.take(i as int)),
            decreases s.len() - i,
        {
            proof {
                reveal(Seq::filter);
                assert(s.take(i + 1).drop_last() =~= s.take(i as int));
                assert(s.take(i + 1).last() == s[i as int]);
            }
            if !self.intents[i].fulfilled {
                out.push(self.intents[i].clone());
                proof {
                    assert(views_of(out@) =~= open_intents(s.take(i as int)).push(s[i as int]));
                }
            }
            i += 1;
        }
        proof {
            assert(s.take(i as int) =~= s);
        }
        out
    }

    /// A copy of the first intent stored under `id`, in insertion order, or
    /// `None` when no intent carries that id — a normal outcome, not an
    /// error. Open to any caller.
    pub fn get_intent(&self, id: String) -> (r: Option<PaymentIntent>)
        ensures
            match find_first(self@.intents, id@) {
                Some(i) => r matches Some(p) && p@ == self@.intents[i],
                None => r is None,
            },
    {
        match self.find_by_id(&id) {
            Some(i) => {
                proof {
                    lemma_find_first_characterizes(self@.intents, id@);
                }
                Some(self.intents[i].clone())
            },
            None => None,
        }
    }
}

} // verus!
