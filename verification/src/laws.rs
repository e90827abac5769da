//! Laws of the intent lifecycle that relate several registry operations.

use crate::intent::IntentInputView;
use crate::intent::IntentView;
use crate::intent::fulfilled_with;
use crate::intent::stored_of;
use crate::parse::lemma_or_zero_in_range;
use crate::parse::u128_or_zero;
use crate::parse::u64_or_zero;
use crate::registry::find_first;
use crate::registry::lemma_find_first_at;
use crate::registry::lemma_find_first_characterizes;
use crate::registry::open_intents;
use vstd::prelude::*;

verus! {

/// Every open intent is one of the store's intents, still unfulfilled.
proof fn lemma_open_intents_membership(s: Seq<IntentView>)
    ensures
        forall|k: int|
            0 <= k < open_intents(s).len() ==> s.contains(#[trigger] open_intents(s)[k])
                && !open_intents(s)[k].fulfilled,
    decreases s.len(),
{
    reveal(Seq::filter);
    if s.len() > 0 {
        lemma_open_intents_membership(s.drop_last());
        let prev = open_intents(s.drop_last());
        assert forall|k: int| 0 <= k < open_intents(s).len() implies s.contains(
            #[trigger] open_intents(s)[k],
        ) && !open_intents(s)[k].fulfilled by {
            if k < prev.len() {
                assert(open_intents(s)[k] == prev[k]);
                let m = choose|m: int|
                    0 <= m < s.drop_last().len() && s.drop_last()[m] == prev[k];
                assert(s[m] == prev[k]);
            } else {
                assert(open_intents(s)[k] == s.last());
                assert(s[s.len() - 1] == s.last());
            }
        }
    }
}

/// Law: after the owner creates an intent under an id the store does not yet
/// hold, looking that id up finds exactly the stored record — every opaque
/// field carried over unchanged, the two textual numeric fields decoded under
/// the fallback-to-zero policy.
pub proof fn lemma_create_then_get(intents: Seq<IntentView>, inp: IntentInputView)
    requires
        find_first(intents, inp.id) is None,
    ensures
        find_first(intents.push(stored_of(inp)), inp.id) == Some(intents.len() as int),
        intents.push(stored_of(inp))[intents.len() as int] == stored_of(inp),
        stored_of(inp).id == inp.id,
        stored_of(inp).payment_id == inp.payment_id,
        stored_of(inp).dest_chain == inp.dest_chain,
        stored_of(inp).dest_asset == inp.dest_asset,
        stored_of(inp).dest_address == inp.dest_address,
        stored_of(inp).amount_atomic as int == u128_or_zero(inp.amount_atomic),
        stored_of(inp).decimals == inp.decimals,
        stored_of(inp).zcash_burn_txid == inp.zcash_burn_txid,
        stored_of(inp).created_at as int == u64_or_zero(inp.created_at),
        stored_of(inp).fulfilled == inp.fulfilled,
        stored_of(inp).payout_tx_hash == inp.payout_tx_hash,
{
    lemma_or_zero_in_range(inp.amount_atomic);
    lemma_or_zero_in_range(inp.created_at);
    lemma_find_first_characterizes(intents, inp.id);
    let post = intents.push(stored_of(inp));
    assert(post[intents.len() as int].id == inp.id);
    assert forall|j: int| 0 <= j < intents.len() implies (#[trigger] post[j]).id != inp.id by {
        assert(post[j] == intents[j]);
    }
    lemma_find_first_at(post, inp.id, intents.len() as int);
}

/// Law: after the fulfillment transition on the sole intent under an id,
/// that id no longer appears among the open intents, and lookup under it
/// finds the record fulfilled, carrying the recorded payout hash.
pub proof fn lemma_fulfilled_leaves_open(
    intents: Seq<IntentView>,
    id: Seq<char>,
    h: Seq<char>,
    i: int,
)
    requires
        find_first(intents, id) == Some(i),
        forall|j: int| 0 <= j < intents.len() && j != i ==> (#[trigger] intents[j]).id != id,
    ensures
        ({
            let post = intents.update(i, fulfilled_with(intents[i], h));
            &&& find_first(post, id) == Some(i)
            &&& post[i].fulfilled
            &&& post[i].payout_tx_hash == Some(h)
            &&& forall|k: int|
                0 <= k < open_intents(post).len() ==> (#[trigger] open_intents(post)[k]).id != id
        }),
{
    lemma_find_first_characterizes(intents, id);
    let post = intents.update(i, fulfilled_with(intents[i], h));
    assert(post[i].id == id);
    assert forall|j: int| 0 <= j < i implies (#[trigger] post[j]).id != id by {
        assert(post[j] == intents[j]);
    }
    lemma_find_first_at(post, id, i);
    lemma_open_intents_membership(post);
    assert forall|k: int| 0 <= k < open_intents(post).len() implies (
    #[trigger] open_intents(post)[k]).id != id by {
        let e = open_intents(post)[k];
        if e.id == id {
            let m = choose|m: int| 0 <= m < post.len() && post[m] == e;
            if m != i {
                assert(post[m] == intents[m]);
            }
            assert(m == i);
            assert(e.fulfilled);
        }
    }
}

} // verus!
