//! The general laws of the library, stated over the same spec functions its
//! contracts use and proved once and for all: timestamp monotonicity under
//! renames, the cascade and idempotence of quote deletion, and the round
//! trip of a stored item.

use vstd::prelude::*;

use crate::db::{items_for, lemma_filter_from_source, not_owned_by, not_quote, owned_by,
    rename_quotes};
use crate::models::{Quote, QuoteItem};

verus! {

/// Filtering a sequence whose members all satisfy the predicate returns it
/// unchanged.
pub proof fn lemma_filter_all_kept<A>(s: Seq<A>, pred: spec_fn(A) -> bool)
    requires
        forall|i: int| 0 <= i < s.len() ==> pred(#[trigger] s[i]),
    ensures
        s.filter(pred) == s,
    decreases s.len(),
{
    reveal(Seq::filter);
    if s.len() > 0 {
        lemma_filter_all_kept(s.drop_last(), pred);
        assert(s.drop_last().push(s.last()) =~= s);
    }
}

/// A quote's update time never moves backwards under a rename whose clock
/// reading is no older than the record, its creation time and identity never
/// change, and a record whose update time was no older than its creation
/// time stays that way.
pub proof fn lemma_rename_keeps_updated_at_monotonic(
    quotes: Seq<Quote>,
    id: Seq<char>,
    name: String,
    now: i64,
    i: int,
)
    requires
        0 <= i < quotes.len(),
        now >= quotes[i].updated_at,
    ensures
        rename_quotes(quotes, id, name, now)[i].updated_at >= quotes[i].updated_at,
        rename_quotes(quotes, id, name, now)[i].created_at == quotes[i].created_at,
        rename_quotes(quotes, id, name, now)[i].id == quotes[i].id,
        quotes[i].updated_at >= quotes[i].created_at ==> rename_quotes(
            quotes,
            id,
            name,
            now,
        )[i].updated_at >= rename_quotes(quotes, id, name, now)[i].created_at,
{
}

/// Deleting a quote removes all its items: after the cascade, the listing
/// of that quote is empty; and deleting the same quote again changes
/// neither table.
pub proof fn lemma_delete_quote_removes_items(
    quotes: Seq<Quote>,
    items: Seq<QuoteItem>,
    id: Seq<char>,
)
    ensures
        items_for(items.filter(not_owned_by(id)), id).len() == 0,
        quotes.filter(not_quote(id)).filter(not_quote(id)) == quotes.filter(not_quote(id)),
        items.filter(not_owned_by(id)).filter(not_owned_by(id)) == items.filter(not_owned_by(id)),
{
    broadcast use vstd::seq_lib::group_filter_ensures;

    let outer = items.filter(not_owned_by(id));
    if items_for(outer, id).len() > 0 {
        assert(owned_by(id)(outer.filter(owned_by(id))[0]));
        lemma_filter_from_source(outer, owned_by(id));
        let k = choose|k: int|
            0 <= k < outer.len() && outer.filter(owned_by(id))[0] == outer[k];
        assert(not_owned_by(id)(outer[k]));
        assert(false);
    }
    assert forall|i: int| 0 <= i < quotes.filter(not_quote(id)).len() implies not_quote(id)(
        #[trigger] quotes.filter(not_quote(id))[i],
    ) by {}
    lemma_filter_all_kept(quotes.filter(not_quote(id)), not_quote(id));
    assert forall|i: int| 0 <= i < outer.len() implies not_owned_by(id)(#[trigger] outer[i]) by {}
    lemma_filter_all_kept(outer, not_owned_by(id));
}

/// A partial item update preserves every field it does not supply: the
/// item's identity, owner and creation time always stay, and on the item
/// being updated an absent field keeps its stored value while a supplied
/// one overwrites it. Items with other identifiers are untouched.
pub proof fn lemma_partial_update_preserves_absent_fields(
    items: Seq<QuoteItem>,
    id: Seq<char>,
    u: crate::models::UpdateQuoteItem,
    now: i64,
    i: int,
)
    requires
        0 <= i < items.len(),
    ensures
        ({
            let before = items[i];
            let after = crate::db::update_items(items, id, u, now)[i];
            &&& after.id == before.id
            &&& after.quote_id == before.quote_id
            &&& after.created_at == before.created_at
            &&& before.id@ != id ==> after == before
            &&& before.id@ == id ==> ({
                &&& after.updated_at == now
                &&& (u.flavor_id is None ==> after.flavor_id == before.flavor_id)
                &&& (u.flavor_name is None ==> after.flavor_name == before.flavor_name)
                &&& (u.vcpus is None ==> after.vcpus == before.vcpus)
                &&& (u.ram_mb is None ==> after.ram_mb == before.ram_mb)
                &&& (u.flavor_price is None ==> after.flavor_price == before.flavor_price)
                &&& (u.disk_type_id is None ==> after.disk_type_id == before.disk_type_id)
                &&& (u.disk_type_name is None ==> after.disk_type_name == before.disk_type_name)
                &&& (u.disk_size_gb is None ==> after.disk_size_gb == before.disk_size_gb)
                &&& (u.disk_price is None ==> after.disk_price == before.disk_price)
                &&& (u.hostname is None ==> after.hostname == before.hostname)
                &&& (u.code_number is None ==> after.code_number == before.code_number)
                &&& (u.description is None ==> after.description == before.description)
                &&& (u.hostname is Some ==> after.hostname == u.hostname)
                &&& (u.description is Some ==> after.description == u.description)
            })
        }),
{
}

/// Round trip: an item stored for a quote stands at the end of that quote's
/// listing with exactly the fields it was stored with, and any
/// rearrangement of the listing still contains it.
pub proof fn lemma_create_item_round_trip(
    items: Seq<QuoteItem>,
    it: QuoteItem,
    quote_id: Seq<char>,
)
    requires
        it.quote_id@ == quote_id,
    ensures
        ({
            let owned = items_for(items.push(it), quote_id);
            owned.len() > 0 && owned.last() == it
        }),
        forall|r: Seq<QuoteItem>|
            r.to_multiset() == items_for(items.push(it), quote_id).to_multiset()
                ==> #[trigger] r.contains(it),
{
    broadcast use vstd::seq_lib::group_to_multiset_ensures;

    reveal(Seq::filter);
    assert(items.push(it).drop_last() =~= items);
    assert(items.push(it).last() == it);
    let owned = items_for(items.push(it), quote_id);
    assert(owned == items.filter(owned_by(quote_id)).push(it));
    assert forall|r: Seq<QuoteItem>|
        r.to_multiset() == items_for(items.push(it), quote_id).to_multiset() implies #[trigger] r
        .contains(it) by {
        assert(owned.contains(it));
        assert(owned.to_multiset().count(it) > 0);
        assert(r.to_multiset().count(it) > 0);
    }
}

} // verus!
