//! Sorting of the four record kinds by the integer keys the store promises:
//! flavors by shape or by hourly price, disk types by price per GB, quotes by
//! a timestamp in either direction, items by creation time. Each sort returns
//! a sorted rearrangement of its input; ties keep no promised order.

use vstd::prelude::*;

use crate::models::{DiskType, Flavor, Quote, QuoteItem};

verus! {

/// The sortable fields of a quote listing; the fixed allow-list of the
/// paginated endpoint.
#[derive(Clone, Copy)]
pub enum QuoteSortKey {
    UpdatedAt,
    CreatedAt,
}

/// Direction of a sort.
#[derive(Clone, Copy)]
pub enum SortOrder {
    Asc,
    Desc,
}

/// The key of a quote under a sortable field.
pub open spec fn quote_key(k: QuoteSortKey, q: Quote) -> int {
    match k {
        QuoteSortKey::UpdatedAt => q.updated_at as int,
        QuoteSortKey::CreatedAt => q.created_at as int,
    }
}

/// Ordering of two quotes under a sortable field and a direction.
pub open spec fn quote_le(k: QuoteSortKey, ord: SortOrder, a: Quote, b: Quote) -> bool {
    match ord {
        SortOrder::Asc => quote_key(k, a) <= quote_key(k, b),
        SortOrder::Desc => quote_key(k, b) <= quote_key(k, a),
    }
}

/// The sequence of quotes is sorted under the given field and direction.
pub open spec fn quotes_sorted(s: Seq<Quote>, k: QuoteSortKey, ord: SortOrder) -> bool {
    forall|i: int, j: int|
        0 <= i < j < s.len() ==> quote_le(k, ord, #[trigger] s[i], #[trigger] s[j])
}

/// Catalog ordering of flavors: vCPU count ascending, RAM ascending within
/// equal vCPU counts.
pub open spec fn flavor_shape_le(a: Flavor, b: Flavor) -> bool {
    a.vcpus < b.vcpus || (a.vcpus == b.vcpus && a.ram_mb <= b.ram_mb)
}

/// The flavors are in catalog order.
pub open spec fn flavors_sorted_by_shape(s: Seq<Flavor>) -> bool {
    forall|i: int, j: int|
        0 <= i < j < s.len() ==> flavor_shape_le(#[trigger] s[i], #[trigger] s[j])
}

/// Cheapest-first ordering of flavors by hourly price.
pub open spec fn flavor_price_le(a: Flavor, b: Flavor) -> bool {
    a.price_hourly <= b.price_hourly
}

/// The flavors are ordered cheapest first.
pub open spec fn flavors_sorted_by_price(s: Seq<Flavor>) -> bool {
    forall|i: int, j: int|
        0 <= i < j < s.len() ==> flavor_price_le(#[trigger] s[i], #[trigger] s[j])
}

/// Cheapest-first ordering of disk types by price per GB.
pub open spec fn disk_price_le(a: DiskType, b: DiskType) -> bool {
    a.price_per_gb <= b.price_per_gb
}

/// The disk types are ordered cheapest first.
pub open spec fn disks_sorted_by_price(s: Seq<DiskType>) -> bool {
    forall|i: int, j: int|
        0 <= i < j < s.len() ==> disk_price_le(#[trigger] s[i], #[trigger] s[j])
}

/// Oldest-first ordering of quote items by creation time.
pub open spec fn item_created_le(a: QuoteItem, b: QuoteItem) -> bool {
    a.created_at <= b.created_at
}

/// The items are ordered by creation time ascending.
pub open spec fn items_sorted_by_created(s: Seq<QuoteItem>) -> bool {
    forall|i: int, j: int|
        0 <= i < j < s.len() ==> item_created_le(#[trigger] s[i], #[trigger] s[j])
}

fn quote_le_exec(k: QuoteSortKey, ord: SortOrder, a: &Quote, b: &Quote) -> (r: bool)
    ensures
        r == quote_le(k, ord, *a, *b),
{
    let ka = match k {
        QuoteSortKey::UpdatedAt => a.updated_at,
        QuoteSortKey::CreatedAt => a.created_at,
    };
    let kb = match k {
        QuoteSortKey::UpdatedAt => b.updated_at,
        QuoteSortKey::CreatedAt => b.created_at,
    };
    match ord {
        SortOrder::Asc => ka <= kb,
        SortOrder::Desc => kb <= ka,
    }
}

fn flavor_shape_le_exec(a: &Flavor, b: &Flavor) -> (r: bool)
    ensures
        r == flavor_shape_le(*a, *b),
{
    a.vcpus < b.vcpus || (a.vcpus == b.vcpus && a.ram_mb <= b.ram_mb)
}

fn flavor_price_le_exec(a: &Flavor, b: &Flavor) -> (r: bool)
    ensures
        r == flavor_price_le(*a, *b),
{
    a.price_hourly <= b.price_hourly
}

fn disk_price_le_exec(a: &DiskType, b: &DiskType) -> (r: bool)
    ensures
        r == disk_price_le(*a, *b),
{
    a.price_per_gb <= b.price_per_gb
}

fn item_created_le_exec(a: &QuoteItem, b: &QuoteItem) -> (r: bool)
    ensures
        r == item_created_le(*a, *b),
{
    a.created_at <= b.created_at
}

/// Sorts quotes by the given field and direction.
pub fn sort_quotes(v: Vec<Quote>, k: QuoteSortKey, ord: SortOrder) -> (r: Vec<Quote>)
    ensures
        r@.to_multiset() == v@.to_multiset(),
        quotes_sorted(r@, k, ord),
{
    broadcast use vstd::seq_lib::group_to_multiset_ensures;
    broadcast use vstd::multiset::group_multiset_axioms;

    let mut rest = v;
    let mut out: Vec<Quote> = Vec::new();
    proof {
        assert(out@.to_multiset().add(rest@.to_multiset()) =~= v@.to_multiset());
    }
    while rest.len() > 0
        invariant
            out@.to_multiset().add(rest@.to_multiset()) == v@.to_multiset(),
            quotes_sorted(out@, k, ord),
            forall|a: int, b: int|
                0 <= a < out@.len() && 0 <= b < rest@.len() ==> quote_le(
                    k,
                    ord,
                    #[trigger] out@[a],
                    #[trigger] rest@[b],
                ),
        decreases rest@.len(),
    {
        broadcast use vstd::seq_lib::group_to_multiset_ensures;
        broadcast use vstd::multiset::group_multiset_axioms;

        let mut m: usize = 0;
        let mut t: usize = 1;
        while t < rest.len()
            invariant
                0 < rest@.len(),
                (m as int) < rest@.len(),
                t <= rest@.len(),
                forall|u: int| 0 <= u < t ==> quote_le(k, ord, rest@[m as int], #[trigger] rest@[u]),
            decreases rest@.len() - t,
        {
            if !quote_le_exec(k, ord, &rest[m], &rest[t]) {
                m = t;
            }
            t += 1;
        }
        let ghost old_rest = rest@;
        let ghost old_out = out@;
        let x = rest.remove(m);
        out.push(x);
        proof {
            assert(out@.to_multiset().add(rest@.to_multiset()) =~= v@.to_multiset());
            assert(forall|b: int|
                0 <= b < rest@.len() ==> #[trigger] rest@[b] == if b < m as int {
                    old_rest[b]
                } else {
                    old_rest[b + 1]
                });
        }
    }
    proof {
        broadcast use vstd::multiset::lemma_multiset_empty_len;

        assert(rest@.to_multiset().len() == 0);
        assert(out@.to_multiset().add(rest@.to_multiset()) =~= out@.to_multiset());
    }
    out
}

/// Sorts flavors into catalog order (vCPUs, then RAM).
pub fn sort_flavors_by_shape(v: Vec<Flavor>) -> (r: Vec<Flavor>)
    ensures
        r@.to_multiset() == v@.to_multiset(),
        flavors_sorted_by_shape(r@),
{
    broadcast use vstd::seq_lib::group_to_multiset_ensures;
    broadcast use vstd::multiset::group_multiset_axioms;

    let mut rest = v;
    let mut out: Vec<Flavor> = Vec::new();
    proof {
        assert(out@.to_multiset().add(rest@.to_multiset()) =~= v@.to_multiset());
    }
    while rest.len() > 0
        invariant
            out@.to_multiset().add(rest@.to_multiset()) == v@.to_multiset(),
            flavors_sorted_by_shape(out@),
            forall|a: int, b: int|
                0 <= a < out@.len() && 0 <= b < rest@.len() ==> flavor_shape_le(
                    #[trigger] out@[a],
                    #[trigger] rest@[b],
                ),
        decreases rest@.len(),
    {
        broadcast use vstd::seq_lib::group_to_multiset_ensures;
        broadcast use vstd::multiset::group_multiset_axioms;

        let mut m: usize = 0;
        let mut t: usize = 1;
        while t < rest.len()
            invariant
                0 < rest@.len(),
                (m as int) < rest@.len(),
                t <= rest@.len(),
                forall|u: int| 0 <= u < t ==> flavor_shape_le(rest@[m as int], #[trigger] rest@[u]),
            decreases rest@.len() - t,
        {
            if !flavor_shape_le_exec(&rest[m], &rest[t]) {
                m = t;
            }
            t += 1;
        }
        let ghost old_rest = rest@;
        let x = rest.remove(m);
        out.push(x);
        proof {
            assert(out@.to_multiset().add(rest@.to_multiset()) =~= v@.to_multiset());
            assert(forall|b: int|
                0 <= b < rest@.len() ==> #[trigger] rest@[b] == if b < m as int {
                    old_rest[b]
                } else {
                    old_rest[b + 1]
                });
        }
    }
    proof {
        broadcast use vstd::multiset::lemma_multiset_empty_len;

        assert(rest@.to_multiset().len() == 0);
        assert(out@.to_multiset().add(rest@.to_multiset()) =~= out@.to_multiset());
    }
    out
}

/// Sorts flavors cheapest first by hourly price.
pub fn sort_flavors_by_price(v: Vec<Flavor>) -> (r: Vec<Flavor>)
    ensures
        r@.to_multiset() == v@.to_multiset(),
        flavors_sorted_by_price(r@),
{
    broadcast use vstd::seq_lib::group_to_multiset_ensures;
    broadcast use vstd::multiset::group_multiset_axioms;

    let mut rest = v;
    let mut out: Vec<Flavor> = Vec::new();
    proof {
        assert(out@.to_multiset().add(rest@.to_multiset()) =~= v@.to_multiset());
    }
    while rest.len() > 0
        invariant
            out@.to_multiset().add(rest@.to_multiset()) == v@.to_multiset(),
            flavors_sorted_by_price(out@),
            forall|a: int, b: int|
                0 <= a < out@.len() && 0 <= b < rest@.len() ==> flavor_price_le(
                    #[trigger] out@[a],
                    #[trigger] rest@[b],
                ),
        decreases rest@.len(),
    {
        broadcast use vstd::seq_lib::group_to_multiset_ensures;
        broadcast use vstd::multiset::group_multiset_axioms;

        let mut m: usize = 0;
        let mut t: usize = 1;
        while t < rest.len()
            invariant
                0 < rest@.len(),
                (m as int) < rest@.len(),
                t <= rest@.len(),
                forall|u: int| 0 <= u < t ==> flavor_price_le(rest@[m as int], #[trigger] rest@[u]),
            decreases rest@.len() - t,
        {
            if !flavor_price_le_exec(&rest[m], &rest[t]) {
                m = t;
            }
            t += 1;
        }
        let ghost old_rest = rest@;
        let x = rest.remove(m);
        out.push(x);
        proof {
            assert(out@.to_multiset().add(rest@.to_multiset()) =~= v@.to_multiset());
            assert(forall|b: int|
                0 <= b < rest@.len() ==> #[trigger] rest@[b] == if b < m as int {
                    old_rest[b]
                } else {
                    old_rest[b + 1]
                });
        }
    }
    proof {
        broadcast use vstd::multiset::lemma_multiset_empty_len;

        assert(rest@.to_multiset().len() == 0);
        assert(out@.to_multiset().add(rest@.to_multiset()) =~= out@.to_multiset());
    }
    out
}

/// Sorts disk types cheapest first by price per GB.
pub fn sort_disks_by_price(v: Vec<DiskType>) -> (r: Vec<DiskType>)
    ensures
        r@.to_multiset() == v@.to_multiset(),
        disks_sorted_by_price(r@),
{
    broadcast use vstd::seq_lib::group_to_multiset_ensures;
    broadcast use vstd::multiset::group_multiset_axioms;

    let mut rest = v;
    let mut out: Vec<DiskType> = Vec::new();
    proof {
        assert(out@.to_multiset().add(rest@.to_multiset()) =~= v@.to_multiset());
    }
    while rest.len() > 0
        invariant
            out@.to_multiset().add(rest@.to_multiset()) == v@.to_multiset(),
            disks_sorted_by_price(out@),
            forall|a: int, b: int|
                0 <= a < out@.len() && 0 <= b < rest@.len() ==> disk_price_le(
                    #[trigger] out@[a],
                    #[trigger] rest@[b],
                ),
        decreases rest@.len(),
    {
        broadcast use vstd::seq_lib::group_to_multiset_ensures;
        broadcast use vstd::multiset::group_multiset_axioms;

        let mut m: usize = 0;
        let mut t: usize = 1;
        while t < rest.len()
            invariant
                0 < rest@.len(),
                (m as int) < rest@.len(),
                t <= rest@.len(),
                forall|u: int| 0 <= u < t ==> disk_price_le(rest@[m as int], #[trigger] rest@[u]),
            decreases rest@.len() - t,
        {
            if !disk_price_le_exec(&rest[m], &rest[t]) {
                m = t;
            }
            t += 1;
        }
        let ghost old_rest = rest@;
        let x = rest.remove(m);
        out.push(x);
        proof {
            assert(out@.to_multiset().add(rest@.to_multiset()) =~= v@.to_multiset());
            assert(forall|b: int|
                0 <= b < rest@.len() ==> #[trigger] rest@[b] == if b < m as int {
                    old_rest[b]
                } else {
                    old_rest[b + 1]
                });
        }
    }
    proof {
        broadcast use vstd::multiset::lemma_multiset_empty_len;

        assert(rest@.to_multiset().len() == 0);
        assert(out@.to_multiset().add(rest@.to_multiset()) =~= out@.to_multiset());
    }
    out
}

/// Sorts quote items oldest first by creation time.
pub fn sort_items_by_created(v: Vec<QuoteItem>) -> (r: Vec<QuoteItem>)
    ensures
        r@.to_multiset() == v@.to_multiset(),
        items_sorted_by_created(r@),
{
    broadcast use vstd::seq_lib::group_to_multiset_ensures;
    broadcast use vstd::multiset::group_multiset_axioms;

    let mut rest = v;
    let mut out: Vec<QuoteItem> = Vec::new();
    proof {
        assert(out@.to_multiset().add(rest@.to_multiset()) =~= v@.to_multiset());
    }
    while rest.len() > 0
        invariant
            out@.to_multiset().add(rest@.to_multiset()) == v@.to_multiset(),
            items_sorted_by_created(out@),
            forall|a: int, b: int|
                0 <= a < out@.len() && 0 <= b < rest@.len() ==> item_created_le(
                    #[trigger] out@[a],
                    #[trigger] rest@[b],
                ),
        decreases rest@.len(),
    {
        broadcast use vstd::seq_lib::group_to_multiset_ensures;
        broadcast use vstd::multiset::group_multiset_axioms;

        let mut m: usize = 0;
        let mut t: usize = 1;
        while t < rest.len()
            invariant
                0 < rest@.len(),
                (m as int) < rest@.len(),
                t <= rest@.len(),
                forall|u: int| 0 <= u < t ==> item_created_le(rest@[m as int], #[trigger] rest@[u]),
            decreases rest@.len() - t,
        {
            if !item_created_le_exec(&rest[m], &rest[t]) {
                m = t;
            }
            t += 1;
        }
        let ghost old_rest = rest@;
        let x = rest.remove(m);
        out.push(x);
        proof {
            assert(out@.to_multiset().add(rest@.to_multiset()) =~= v@.to_multiset());
            assert(forall|b: int|
                0 <= b < rest@.len() ==> #[trigger] rest@[b] == if b < m as int {
                    old_rest[b]
                } else {
                    old_rest[b + 1]
                });
        }
    }
    proof {
        broadcast use vstd::multiset::lemma_multiset_empty_len;

        assert(rest@.to_multiset().len() == 0);
        assert(out@.to_multiset().add(rest@.to_multiset()) =~= out@.to_multiset());
    }
    out
}

} // verus!
