//! The store: four in-memory tables and every read and write statement on
//! them, specified against the sequences the tables hold. Identifier
//! uniqueness and the item-to-quote link are the store's well-formedness,
//! established by the constructor and preserved by every operation.

use vstd::prelude::*;

use crate::ext::str_eq;
use crate::models::{
    CreateQuoteItem, DiskType, Flavor, PaginatedResponse, Quote, QuoteItem, UpdateQuoteItem,
};
use crate::text::{ci_contains, contains_ci};
use crate::sort::{
    disks_sorted_by_price, flavors_sorted_by_price, flavors_sorted_by_shape,
    items_sorted_by_created, quotes_sorted, sort_disks_by_price, sort_flavors_by_price,
    sort_flavors_by_shape, sort_items_by_created, sort_quotes, QuoteSortKey, SortOrder,
};

verus! {

/// Some quote in the sequence carries this identifier.
pub open spec fn quote_id_taken(quotes: Seq<Quote>, id: Seq<char>) -> bool {
    exists|i: int| 0 <= i < quotes.len() && (#[trigger] quotes[i]).id@ == id
}

/// Some item in the sequence carries this identifier.
pub open spec fn item_id_taken(items: Seq<QuoteItem>, id: Seq<char>) -> bool {
    exists|i: int| 0 <= i < items.len() && (#[trigger] items[i]).id@ == id
}

/// The predicate selecting the items owned by one quote.
pub open spec fn owned_by(quote_id: Seq<char>) -> spec_fn(QuoteItem) -> bool {
    |it: QuoteItem| it.quote_id@ == quote_id
}

/// The predicate keeping the items of every other quote: the cascade filter
/// of a quote deletion.
pub open spec fn not_owned_by(quote_id: Seq<char>) -> spec_fn(QuoteItem) -> bool {
    |it: QuoteItem| it.quote_id@ != quote_id
}

/// The predicate keeping every quote but the one with the given identifier.
pub open spec fn not_quote(id: Seq<char>) -> spec_fn(Quote) -> bool {
    |q: Quote| q.id@ != id
}

/// The predicate keeping every item but the one with the given identifier.
pub open spec fn not_item(id: Seq<char>) -> spec_fn(QuoteItem) -> bool {
    |it: QuoteItem| it.id@ != id
}

/// The items owned by the quote with the given identifier, in stored order.
pub open spec fn items_for(items: Seq<QuoteItem>, quote_id: Seq<char>) -> Seq<QuoteItem> {
    items.filter(owned_by(quote_id))
}

/// A flavor meets the minimum shape requirements of a best-match lookup.
pub open spec fn flavor_qualifies(f: Flavor, min_vcpus: u32, min_ram_mb: u64) -> bool {
    f.vcpus >= min_vcpus && f.ram_mb >= min_ram_mb
}

/// A quote's name contains the search needle, ASCII case ignored; an absent
/// needle admits every quote.
pub open spec fn quote_matches(q: Quote, search: Option<&str>) -> bool {
    match search {
        Some(s) => ci_contains(q.name@, s@),
        None => true,
    }
}

/// The slice of a sequence that the given page holds, pages counting from 1.
pub open spec fn page_slice<A>(s: Seq<A>, page: int, limit: int) -> Seq<A> {
    let start = (page - 1) * limit;
    if start >= s.len() {
        Seq::empty()
    } else if start + limit <= s.len() {
        s.subrange(start, start + limit)
    } else {
        s.subrange(start, s.len() as int)
    }
}

/// The total divided by the page size, rounded up.
pub open spec fn ceil_div(total: int, limit: int) -> int
    recommends
        limit >= 1,
{
    (total + limit - 1) / limit
}

/// The merge of a partial update into a stored item: a supplied field
/// overwrites, an absent one leaves the stored value; the update time is
/// always refreshed, identity and creation time never change.
pub open spec fn merge_item(it: QuoteItem, u: UpdateQuoteItem, now: i64) -> QuoteItem {
    QuoteItem {
        id: it.id,
        quote_id: it.quote_id,
        flavor_id: if u.flavor_id is Some {
            u.flavor_id
        } else {
            it.flavor_id
        },
        flavor_name: if u.flavor_name is Some {
            u.flavor_name
        } else {
            it.flavor_name
        },
        vcpus: if u.vcpus is Some {
            u.vcpus
        } else {
            it.vcpus
        },
        ram_mb: if u.ram_mb is Some {
            u.ram_mb
        } else {
            it.ram_mb
        },
        flavor_price: if u.flavor_price is Some {
            u.flavor_price
        } else {
            it.flavor_price
        },
        disk_type_id: if u.disk_type_id is Some {
            u.disk_type_id
        } else {
            it.disk_type_id
        },
        disk_type_name: if u.disk_type_name is Some {
            u.disk_type_name
        } else {
            it.disk_type_name
        },
        disk_size_gb: if u.disk_size_gb is Some {
            u.disk_size_gb
        } else {
            it.disk_size_gb
        },
        disk_price: if u.disk_price is Some {
            u.disk_price
        } else {
            it.disk_price
        },
        hostname: if u.hostname is Some {
            u.hostname
        } else {
            it.hostname
        },
        code_number: if u.code_number is Some {
            u.code_number
        } else {
            it.code_number
        },
        description: if u.description is Some {
            u.description
        } else {
            it.description
        },
        created_at: it.created_at,
        updated_at: now,
    }
}

/// The quote sequence after a rename: every quote carrying the identifier
/// gets the new name and update time, every other quote is untouched.
pub open spec fn rename_quotes(quotes: Seq<Quote>, id: Seq<char>, name: String, now: i64) -> Seq<
    Quote,
> {
    quotes.map_values(
        |q: Quote|
            if q.id@ == id {
                Quote { id: q.id, name: name, created_at: q.created_at, updated_at: now }
            } else {
                q
            },
    )
}

/// The item sequence after a partial update: every item carrying the
/// identifier is merged with the supplied fields, every other item is
/// untouched.
pub open spec fn update_items(items: Seq<QuoteItem>, id: Seq<char>, u: UpdateQuoteItem, now: i64) -> Seq<
    QuoteItem,
> {
    items.map_values(
        |it: QuoteItem|
            if it.id@ == id {
                merge_item(it, u, now)
            } else {
                it
            },
    )
}

/// Every element of a filtered sequence stands somewhere in the source.
pub proof fn lemma_filter_from_source<A>(s: Seq<A>, pred: spec_fn(A) -> bool)
    ensures
        forall|i: int|
            0 <= i < s.filter(pred).len() ==> exists|k: int|
                0 <= k < s.len() && #[trigger] s.filter(pred)[i] == s[k],
    decreases s.len(),
{
    reveal(Seq::filter);
    if s.len() > 0 {
        lemma_filter_from_source(s.drop_last(), pred);
        let f = s.filter(pred);
        let fd = s.drop_last().filter(pred);
        assert forall|i: int| 0 <= i < f.len() implies exists|k: int|
            0 <= k < s.len() && #[trigger] f[i] == s[k] by {
            if i < fd.len() {
                let k = choose|k: int| 0 <= k < s.drop_last().len() && fd[i] == s.drop_last()[k];
                assert(f[i] == s[k]);
            } else {
                assert(f[i] == s[s.len() - 1]);
            }
        }
    }
}

/// Filtering keeps a pairwise-distinct key pairwise distinct.
proof fn lemma_filter_keeps_distinct<A>(
    s: Seq<A>,
    pred: spec_fn(A) -> bool,
    key: spec_fn(A) -> Seq<char>,
)
    requires
        forall|i: int, j: int| 0 <= i < j < s.len() ==> key(#[trigger] s[i]) != key(#[trigger] s[j]),
    ensures
        forall|i: int, j: int|
            0 <= i < j < s.filter(pred).len() ==> key(#[trigger] s.filter(pred)[i]) != key(
                #[trigger] s.filter(pred)[j],
            ),
    decreases s.len(),
{
    reveal(Seq::filter);
    if s.len() > 0 {
        let f = s.filter(pred);
        let fd = s.drop_last().filter(pred);
        lemma_filter_keeps_distinct(s.drop_last(), pred, key);
        lemma_filter_from_source(s.drop_last(), pred);
        assert forall|i: int, j: int| 0 <= i < j < f.len() implies key(f[i]) != key(f[j]) by {
            if pred(s.last()) && j == f.len() - 1 {
                let k = choose|k: int| 0 <= k < s.drop_last().len() && fd[i] == s.drop_last()[k];
                assert(f[i] == s[k]);
                assert(f[j] == s[s.len() - 1]);
            } else {
                assert(f[i] == fd[i] && f[j] == fd[j]);
            }
        }
    }
}

/// One step of building a filtered prefix.
proof fn lemma_filter_take_step<A>(s: Seq<A>, pred: spec_fn(A) -> bool, i: int)
    requires
        0 <= i < s.len(),
    ensures
        s.take(i + 1).filter(pred) == (if pred(s[i]) {
            s.take(i).filter(pred).push(s[i])
        } else {
            s.take(i).filter(pred)
        }),
{
    reveal(Seq::filter);
    assert(s.take(i + 1).drop_last() =~= s.take(i));
    assert(s.take(i + 1).last() == s[i]);
}

/// The in-memory store: the four tables of the quoting backend.
pub struct Database {
    pub flavors: Vec<Flavor>,
    pub disk_types: Vec<DiskType>,
    pub quotes: Vec<Quote>,
    pub items: Vec<QuoteItem>,
}

impl Database {
    /// Quote identifiers are pairwise distinct.
    pub open spec fn quote_ids_unique(&self) -> bool {
        forall|i: int, j: int|
            0 <= i < j < self.quotes@.len() ==> (#[trigger] self.quotes@[i]).id@ != (
            #[trigger] self.quotes@[j]).id@
    }

    /// Item identifiers are pairwise distinct.
    pub open spec fn item_ids_unique(&self) -> bool {
        forall|i: int, j: int|
            0 <= i < j < self.items@.len() ==> (#[trigger] self.items@[i]).id@ != (
            #[trigger] self.items@[j]).id@
    }

    /// Every item belongs to a quote that exists.
    pub open spec fn items_linked(&self) -> bool {
        forall|i: int|
            0 <= i < self.items@.len() ==> quote_id_taken(
                self.quotes@,
                (#[trigger] self.items@[i]).quote_id@,
            )
    }

    /// Well-formedness of the store.
    pub open spec fn wf(&self) -> bool {
        self.quote_ids_unique() && self.item_ids_unique() && self.items_linked()
    }

    /// Opens an empty store.
    pub fn new() -> (db: Database)
        ensures
            db.flavors@.len() == 0,
            db.disk_types@.len() == 0,
            db.quotes@.len() == 0,
            db.items@.len() == 0,
            db.wf(),
    {
        Database { flavors: Vec::new(), disk_types: Vec::new(), quotes: Vec::new(), items: Vec::new() }
    }

    /// Appends a flavor to the catalog; the crawler collaborator is the
    /// intended writer.
    pub fn add_flavor(&mut self, f: Flavor)
        requires
            old(self).wf(),
        ensures
            final(self).flavors@ == old(self).flavors@.push(f),
            final(self).disk_types@ == old(self).disk_types@,
            final(self).quotes@ == old(self).quotes@,
            final(self).items@ == old(self).items@,
            final(self).wf(),
    {
        self.flavors.push(f);
    }

    /// Appends a disk type to the catalog.
    pub fn add_disk_type(&mut self, d: DiskType)
        requires
            old(self).wf(),
        ensures
            final(self).disk_types@ == old(self).disk_types@.push(d),
            final(self).flavors@ == old(self).flavors@,
            final(self).quotes@ == old(self).quotes@,
            final(self).items@ == old(self).items@,
            final(self).wf(),
    {
        self.disk_types.push(d);
    }

    /// All flavors in catalog order: vCPUs ascending, RAM ascending.
    pub fn get_flavors(&self) -> (r: Vec<Flavor>)
        ensures
            r@.to_multiset() == self.flavors@.to_multiset(),
            flavors_sorted_by_shape(r@),
    {
        let mut copy: Vec<Flavor> = Vec::new();
        let mut i: usize = 0;
        while i < self.flavors.len()
            invariant
                i <= self.flavors@.len(),
                copy@ == self.flavors@.take(i as int),
            decreases self.flavors@.len() - i,
        {
            copy.push(self.flavors[i].clone());
            proof {
                assert(self.flavors@.take(i + 1) =~= self.flavors@.take(i as int).push(
                    self.flavors@[i as int],
                ));
            }
            i += 1;
        }
        proof {
            assert(self.flavors@.take(self.flavors@.len() as int) =~= self.flavors@);
        }
        sort_flavors_by_shape(copy)
    }

    /// All disk types, cheapest first by price per GB.
    pub fn get_disk_types(&self) -> (r: Vec<DiskType>)
        ensures
            r@.to_multiset() == self.disk_types@.to_multiset(),
            disks_sorted_by_price(r@),
    {
        let mut copy: Vec<DiskType> = Vec::new();
        let mut i: usize = 0;
        while i < self.disk_types.len()
            invariant
                i <= self.disk_types@.len(),
                copy@ == self.disk_types@.take(i as int),
            decreases self.disk_types@.len() - i,
        {
            copy.push(self.disk_types[i].clone());
            proof {
                assert(self.disk_types@.take(i + 1) =~= self.disk_types@.take(i as int).push(
                    self.disk_types@[i as int],
                ));
            }
            i += 1;
        }
        proof {
            assert(self.disk_types@.take(self.disk_types@.len() as int) =~= self.disk_types@);
        }
        sort_disks_by_price(copy)
    }

    /// Up to five of the cheapest flavors meeting the minimum shape, ordered
    /// by hourly price ascending. An empty result is not an error.
    pub fn find_best_match(&self, min_vcpus: u32, min_ram_mb: u64) -> (r: Vec<Flavor>)
        ensures
            ({
                let qual = self.flavors@.filter(
                    |f: Flavor| flavor_qualifies(f, min_vcpus, min_ram_mb),
                );
                &&& r@.len() <= 5
                &&& r@.len() == (if qual.len() < 5 {
                    qual.len() as int
                } else {
                    5
                })
                &&& flavors_sorted_by_price(r@)
                &&& forall|i: int|
                    0 <= i < r@.len() ==> flavor_qualifies(#[trigger] r@[i], min_vcpus, min_ram_mb)
                &&& exists|sq: Seq<Flavor>|
                    sq.to_multiset() == qual.to_multiset() && flavors_sorted_by_price(sq) && r@
                        == #[trigger] sq.take(r@.len() as int)
            }),
    {
        broadcast use vstd::seq_lib::group_to_multiset_ensures;

        let ghost pred = |f: Flavor| flavor_qualifies(f, min_vcpus, min_ram_mb);
        let mut qualified: Vec<Flavor> = Vec::new();
        let mut i: usize = 0;
        proof {
            assert(self.flavors@.take(0) =~= Seq::<Flavor>::empty());
            reveal(Seq::filter);
        }
        while i < self.flavors.len()
            invariant
                i <= self.flavors@.len(),
                qualified@ == self.flavors@.take(i as int).filter(pred),
                pred == (|f: Flavor| flavor_qualifies(f, min_vcpus, min_ram_mb)),
            decreases self.flavors@.len() - i,
        {
            proof {
                lemma_filter_take_step(self.flavors@, pred, i as int);
            }
            let f = &self.flavors[i];
            if f.vcpus >= min_vcpus && f.ram_mb >= min_ram_mb {
                qualified.push(f.clone());
            }
            i += 1;
        }
        proof {
            assert(self.flavors@.take(self.flavors@.len() as int) =~= self.flavors@);
        }
        let sorted = sort_flavors_by_price(qualified);
        let ghost sorted_seq = sorted@;
        let take_n: usize = if sorted.len() < 5 {
            sorted.len()
        } else {
            5
        };
        let mut out: Vec<Flavor> = Vec::new();
        let mut k: usize = 0;
        while k < take_n
            invariant
                take_n <= sorted@.len(),
                k <= take_n,
                sorted@ == sorted_seq,
                out@ == sorted@.take(k as int),
            decreases take_n - k,
        {
            out.push(sorted[k].clone());
            proof {
                assert(sorted@.take(k + 1) =~= sorted@.take(k as int).push(sorted@[k as int]));
            }
            k += 1;
        }
        proof {
            let qual = self.flavors@.filter(pred);
            assert(sorted_seq.to_multiset().len() == qual.to_multiset().len());
            assert(out@ == sorted_seq.take(out@.len() as int));
            assert forall|i2: int| 0 <= i2 < out@.len() implies flavor_qualifies(
                #[trigger] out@[i2],
                min_vcpus,
                min_ram_mb,
            ) by {
                assert(out@[i2] == sorted_seq[i2]);
                assert(sorted_seq.contains(sorted_seq[i2]));
                assert(sorted_seq.to_multiset().count(sorted_seq[i2]) > 0);
                assert(qual.to_multiset().count(sorted_seq[i2]) > 0);
                assert(qual.contains(sorted_seq[i2]));
                let w = choose|w: int| 0 <= w < qual.len() && qual[w] == sorted_seq[i2];
                assert(pred(qual[w])) by {
                    broadcast use vstd::seq_lib::group_filter_ensures;

                    assert(qual == self.flavors@.filter(pred));
                }
            }
        }
        out
    }

    /// The quote with the given identifier, or nothing when no quote has it.
    pub fn get_quote(&self, id: &str) -> (r: Option<Quote>)
        ensures
            match r {
                Some(q) => exists|i: int|
                    0 <= i < self.quotes@.len() && #[trigger] self.quotes@[i] == q && q.id@ == id@,
                None => !quote_id_taken(self.quotes@, id@),
            },
    {
        let mut i: usize = 0;
        while i < self.quotes.len()
            invariant
                i <= self.quotes@.len(),
                forall|k: int| 0 <= k < i ==> (#[trigger] self.quotes@[k]).id@ != id@,
            decreases self.quotes@.len() - i,
        {
            if str_eq(self.quotes[i].id.as_str(), id) {
                return Some(self.quotes[i].clone());
            }
            i += 1;
        }
        None
    }

    /// Whether some quote carries this identifier.
    pub fn has_quote(&self, id: &str) -> (r: bool)
        ensures
            r == quote_id_taken(self.quotes@, id@),
    {
        let mut i: usize = 0;
        while i < self.quotes.len()
            invariant
                i <= self.quotes@.len(),
                forall|k: int| 0 <= k < i ==> (#[trigger] self.quotes@[k]).id@ != id@,
            decreases self.quotes@.len() - i,
        {
            if str_eq(self.quotes[i].id.as_str(), id) {
                return true;
            }
            i += 1;
        }
        false
    }

    /// Whether some item carries this identifier.
    pub fn has_item(&self, id: &str) -> (r: bool)
        ensures
            r == item_id_taken(self.items@, id@),
    {
        let mut i: usize = 0;
        while i < self.items.len()
            invariant
                i <= self.items@.len(),
                forall|k: int| 0 <= k < i ==> (#[trigger] self.items@[k]).id@ != id@,
            decreases self.items@.len() - i,
        {
            if str_eq(self.items[i].id.as_str(), id) {
                return true;
            }
            i += 1;
        }
        false
    }

    /// All quotes, most recently updated first.
    pub fn get_quotes(&self) -> (r: Vec<Quote>)
        ensures
            r@.to_multiset() == self.quotes@.to_multiset(),
            quotes_sorted(r@, QuoteSortKey::UpdatedAt, SortOrder::Desc),
    {
        let mut copy: Vec<Quote> = Vec::new();
        let mut i: usize = 0;
        while i < self.quotes.len()
            invariant
                i <= self.quotes@.len(),
                copy@ == self.quotes@.take(i as int),
            decreases self.quotes@.len() - i,
        {
            copy.push(self.quotes[i].clone());
            proof {
                assert(self.quotes@.take(i + 1) =~= self.quotes@.take(i as int).push(
                    self.quotes@[i as int],
                ));
            }
            i += 1;
        }
        proof {
            assert(self.quotes@.take(self.quotes@.len() as int) =~= self.quotes@);
        }
        sort_quotes(copy, QuoteSortKey::UpdatedAt, SortOrder::Desc)
    }

    /// Persists a new quote under a fresh identifier; creation and update
    /// time start out equal.
    pub fn create_quote(&mut self, name: String, id: String, now: i64) -> (r: Quote)
        requires
            old(self).wf(),
            !quote_id_taken(old(self).quotes@, id@),
        ensures
            final(self).quotes@ == old(self).quotes@.push(r),
            r.id == id && r.name == name && r.created_at == now && r.updated_at == now,
            final(self).items@ == old(self).items@,
            final(self).flavors@ == old(self).flavors@,
            final(self).disk_types@ == old(self).disk_types@,
            final(self).wf(),
    {
        let q = Quote { id, name, created_at: now, updated_at: now };
        let r = q.clone();
        self.quotes.push(q);
        proof {
            assert forall|a: int, b: int| 0 <= a < b < self.quotes@.len() implies (
            #[trigger] self.quotes@[a]).id@ != (#[trigger] self.quotes@[b]).id@ by {
                if b == self.quotes@.len() - 1 {
                    assert(self.quotes@[a] == old(self).quotes@[a]);
                }
            }
            assert forall|a: int| 0 <= a < self.items@.len() implies quote_id_taken(
                self.quotes@,
                (#[trigger] self.items@[a]).quote_id@,
            ) by {
                let k = choose|k: int|
                    0 <= k < old(self).quotes@.len() && (#[trigger] old(self).quotes@[k]).id@ == old(
                        self,
                    ).items@[a].quote_id@;
                assert((#[trigger] self.quotes@[k]).id@ == self.items@[a].quote_id@);
            }
        }
        r
    }

    /// Renames every quote carrying the identifier and refreshes its update
    /// time; succeeds as a no-op when the identifier is unknown.
    pub fn update_quote(&mut self, id: &str, name: String, now: i64)
        requires
            old(self).wf(),
        ensures
            final(self).quotes@ == rename_quotes(old(self).quotes@, id@, name, now),
            final(self).items@ == old(self).items@,
            final(self).flavors@ == old(self).flavors@,
            final(self).disk_types@ == old(self).disk_types@,
            final(self).wf(),
    {
        let ghost f = |q: Quote|
            if q.id@ == id@ {
                Quote { id: q.id, name: name, created_at: q.created_at, updated_at: now }
            } else {
                q
            };
        let mut out: Vec<Quote> = Vec::new();
        let mut i: usize = 0;
        proof {
            assert(out@ =~= old(self).quotes@.take(0).map_values(f));
        }
        while i < self.quotes.len()
            invariant
                i <= self.quotes@.len(),
                self.quotes@ == old(self).quotes@,
                self.items@ == old(self).items@,
                self.flavors@ == old(self).flavors@,
                self.disk_types@ == old(self).disk_types@,
                out@ == old(self).quotes@.take(i as int).map_values(f),
                f == (|q: Quote|
                    if q.id@ == id@ {
                        Quote { id: q.id, name: name, created_at: q.created_at, updated_at: now }
                    } else {
                        q
                    }),
            decreases self.quotes@.len() - i,
        {
            let q = &self.quotes[i];
            if str_eq(q.id.as_str(), id) {
                out.push(
                    Quote {
                        id: q.id.clone(),
                        name: name.clone(),
                        created_at: q.created_at,
                        updated_at: now,
                    },
                );
            } else {
                out.push(q.clone());
            }
            proof {
                assert(old(self).quotes@.take(i + 1).map_values(f) =~= old(self).quotes@.take(
                    i as int,
                ).map_values(f).push(f(old(self).quotes@[i as int])));
            }
            i += 1;
        }
        proof {
            assert(old(self).quotes@.take(old(self).quotes@.len() as int) =~= old(self).quotes@);
        }
        self.quotes = out;
        proof {
            assert forall|a: int| 0 <= a < self.quotes@.len() implies (
            #[trigger] self.quotes@[a]).id@ == old(self).quotes@[a].id@ by {}
            assert forall|a: int| 0 <= a < self.items@.len() implies quote_id_taken(
                self.quotes@,
                (#[trigger] self.items@[a]).quote_id@,
            ) by {
                let k = choose|k: int|
                    0 <= k < old(self).quotes@.len() && (#[trigger] old(self).quotes@[k]).id@ == old(
                        self,
                    ).items@[a].quote_id@;
                assert((#[trigger] self.quotes@[k]).id@ == self.items@[a].quote_id@);
            }
        }
    }

    /// Deletes the quote and every item it owns; deleting an unknown
    /// identifier succeeds and changes nothing.
    pub fn delete_quote(&mut self, id: &str)
        requires
            old(self).wf(),
        ensures
            final(self).quotes@ == old(self).quotes@.filter(not_quote(id@)),
            final(self).items@ == old(self).items@.filter(not_owned_by(id@)),
            final(self).flavors@ == old(self).flavors@,
            final(self).disk_types@ == old(self).disk_types@,
            final(self).wf(),
    {
        let ghost qpred = not_quote(id@);
        let ghost ipred = not_owned_by(id@);
        let mut new_quotes: Vec<Quote> = Vec::new();
        let mut i: usize = 0;
        proof {
            assert(old(self).quotes@.take(0) =~= Seq::<Quote>::empty());
            reveal(Seq::filter);
        }
        while i < self.quotes.len()
            invariant
                i <= self.quotes@.len(),
                self.quotes@ == old(self).quotes@,
                self.items@ == old(self).items@,
                self.flavors@ == old(self).flavors@,
                self.disk_types@ == old(self).disk_types@,
                new_quotes@ == old(self).quotes@.take(i as int).filter(qpred),
                qpred == not_quote(id@),
            decreases self.quotes@.len() - i,
        {
            proof {
                lemma_filter_take_step(old(self).quotes@, qpred, i as int);
            }
            let q = &self.quotes[i];
            if !str_eq(q.id.as_str(), id) {
                new_quotes.push(q.clone());
            }
            i += 1;
        }
        let mut new_items: Vec<QuoteItem> = Vec::new();
        let mut j: usize = 0;
        proof {
            assert(old(self).items@.take(0) =~= Seq::<QuoteItem>::empty());
            reveal(Seq::filter);
        }
        while j < self.items.len()
            invariant
                j <= self.items@.len(),
                self.items@ == old(self).items@,
                new_items@ == old(self).items@.take(j as int).filter(ipred),
                ipred == not_owned_by(id@),
            decreases self.items@.len() - j,
        {
            proof {
                lemma_filter_take_step(old(self).items@, ipred, j as int);
            }
            let it = &self.items[j];
            if !str_eq(it.quote_id.as_str(), id) {
                new_items.push(it.clone());
            }
            j += 1;
        }
        proof {
            assert(old(self).quotes@.take(old(self).quotes@.len() as int) =~= old(self).quotes@);
            assert(old(self).items@.take(old(self).items@.len() as int) =~= old(self).items@);
        }
        self.quotes = new_quotes;
        self.items = new_items;
        proof {
            broadcast use vstd::seq_lib::group_filter_ensures;

            lemma_filter_keeps_distinct(old(self).quotes@, qpred, |q: Quote| q.id@);
            lemma_filter_keeps_distinct(old(self).items@, ipred, |it: QuoteItem| it.id@);
            lemma_filter_from_source(old(self).items@, ipred);
            assert forall|a: int| 0 <= a < self.items@.len() implies quote_id_taken(
                self.quotes@,
                (#[trigger] self.items@[a]).quote_id@,
            ) by {
                let it = self.items@[a];
                let k0 = choose|k0: int|
                    0 <= k0 < old(self).items@.len() && #[trigger] old(self).items@.filter(ipred)[a]
                        == old(self).items@[k0];
                assert(it == old(self).items@[k0]);
                assert(quote_id_taken(old(self).quotes@, it.quote_id@));
                let k = choose|k: int|
                    0 <= k < old(self).quotes@.len() && (#[trigger] old(self).quotes@[k]).id@
                        == it.quote_id@;
                assert(ipred(it));
                assert(it.quote_id@ != id@);
                assert(qpred(old(self).quotes@[k]));
                assert(old(self).quotes@.filter(qpred).contains(old(self).quotes@[k]));
                let w = choose|w: int|
                    0 <= w < self.quotes@.len() && #[trigger] self.quotes@[w] == old(
                        self,
                    ).quotes@[k];
                assert(self.quotes@[w].id@ == it.quote_id@);
            }
        }
    }

    /// The items of one quote, oldest first by creation time.
    pub fn get_items(&self, quote_id: &str) -> (r: Vec<QuoteItem>)
        ensures
            r@.to_multiset() == items_for(self.items@, quote_id@).to_multiset(),
            items_sorted_by_created(r@),
    {
        let ghost pred = owned_by(quote_id@);
        let mut owned: Vec<QuoteItem> = Vec::new();
        let mut i: usize = 0;
        proof {
            assert(self.items@.take(0) =~= Seq::<QuoteItem>::empty());
            reveal(Seq::filter);
        }
        while i < self.items.len()
            invariant
                i <= self.items@.len(),
                owned@ == self.items@.take(i as int).filter(pred),
                pred == owned_by(quote_id@),
            decreases self.items@.len() - i,
        {
            proof {
                lemma_filter_take_step(self.items@, pred, i as int);
            }
            let it = &self.items[i];
            if str_eq(it.quote_id.as_str(), quote_id) {
                owned.push(it.clone());
            }
            i += 1;
        }
        proof {
            assert(self.items@.take(self.items@.len() as int) =~= self.items@);
        }
        sort_items_by_created(owned)
    }

    /// Persists a new item under a fresh identifier for an existing quote,
    /// storing exactly the supplied optional fields; creation and update
    /// time start out equal.
    pub fn create_item(
        &mut self,
        quote_id: &str,
        fields: CreateQuoteItem,
        id: String,
        now: i64,
    ) -> (r: QuoteItem)
        requires
            old(self).wf(),
            !item_id_taken(old(self).items@, id@),
            quote_id_taken(old(self).quotes@, quote_id@),
        ensures
            final(self).items@ == old(self).items@.push(r),
            r.id == id,
            r.quote_id@ == quote_id@,
            r.flavor_id == fields.flavor_id,
            r.flavor_name == fields.flavor_name,
            r.vcpus == fields.vcpus,
            r.ram_mb == fields.ram_mb,
            r.flavor_price == fields.flavor_price,
            r.disk_type_id == fields.disk_type_id,
            r.disk_type_name == fields.disk_type_name,
            r.disk_size_gb == fields.disk_size_gb,
            r.disk_price == fields.disk_price,
            r.hostname == fields.hostname,
            r.code_number == fields.code_number,
            r.description == fields.description,
            r.created_at == now,
            r.updated_at == now,
            final(self).quotes@ == old(self).quotes@,
            final(self).flavors@ == old(self).flavors@,
            final(self).disk_types@ == old(self).disk_types@,
            final(self).wf(),
    {
        let it = QuoteItem {
            id,
            quote_id: quote_id.to_owned(),
            flavor_id: fields.flavor_id,
            flavor_name: fields.flavor_name,
            vcpus: fields.vcpus,
            ram_mb: fields.ram_mb,
            flavor_price: fields.flavor_price,
            disk_type_id: fields.disk_type_id,
            disk_type_name: fields.disk_type_name,
            disk_size_gb: fields.disk_size_gb,
            disk_price: fields.disk_price,
            hostname: fields.hostname,
            code_number: fields.code_number,
            description: fields.description,
            created_at: now,
            updated_at: now,
        };
        let r = it.clone();
        self.items.push(it);
        proof {
            assert forall|a: int, b: int| 0 <= a < b < self.items@.len() implies (
            #[trigger] self.items@[a]).id@ != (#[trigger] self.items@[b]).id@ by {
                if b == self.items@.len() - 1 {
                    assert(self.items@[a] == old(self).items@[a]);
                }
            }
            assert forall|a: int| 0 <= a < self.items@.len() implies quote_id_taken(
                self.quotes@,
                (#[trigger] self.items@[a]).quote_id@,
            ) by {
                if a < self.items@.len() - 1 {
                    assert(self.items@[a] == old(self).items@[a]);
                }
            }
        }
        r
    }

    /// Applies a partial update to every item carrying the identifier:
    /// supplied fields overwrite, absent fields stay, the update time is
    /// refreshed. No existence check: an unknown identifier is a no-op.
    pub fn update_item(&mut self, item_id: &str, u: &UpdateQuoteItem, now: i64)
        requires
            old(self).wf(),
        ensures
            final(self).items@ == update_items(old(self).items@, item_id@, *u, now),
            final(self).quotes@ == old(self).quotes@,
            final(self).flavors@ == old(self).flavors@,
            final(self).disk_types@ == old(self).disk_types@,
            final(self).wf(),
    {
        let ghost f = |it: QuoteItem|
            if it.id@ == item_id@ {
                merge_item(it, *u, now)
            } else {
                it
            };
        let mut out: Vec<QuoteItem> = Vec::new();
        let mut i: usize = 0;
        proof {
            assert(out@ =~= old(self).items@.take(0).map_values(f));
        }
        while i < self.items.len()
            invariant
                i <= self.items@.len(),
                self.items@ == old(self).items@,
                self.quotes@ == old(self).quotes@,
                self.flavors@ == old(self).flavors@,
                self.disk_types@ == old(self).disk_types@,
                out@ == old(self).items@.take(i as int).map_values(f),
                f == (|it: QuoteItem|
                    if it.id@ == item_id@ {
                        merge_item(it, *u, now)
                    } else {
                        it
                    }),
            decreases self.items@.len() - i,
        {
            let it = &self.items[i];
            if str_eq(it.id.as_str(), item_id) {
                out.push(
                    QuoteItem {
                        id: it.id.clone(),
                        quote_id: it.quote_id.clone(),
                        flavor_id: match &u.flavor_id {
                            Some(s) => Some(s.clone()),
                            None => crate::models::clone_opt_string(&it.flavor_id),
                        },
                        flavor_name: match &u.flavor_name {
                            Some(s) => Some(s.clone()),
                            None => crate::models::clone_opt_string(&it.flavor_name),
                        },
                        vcpus: match u.vcpus {
                            Some(x) => Some(x),
                            None => it.vcpus,
                        },
                        ram_mb: match u.ram_mb {
                            Some(x) => Some(x),
                            None => it.ram_mb,
                        },
                        flavor_price: match u.flavor_price {
                            Some(x) => Some(x),
                            None => it.flavor_price,
                        },
                        disk_type_id: match &u.disk_type_id {
                            Some(s) => Some(s.clone()),
                            None => crate::models::clone_opt_string(&it.disk_type_id),
                        },
                        disk_type_name: match &u.disk_type_name {
                            Some(s) => Some(s.clone()),
                            None => crate::models::clone_opt_string(&it.disk_type_name),
                        },
                        disk_size_gb: match u.disk_size_gb {
                            Some(x) => Some(x),
                            None => it.disk_size_gb,
                        },
                        disk_price: match u.disk_price {
                            Some(x) => Some(x),
                            None => it.disk_price,
                        },
                        hostname: match &u.hostname {
                            Some(s) => Some(s.clone()),
                            None => crate::models::clone_opt_string(&it.hostname),
                        },
                        code_number: match &u.code_number {
                            Some(s) => Some(s.clone()),
                            None => crate::models::clone_opt_string(&it.code_number),
                        },
                        description: match &u.description {
                            Some(s) => Some(s.clone()),
                            None => crate::models::clone_opt_string(&it.description),
                        },
                        created_at: it.created_at,
                        updated_at: now,
                    },
                );
            } else {
                out.push(it.clone());
            }
            proof {
                assert(old(self).items@.take(i + 1).map_values(f) =~= old(self).items@.take(
                    i as int,
                ).map_values(f).push(f(old(self).items@[i as int])));
            }
            i += 1;
        }
        proof {
            assert(old(self).items@.take(old(self).items@.len() as int) =~= old(self).items@);
        }
        self.items = out;
        proof {
            assert forall|a: int| 0 <= a < self.items@.len() implies (
            #[trigger] self.items@[a]).id@ == old(self).items@[a].id@ && self.items@[a].quote_id@
                == old(self).items@[a].quote_id@ by {}
            assert forall|a: int| 0 <= a < self.items@.len() implies quote_id_taken(
                self.quotes@,
                (#[trigger] self.items@[a]).quote_id@,
            ) by {
                assert(quote_id_taken(old(self).quotes@, old(self).items@[a].quote_id@));
            }
        }
    }

    /// Deletes the item carrying the identifier; deleting an unknown
    /// identifier succeeds and changes nothing.
    pub fn delete_item(&mut self, item_id: &str)
        requires
            old(self).wf(),
        ensures
            final(self).items@ == old(self).items@.filter(not_item(item_id@)),
            final(self).quotes@ == old(self).quotes@,
            final(self).flavors@ == old(self).flavors@,
            final(self).disk_types@ == old(self).disk_types@,
            final(self).wf(),
    {
        let ghost ipred = not_item(item_id@);
        let mut new_items: Vec<QuoteItem> = Vec::new();
        let mut i: usize = 0;
        proof {
            assert(old(self).items@.take(0) =~= Seq::<QuoteItem>::empty());
            reveal(Seq::filter);
        }
        while i < self.items.len()
            invariant
                i <= self.items@.len(),
                self.items@ == old(self).items@,
                self.quotes@ == old(self).quotes@,
                self.flavors@ == old(self).flavors@,
                self.disk_types@ == old(self).disk_types@,
                new_items@ == old(self).items@.take(i as int).filter(ipred),
                ipred == not_item(item_id@),
            decreases self.items@.len() - i,
        {
            proof {
                lemma_filter_take_step(old(self).items@, ipred, i as int);
            }
            let it = &self.items[i];
            if !str_eq(it.id.as_str(), item_id) {
                new_items.push(it.clone());
            }
            i += 1;
        }
        proof {
            assert(old(self).items@.take(old(self).items@.len() as int) =~= old(self).items@);
        }
        self.items = new_items;
        proof {
            lemma_filter_keeps_distinct(old(self).items@, ipred, |it: QuoteItem| it.id@);
            lemma_filter_from_source(old(self).items@, ipred);
            assert forall|a: int| 0 <= a < self.items@.len() implies quote_id_taken(
                self.quotes@,
                (#[trigger] self.items@[a]).quote_id@,
            ) by {
                let k0 = choose|k0: int|
                    0 <= k0 < old(self).items@.len() && #[trigger] old(self).items@.filter(ipred)[a]
                        == old(self).items@[k0];
                assert(self.items@[a] == old(self).items@[k0]);
                assert(quote_id_taken(old(self).quotes@, old(self).items@[k0].quote_id@));
            }
        }
    }

    /// One page of the quotes whose name contains the optional search text
    /// (ASCII case ignored), ordered under an allow-listed sort field and a
    /// direction, together with the total match count and the page count,
    /// `ceil(total / limit)`. The two counts are clamped to their field
    /// width, which no real store reaches.
    pub fn get_quotes_paginated(
        &self,
        page: u32,
        limit: u32,
        sort_key: QuoteSortKey,
        order: SortOrder,
        search: Option<&str>,
    ) -> (r: PaginatedResponse<Quote>)
        requires
            page >= 1,
            limit >= 1,
        ensures
            ({
                let filt = self.quotes@.filter(|q: Quote| quote_matches(q, search));
                let total = if filt.len() < u32::MAX {
                    filt.len() as int
                } else {
                    u32::MAX as int
                };
                &&& r.page == page
                &&& r.limit == limit
                &&& r.total as int == total
                &&& r.total_pages as int == (if ceil_div(total, limit as int) < u32::MAX {
                    ceil_div(total, limit as int)
                } else {
                    u32::MAX as int
                })
                &&& exists|sq: Seq<Quote>|
                    sq.to_multiset() == filt.to_multiset() && quotes_sorted(sq, sort_key, order)
                        && r.data@ == #[trigger] page_slice(sq, page as int, limit as int)
            }),
    {
        broadcast use vstd::seq_lib::group_to_multiset_ensures;

        let ghost pred = |q: Quote| quote_matches(q, search);
        let mut matched: Vec<Quote> = Vec::new();
        let mut i: usize = 0;
        proof {
            assert(self.quotes@.take(0) =~= Seq::<Quote>::empty());
            reveal(Seq::filter);
        }
        while i < self.quotes.len()
            invariant
                i <= self.quotes@.len(),
                matched@ == self.quotes@.take(i as int).filter(pred),
                pred == (|q: Quote| quote_matches(q, search)),
            decreases self.quotes@.len() - i,
        {
            proof {
                lemma_filter_take_step(self.quotes@, pred, i as int);
            }
            let q = &self.quotes[i];
            let keep = match search {
                Some(s) => contains_ci(q.name.as_str(), s),
                None => true,
            };
            if keep {
                matched.push(q.clone());
            }
            i += 1;
        }
        proof {
            assert(self.quotes@.take(self.quotes@.len() as int) =~= self.quotes@);
        }
        let sorted = sort_quotes(matched, sort_key, order);
        let ghost sq = sorted@;
        proof {
            assert(sq.to_multiset().len() == self.quotes@.filter(pred).to_multiset().len());
            assert(sorted.len() == sq.len());
        }
        let total_usize = sorted.len();
        let total: u32 = if total_usize >= u32::MAX as usize {
            u32::MAX
        } else {
            total_usize as u32
        };
        let lim64: u64 = limit as u64;
        let tot64: u64 = total as u64;
        let tp64: u64 = (tot64 + lim64 - 1) / lim64;
        let total_pages: u32 = if tp64 >= u32::MAX as u64 {
            u32::MAX
        } else {
            tp64 as u32
        };
        proof {
            assert((page - 1) as int * lim64 as int <= u32::MAX as int * u32::MAX as int)
                by (nonlinear_arith)
                requires
                    0 <= (page - 1) as int <= u32::MAX as int,
                    0 <= lim64 as int <= u32::MAX as int,
            ;
        }
        let start64: u64 = ((page - 1) as u64) * lim64;
        let len64: u64 = sorted.len() as u64;
        let mut data: Vec<Quote> = Vec::new();
        if start64 < len64 {
            let start: usize = start64 as usize;
            let mut k: usize = 0;
            proof {
                assert(sq.subrange(start as int, start as int) =~= Seq::<Quote>::empty());
            }
            while k < limit as usize && start + k < sorted.len()
                invariant
                    sorted@ == sq,
                    sq.len() == len64,
                    sq.len() <= usize::MAX as int,
                    start as int == (page - 1) as int * limit as int,
                    (start as int) < sq.len(),
                    k <= limit as int,
                    start + k <= sq.len(),
                    data@ == sq.subrange(start as int, (start + k) as int),
                decreases limit as int - k,
            {
                data.push(sorted[start + k].clone());
                proof {
                    assert(sq.subrange(start as int, (start + k + 1) as int) =~= sq.subrange(
                        start as int,
                        (start + k) as int,
                    ).push(sq[(start + k) as int]));
                }
                k += 1;
            }
            proof {
                assert(data@ == page_slice(sq, page as int, limit as int));
            }
        } else {
            proof {
                assert(data@ =~= page_slice(sq, page as int, limit as int));
            }
        }
        PaginatedResponse { data, total, page, limit, total_pages }
    }
}

} // verus!
