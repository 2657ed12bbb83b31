//! Category enrichment: each port together with the categories that its
//! keys stand for.

use crate::index::LookupIndex;
use crate::merge::Fault;
use crate::models::categories::{Category, CategoryView};
use crate::models::ports::Port;
use crate::models::shared::texts;
use vstd::prelude::*;

verus! {

/// A port of the index with its identifier and its categories resolved.
#[derive(Debug, Clone, PartialEq)]
pub struct EnrichedPort<'a> {
    pub identifier: &'a String,
    pub port: &'a Port,
    pub categories: Vec<&'a Category>,
}

/// The views of a sequence of borrowed categories, in order.
pub open spec fn category_ref_views(v: Seq<&Category>) -> Seq<CategoryView> {
    Seq::new(v.len(), |i: int| v[i]@)
}

/// Whether the table holds every one of the keys.
pub open spec fn resolves(table: Map<Seq<char>, CategoryView>, keys: Seq<Seq<char>>) -> bool {
    forall|j: int| 0 <= j < keys.len() ==> table.contains_key(#[trigger] keys[j])
}

/// The categories that the keys stand for, in the order of the keys.
pub open spec fn resolved(table: Map<Seq<char>, CategoryView>, keys: Seq<Seq<char>>) -> Seq<
    CategoryView,
> {
    Seq::new(keys.len(), |j: int| table[keys[j]])
}

/// Whether `j` is the place of the first key that the table does not hold.
pub open spec fn first_unresolved(
    table: Map<Seq<char>, CategoryView>,
    keys: Seq<Seq<char>>,
    j: int,
) -> bool {
    &&& 0 <= j < keys.len()
    &&& !table.contains_key(keys[j])
    &&& forall|h: int| 0 <= h < j ==> table.contains_key(#[trigger] keys[h])
}

impl LookupIndex {
    /// Whether `(i, j)` is the place of the first category key of any port
    /// that the category table does not hold: port `i`, key `j` of it.
    pub open spec fn first_dangling(&self, i: int, j: int) -> bool {
        &&& 0 <= i < self.pairs().len()
        &&& first_unresolved(self.category_map(), self.pairs()[i].1.categories, j)
        &&& forall|h: int|
            0 <= h < i ==> resolves(self.category_map(), (#[trigger] self.pairs()[h]).1.categories)
    }

    /// Resolves category keys against the category table, in order. Fails
    /// on the first key that the table does not hold, and returns that key.
    pub fn resolve_categories(&self, keys: &Vec<String>) -> (r: Result<Vec<&Category>, String>)
        ensures
            match r {
                Ok(found) => {
                    &&& resolves(self.category_map(), texts(keys@))
                    &&& category_ref_views(found@) == resolved(self.category_map(), texts(keys@))
                },
                Err(key) => exists|j: int|
                    first_unresolved(self.category_map(), texts(keys@), j) && key@ == texts(
                        keys@,
                    )[j],
            },
    {
        let mut found: Vec<&Category> = Vec::new();
        let mut j: usize = 0;
        while j < keys.len()
            invariant
                j <= keys.len(),
                found@.len() == j,
                forall|h: int|
                    0 <= h < j ==> self.category_map().contains_key(#[trigger] texts(keys@)[h]),
                forall|h: int|
                    0 <= h < j ==> (#[trigger] found@[h])@ == self.category_map()[texts(keys@)[h]],
            decreases keys.len() - j,
        {
            assert(texts(keys@)[j as int] == keys@[j as int]@);
            match self.find_category(keys[j].as_str()) {
                Some(category) => {
                    found.push(category);
                },
                None => {
                    assert(first_unresolved(self.category_map(), texts(keys@), j as int));
                    return Err(keys[j].clone());
                },
            }
            j += 1;
        }
        assert(category_ref_views(found@) =~= resolved(self.category_map(), texts(keys@)));
        Ok(found)
    }

    /// Every port of the index, in order, with its categories resolved. A
    /// category key that the table does not hold is a fault in the data:
    /// the first such key, in the order of the ports and of their keys, is
    /// reported with the identifier of its port.
    pub fn enriched_ports(&self) -> (r: Result<Vec<EnrichedPort<'_>>, Fault>)
        ensures
            match r {
                Ok(ports) => {
                    &&& ports@.len() == self.pairs().len()
                    &&& forall|i: int|
                        0 <= i < ports@.len() ==> {
                            &&& (#[trigger] ports@[i]).identifier@ == self.pairs()[i].0
                            &&& ports@[i].port@ == self.pairs()[i].1
                            &&& resolves(self.category_map(), self.pairs()[i].1.categories)
                            &&& category_ref_views(ports@[i].categories@) == resolved(
                                self.category_map(),
                                self.pairs()[i].1.categories,
                            )
                        }
                },
                Err(Fault::UnknownCategory { identifier, key }) => exists|i: int, j: int|
                    #![trigger self.first_dangling(i, j)]
                    self.first_dangling(i, j) && identifier@ == self.pairs()[i].0 && key@
                        == self.pairs()[i].1.categories[j],
                Err(_) => false,
            },
    {
        let mut out: Vec<EnrichedPort<'_>> = Vec::new();
        let mut i: usize = 0;
        while i < self.ports.len()
            invariant
                i <= self.ports.len(),
                out@.len() == i,
                forall|h: int|
                    0 <= h < i ==> {
                        &&& (#[trigger] out@[h]).identifier@ == self.pairs()[h].0
                        &&& out@[h].port@ == self.pairs()[h].1
                        &&& category_ref_views(out@[h].categories@) == resolved(
                            self.category_map(),
                            self.pairs()[h].1.categories,
                        )
                    },
                forall|h: int|
                    0 <= h < i ==> resolves(
                        self.category_map(),
                        (#[trigger] self.pairs()[h]).1.categories,
                    ),
            decreases self.ports.len() - i,
        {
            let entry = &self.ports[i];
            assert(self.pairs()[i as int] == (entry.0@, entry.1@));
            match self.resolve_categories(&entry.1.categories) {
                Ok(categories) => {
                    out.push(EnrichedPort { identifier: &entry.0, port: &entry.1, categories });
                },
                Err(key) => {
                    let ghost j = choose|j: int|
                        first_unresolved(self.category_map(), texts(entry.1.categories@), j)
                            && key@ == texts(entry.1.categories@)[j];
                    assert(self.first_dangling(i as int, j));
                    return Err(Fault::UnknownCategory { identifier: entry.0.clone(), key });
                },
            }
            i += 1;
        }
        Ok(out)
    }
}

} // verus!
