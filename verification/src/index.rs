//! The lookup index: the merged ports in their order, the collaborators by
//! username, the categories by key.

use crate::assoc::{
    assoc_map, distinct_keys, lemma_assoc_push, lemma_assoc_replace, lemma_assoc_twice,
};
use crate::merge::{adapted_pairs, all_adaptable, first_unadaptable, merge, Fault, Merged};
use crate::models::ports::Root as PortsRoot;
use crate::models::userstyles::{userstyle_pairs, Root as UserstylesRoot};
use crate::models::categories::{Category, CategoryView};
use crate::models::ports::{port_pairs, Port, PortView, Showcase};
use crate::models::shared::{collaborator_views, username_of, Collaborator, CollaboratorView};
use vstd::prelude::*;

verus! {

/// The index that the queries read. `collaborators` holds each username
/// once, with the collaborator that was seen last under it.
#[derive(Debug, Clone, PartialEq)]
pub struct LookupIndex {
    pub ports: Vec<(String, Port)>,
    pub collaborators: Vec<(String, Collaborator)>,
    pub categories: Vec<Category>,
    pub showcases: Vec<Showcase>,
}

/// The views of keyed collaborators, in order.
pub open spec fn collaborator_entries(v: Seq<(String, Collaborator)>) -> Seq<
    (Seq<char>, CollaboratorView),
> {
    Seq::new(v.len(), |i: int| (v[i].0@, v[i].1@))
}

/// The categories, each under its key, in order.
pub open spec fn category_entries(v: Seq<Category>) -> Seq<(Seq<char>, CategoryView)> {
    Seq::new(v.len(), |i: int| (v[i]@.key, v[i]@))
}

/// The collaborators, each under the username that its URL gives.
pub open spec fn keyed(cs: Seq<CollaboratorView>) -> Seq<(Seq<char>, CollaboratorView)> {
    Seq::new(cs.len(), |i: int| (username_of(cs[i].url).unwrap(), cs[i]))
}

/// The mapping from username to collaborator that a list of collaborators
/// gives: under each username the collaborator that comes last.
pub open spec fn by_username(cs: Seq<CollaboratorView>) -> Map<Seq<char>, CollaboratorView> {
    assoc_map(keyed(cs))
}

/// Whether every collaborator's URL gives a username.
pub open spec fn all_have_usernames(cs: Seq<CollaboratorView>) -> bool {
    forall|i: int| 0 <= i < cs.len() ==> username_of((#[trigger] cs[i]).url) is Some
}

/// Whether `i` is the place of the first collaborator whose URL gives no
/// username.
pub open spec fn first_without_username(cs: Seq<CollaboratorView>, i: int) -> bool {
    &&& 0 <= i < cs.len()
    &&& username_of(cs[i].url) is None
    &&& forall|j: int| 0 <= j < i ==> username_of((#[trigger] cs[j]).url) is Some
}

/// Reading a list of collaborators twice over gives the same mapping from
/// username to collaborator as reading it once: under each username the
/// last collaborator stays.
pub proof fn dedup_is_idempotent(cs: Seq<CollaboratorView>)
    ensures
        by_username(cs + cs) == by_username(cs),
{
    assert(keyed(cs + cs) =~= keyed(cs) + keyed(cs));
    lemma_assoc_twice(keyed(cs));
}

/// The place of an entry under `key`, if there is one.
fn position(entries: &Vec<(String, Collaborator)>, key: &String) -> (r: Option<usize>)
    ensures
        match r {
            Some(j) => j < entries.len() && entries@[j as int].0@ == key@,
            None => forall|i: int| 0 <= i < entries.len() ==> entries@[i].0@ != key@,
        },
{
    let mut i: usize = 0;
    while i < entries.len()
        invariant
            i <= entries.len(),
            forall|j: int| 0 <= j < i ==> entries@[j].0@ != key@,
        decreases entries.len() - i,
    {
        if entries[i].0 == *key {
            return Some(i);
        }
        i += 1;
    }
    None
}

impl LookupIndex {
    /// The ports under their identifiers, in the order of the merge.
    pub open spec fn pairs(&self) -> Seq<(Seq<char>, PortView)> {
        port_pairs(self.ports@)
    }

    /// The mapping from username to collaborator.
    pub open spec fn collaborator_map(&self) -> Map<Seq<char>, CollaboratorView> {
        assoc_map(collaborator_entries(self.collaborators@))
    }

    /// The mapping from key to category; of two categories with one key the
    /// later one counts.
    pub open spec fn category_map(&self) -> Map<Seq<char>, CategoryView> {
        assoc_map(category_entries(self.categories@))
    }

    /// The index is well formed when no username occurs twice and each
    /// collaborator stands under the username of its own URL.
    pub open spec fn wf(&self) -> bool {
        &&& distinct_keys(collaborator_entries(self.collaborators@))
        &&& forall|i: int|
            0 <= i < self.collaborators@.len() ==> username_of(
                (#[trigger] self.collaborators@[i]).1@.url,
            ) == Some(self.collaborators@[i].0@)
    }

    /// Merges the two documents and builds the index from the merge. The
    /// ports of the index are the native ports followed by the adapted
    /// userstyles; its collaborators are those of both documents, keyed by
    /// username. A userstyle without an application link is reported
    /// before a collaborator URL without a username.
    pub fn from_documents(ports_doc: PortsRoot, userstyles_doc: UserstylesRoot) -> (r: Result<
        LookupIndex,
        Fault,
    >)
        ensures
            match r {
                Ok(index) => {
                    &&& all_adaptable(userstyle_pairs(userstyles_doc.userstyles@))
                    &&& all_have_usernames(
                        collaborator_views(ports_doc.collaborators@) + collaborator_views(
                            userstyles_doc.collaborators@,
                        ),
                    )
                    &&& index.wf()
                    &&& index.pairs() == port_pairs(ports_doc.ports@) + adapted_pairs(
                        userstyle_pairs(userstyles_doc.userstyles@),
                    )
                    &&& index.collaborator_map() == by_username(
                        collaborator_views(ports_doc.collaborators@) + collaborator_views(
                            userstyles_doc.collaborators@,
                        ),
                    )
                    &&& index.categories == ports_doc.categories
                    &&& index.showcases == ports_doc.showcases
                },
                Err(Fault::EmptyAppLink { identifier }) => exists|i: int|
                    first_unadaptable(userstyle_pairs(userstyles_doc.userstyles@), i)
                        && identifier@ == userstyles_doc.userstyles@[i].0@,
                Err(Fault::CollaboratorUrl { url }) => {
                    &&& all_adaptable(userstyle_pairs(userstyles_doc.userstyles@))
                    &&& exists|i: int|
                        first_without_username(
                            collaborator_views(ports_doc.collaborators@) + collaborator_views(
                                userstyles_doc.collaborators@,
                            ),
                            i,
                        ) && url@ == (collaborator_views(ports_doc.collaborators@)
                            + collaborator_views(userstyles_doc.collaborators@))[i].url
                },
                Err(Fault::UnknownCategory { .. }) => false,
            },
    {
        match merge(ports_doc, userstyles_doc) {
            Ok(merged) => {
                let ghost cs = collaborator_views(merged.collaborators@);
                match LookupIndex::build(merged) {
                    Ok(index) => Ok(index),
                    Err(Fault::CollaboratorUrl { url }) => {
                        proof {
                            let i = choose|i: int|
                                first_without_username(cs, i) && url@
                                    == merged.collaborators@[i].url@;
                            assert(url@ == cs[i].url);
                        }
                        Err(Fault::CollaboratorUrl { url })
                    },
                    Err(fault) => Err(fault),
                }
            },
            Err(fault) => Err(fault),
        }
    }

    /// Builds the index from a merge. The ports, categories and showcases
    /// are taken as they are; the collaborators are keyed by username, a
    /// later one replacing an earlier one of the same username. It fails
    /// only on a collaborator whose URL gives no username, and names the
    /// first such URL.
    pub fn build(merged: Merged) -> (r: Result<LookupIndex, Fault>)
        ensures
            match r {
                Ok(index) => {
                    &&& all_have_usernames(collaborator_views(merged.collaborators@))
                    &&& index.wf()
                    &&& index.ports == merged.ports
                    &&& index.categories == merged.categories
                    &&& index.showcases == merged.showcases
                    &&& index.collaborator_map() == by_username(
                        collaborator_views(merged.collaborators@),
                    )
                },
                Err(Fault::CollaboratorUrl { url }) => exists|i: int|
                    first_without_username(collaborator_views(merged.collaborators@), i) && url@
                        == merged.collaborators@[i].url@,
                Err(_) => false,
            },
    {
        let ghost cs = collaborator_views(merged.collaborators@);
        let people = merged.collaborators;
        let mut keyed_people: Vec<(String, Collaborator)> = Vec::new();
        for person in it: people.into_iter()
            invariant
                it.seq() == people@,
                people == merged.collaborators,
                cs == collaborator_views(people@),
                forall|j: int| 0 <= j < it.index() ==> username_of((#[trigger] cs[j]).url) is Some,
                distinct_keys(collaborator_entries(keyed_people@)),
                forall|i: int|
                    0 <= i < keyed_people@.len() ==> username_of(
                        (#[trigger] keyed_people@[i]).1@.url,
                    ) == Some(keyed_people@[i].0@),
                assoc_map(collaborator_entries(keyed_people@)) == by_username(
                    cs.take(it.index() as int),
                ),
        {
            let ghost k = it.index() as int;
            let ghost before = collaborator_entries(keyed_people@);
            assert(cs[k] == person@);
            match person.username() {
                None => {
                    assert(first_without_username(cs, k));
                    assert(person.url@ == merged.collaborators@[k].url@);
                    return Err(Fault::CollaboratorUrl { url: person.url });
                },
                Some(name) => {
                    proof {
                        assert(keyed(cs.take(k + 1)) =~= keyed(cs.take(k)).push((name@, person@)));
                        lemma_assoc_push(keyed(cs.take(k)), name@, person@);
                    }
                    match position(&keyed_people, &name) {
                        Some(j) => {
                            proof {
                                lemma_assoc_replace(before, j as int, person@);
                            }
                            keyed_people.set(j, (name, person));
                            assert(collaborator_entries(keyed_people@) =~= before.update(
                                j as int,
                                (before[j as int].0, person@),
                            ));
                        },
                        None => {
                            proof {
                                lemma_assoc_push(before, name@, person@);
                            }
                            keyed_people.push((name, person));
                            assert(collaborator_entries(keyed_people@) =~= before.push(
                                (name@, person@),
                            ));
                            assert forall|i: int, j: int|
                                0 <= i < j < before.len() + 1 implies (#[trigger] before.push(
                                (name@, person@),
                            )[i]).0 != (#[trigger] before.push((name@, person@))[j]).0 by {
                                assert(before[i].0 == keyed_people@[i].0@);
                                if j < before.len() {
                                    assert(before[i].0 != before[j].0);
                                }
                            }
                        },
                    }
                },
            }
        }
        assert(cs.take(cs.len() as int) == cs);
        Ok(
            LookupIndex {
                ports: merged.ports,
                collaborators: keyed_people,
                categories: merged.categories,
                showcases: merged.showcases,
            },
        )
    }
}

} // verus!
