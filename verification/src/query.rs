//! The read operations on the lookup index.

use crate::assoc::{
    assoc_map, distinct_keys, has_key, last_match, lemma_assoc_lookup, lemma_values_concat,
    lemma_values_distinct, values_under,
};
use crate::index::{category_entries, collaborator_entries, LookupIndex};
use crate::merge::adapted_pairs;
use crate::models::categories::Category;
use crate::models::ports::{port_pairs, Port, PortView, Root as PortsRoot, Showcase};
use crate::models::userstyles::{userstyle_pairs, Root as UserstylesRoot};
use crate::models::shared::Collaborator;
use crate::text::{lowercase, quote_key, quoted, to_lowercase};
use vstd::prelude::*;
use vstd::string::*;

verus! {

/// How the message for a missing port begins.
pub const NO_PORT: &'static str = "No port with identifier '";

/// How the message for a missing collaborator begins.
pub const NO_COLLABORATOR: &'static str = "No collaborator with username '";

/// How the message for a missing category begins.
pub const NO_CATEGORY: &'static str = "No category with key '";

/// The answer to a lookup by key: the record, or a message that names the
/// key that was not found.
#[derive(Debug, Clone, PartialEq)]
pub enum Lookup<T> {
    NotFound(String),
    Found(T),
}

/// The answer to a lookup of ports by identifier: none, one, or several.
#[derive(Debug, Clone, PartialEq)]
pub enum PortLookup<'a> {
    NotFound(String),
    SinglePort(&'a Port),
    MultiplePorts(Vec<&'a Port>),
}

/// The views of a sequence of borrowed ports, in order.
pub open spec fn port_ref_views(v: Seq<&Port>) -> Seq<PortView> {
    Seq::new(v.len(), |i: int| v[i]@)
}

/// An identifier as lookups compare it: as written where case counts,
/// lowercased where it does not.
pub open spec fn fold(identifier: Seq<char>, case_sensitive: bool) -> Seq<char> {
    if case_sensitive {
        identifier
    } else {
        lowercase(identifier)
    }
}

/// The pairs with every identifier folded.
pub open spec fn folded(pairs: Seq<(Seq<char>, PortView)>, case_sensitive: bool) -> Seq<
    (Seq<char>, PortView),
> {
    Seq::new(pairs.len(), |i: int| (fold(pairs[i].0, case_sensitive), pairs[i].1))
}

/// The ports whose identifier answers the query, in the order of the pairs:
/// those whose folded identifier is the folded query.
pub open spec fn matching(
    pairs: Seq<(Seq<char>, PortView)>,
    query: Seq<char>,
    case_sensitive: bool,
) -> Seq<PortView> {
    values_under(folded(pairs, case_sensitive), fold(query, case_sensitive))
}

/// Folds an identifier for comparison.
fn fold_identifier(identifier: &str, case_sensitive: bool) -> (r: String)
    ensures
        r@ == fold(identifier@, case_sensitive),
{
    if case_sensitive {
        String::from_str(identifier)
    } else {
        to_lowercase(identifier)
    }
}

/// The views of ports that stand under keys, in order.
pub open spec fn candidate_views(v: Seq<(String, &Port)>) -> Seq<(Seq<char>, PortView)> {
    Seq::new(v.len(), |i: int| (v[i].0@, v[i].1@))
}

/// Of ports that stand under keys, those whose key is exactly `wanted`, in
/// their order.
pub fn select_ports<'a>(candidates: &Vec<(String, &'a Port)>, wanted: &str) -> (r: Vec<&'a Port>)
    ensures
        port_ref_views(r@) == values_under(candidate_views(candidates@), wanted@),
{
    let key = String::from_str(wanted);
    let ghost views = candidate_views(candidates@);
    let mut found: Vec<&'a Port> = Vec::new();
    let mut i: usize = 0;
    while i < candidates.len()
        invariant
            i <= candidates.len(),
            key@ == wanted@,
            views == candidate_views(candidates@),
            port_ref_views(found@) == values_under(views.take(i as int), wanted@),
        decreases candidates.len() - i,
    {
        let ghost before = port_ref_views(found@);
        proof {
            assert(views.take(i + 1).drop_last() == views.take(i as int));
            assert(views.take(i + 1).last() == views[i as int]);
        }
        if candidates[i].0 == key {
            found.push(candidates[i].1);
            assert(port_ref_views(found@) =~= before.push(views[i as int].1));
        }
        i += 1;
    }
    assert(views.take(i as int) == views);
    found
}

/// The matches in two lists of pairs, one after the other, are the matches
/// in the first followed by the matches in the second: in a merged index
/// the native matches come before the userstyle matches.
pub proof fn matches_keep_source_order(
    first: Seq<(Seq<char>, PortView)>,
    second: Seq<(Seq<char>, PortView)>,
    query: Seq<char>,
    case_sensitive: bool,
)
    ensures
        matching(first + second, query, case_sensitive) == matching(first, query, case_sensitive)
            + matching(second, query, case_sensitive),
{
    assert(folded(first + second, case_sensitive) =~= folded(first, case_sensitive) + folded(
        second,
        case_sensitive,
    ));
    lemma_values_concat(
        folded(first, case_sensitive),
        folded(second, case_sensitive),
        fold(query, case_sensitive),
    );
}

/// In the merge of two documents that each hold every identifier once, an
/// identifier matches at most two ports exactly: at most one native port,
/// and after it at most one adapted userstyle.
pub proof fn identifier_matches_at_most_twice(
    ports_doc: PortsRoot,
    userstyles_doc: UserstylesRoot,
    query: Seq<char>,
)
    requires
        ports_doc.wf(),
        userstyles_doc.wf(),
    ensures
        matching(
            port_pairs(ports_doc.ports@) + adapted_pairs(
                userstyle_pairs(userstyles_doc.userstyles@),
            ),
            query,
            true,
        ).len() <= 2,
{
    let native = port_pairs(ports_doc.ports@);
    let styles = userstyle_pairs(userstyles_doc.userstyles@);
    let adapted = adapted_pairs(styles);
    assert forall|i: int, j: int| 0 <= i < j < adapted.len() implies (#[trigger] adapted[i]).0 != (
    #[trigger] adapted[j]).0 by {
        assert(styles[i].0 != styles[j].0);
    }
    assert(folded(native, true) =~= native);
    assert(folded(adapted, true) =~= adapted);
    lemma_values_distinct(native, query);
    lemma_values_distinct(adapted, query);
    matches_keep_source_order(native, adapted, query, true);
}

/// The views of groups of borrowed ports, each under its identifier.
pub open spec fn group_entries(v: Seq<(&String, Vec<&Port>)>) -> Seq<(Seq<char>, Seq<PortView>)> {
    Seq::new(v.len(), |g: int| (v[g].0@, port_ref_views(v[g].1@)))
}

/// The ports grouped by identifier: under every identifier that occurs, all
/// ports that stand under exactly that identifier, in the order of the
/// pairs.
pub open spec fn grouped(pairs: Seq<(Seq<char>, PortView)>) -> Map<Seq<char>, Seq<PortView>> {
    Map::new(
        |identifier: Seq<char>| has_key(pairs, identifier),
        |identifier: Seq<char>| matching(pairs, identifier, true),
    )
}

/// The place of the group under `key`, if there is one.
fn group_position(groups: &Vec<(&String, Vec<&Port>)>, key: &String) -> (r: Option<usize>)
    ensures
        match r {
            Some(g) => g < groups.len() && group_entries(groups@)[g as int].0 == key@,
            None => forall|g: int|
                0 <= g < groups.len() ==> (#[trigger] group_entries(groups@)[g]).0 != key@,
        },
{
    let mut g: usize = 0;
    while g < groups.len()
        invariant
            g <= groups.len(),
            forall|h: int| 0 <= h < g ==> (#[trigger] group_entries(groups@)[h]).0 != key@,
        decreases groups.len() - g,
    {
        if *groups[g].0 == *key {
            return Some(g);
        }
        g += 1;
    }
    None
}

impl LookupIndex {
    /// The ports grouped by identifier. No identifier has two groups, and
    /// the groups read as a map are the grouping of the index's pairs: under
    /// each identifier all its ports, native ones first.
    pub fn ports_by_identifier(&self) -> (r: Vec<(&String, Vec<&Port>)>)
        ensures
            distinct_keys(group_entries(r@)),
            assoc_map(group_entries(r@)) == grouped(self.pairs()),
    {
        let mut groups: Vec<(&String, Vec<&Port>)> = Vec::new();
        let mut i: usize = 0;
        while i < self.ports.len()
            invariant
                i <= self.ports.len(),
                distinct_keys(group_entries(groups@)),
                forall|g: int|
                    0 <= g < groups@.len() ==> {
                        &&& (#[trigger] group_entries(groups@)[g]).1 == matching(
                            self.pairs(),
                            group_entries(groups@)[g].0,
                            true,
                        )
                        &&& has_key(self.pairs(), group_entries(groups@)[g].0)
                    },
                forall|h: int|
                    0 <= h < i ==> has_key(
                        group_entries(groups@),
                        (#[trigger] self.pairs()[h]).0,
                    ),
            decreases self.ports.len() - i,
        {
            let identifier = &self.ports[i].0;
            let ghost before = group_entries(groups@);
            assert(self.pairs()[i as int].0 == identifier@);
            match group_position(&groups, identifier) {
                Some(g) => {
                    assert(before[g as int].0 == identifier@);
                },
                None => {
                    let members = self.find_ports(identifier.as_str(), true);
                    groups.push((identifier, members));
                    proof {
                        let after = group_entries(groups@);
                        assert(after =~= before.push(
                            (identifier@, matching(self.pairs(), identifier@, true)),
                        ));
                        assert forall|h: int| 0 <= h <= i implies has_key(
                            after,
                            (#[trigger] self.pairs()[h]).0,
                        ) by {
                            if h < i {
                                let g = choose|g: int|
                                    0 <= g < before.len() && (#[trigger] before[g]).0
                                        == self.pairs()[h].0;
                                assert(after[g].0 == self.pairs()[h].0);
                            } else {
                                assert(after[before.len() as int].0 == identifier@);
                            }
                        }
                        assert forall|a: int, b: int| 0 <= a < b < after.len() implies (
                        #[trigger] after[a]).0 != (#[trigger] after[b]).0 by {
                            assert(after[a] == before[a]);
                            if b < before.len() {
                                assert(after[b] == before[b]);
                            }
                        }
                        assert forall|g: int| 0 <= g < after.len() implies {
                            &&& (#[trigger] after[g]).1 == matching(self.pairs(), after[g].0, true)
                            &&& has_key(self.pairs(), after[g].0)
                        } by {
                            if g < before.len() {
                                assert(after[g] == before[g]);
                            }
                        }
                    }
                },
            }
            i += 1;
        }
        proof {
            let entries = group_entries(groups@);
            let pairs = self.pairs();
            assert forall|k: Seq<char>|
                #![trigger assoc_map(entries).dom().contains(k)]
                #![trigger grouped(pairs).dom().contains(k)]
                assoc_map(entries).dom().contains(k) == grouped(pairs).dom().contains(k) && (
                grouped(pairs).dom().contains(k) ==> assoc_map(entries)[k] == grouped(pairs)[k]) by {
                lemma_assoc_lookup(entries, k);
                if assoc_map(entries).contains_key(k) {
                    let g = choose|g: int| 0 <= g < entries.len() && (#[trigger] entries[g]).0 == k;
                    assert(has_key(pairs, entries[g].0));
                }
                if has_key(pairs, k) {
                    let h = choose|h: int| 0 <= h < pairs.len() && (#[trigger] pairs[h]).0 == k;
                    assert(has_key(entries, pairs[h].0));
                    let g = choose|g: int| 0 <= g < entries.len() && (#[trigger] entries[g]).0 == k;
                    assert(last_match(entries, k, g));
                }
            }
            assert(assoc_map(entries) =~= grouped(pairs));
        }
        groups
    }

    /// All ports under their identifiers, in the order of the merge:
    /// native ones first.
    pub fn list_ports(&self) -> (r: &Vec<(String, Port)>)
        ensures
            r == &self.ports,
            port_pairs(r@) == self.pairs(),
    {
        &self.ports
    }

    /// All collaborators under their usernames. They read as the mapping
    /// from username to collaborator, and in a well-formed index no
    /// username comes twice.
    pub fn list_collaborators(&self) -> (r: &Vec<(String, Collaborator)>)
        ensures
            r == &self.collaborators,
            assoc_map(collaborator_entries(r@)) == self.collaborator_map(),
            self.wf() ==> distinct_keys(collaborator_entries(r@)),
    {
        &self.collaborators
    }

    /// All categories. They read as the mapping from key to category.
    pub fn list_categories(&self) -> (r: &Vec<Category>)
        ensures
            r == &self.categories,
            assoc_map(category_entries(r@)) == self.category_map(),
    {
        &self.categories
    }

    /// All showcases, as the ports document gave them.
    pub fn list_showcases(&self) -> (r: &Vec<Showcase>)
        ensures
            r == &self.showcases,
    {
        &self.showcases
    }

    /// Every port whose identifier answers the query, in the order of the
    /// index. Where case does not count, the query and every stored
    /// identifier are lowercased for the comparison; the index keeps the
    /// identifiers as they were written.
    pub fn find_ports(&self, identifier: &str, case_sensitive: bool) -> (r: Vec<&Port>)
        ensures
            port_ref_views(r@) == matching(self.pairs(), identifier@, case_sensitive),
    {
        let wanted = fold_identifier(identifier, case_sensitive);
        let mut candidates: Vec<(String, &Port)> = Vec::new();
        let mut i: usize = 0;
        while i < self.ports.len()
            invariant
                i <= self.ports.len(),
                candidates@.len() == i,
                forall|j: int|
                    0 <= j < i ==> (#[trigger] candidates@[j]).0@ == fold(
                        self.ports@[j].0@,
                        case_sensitive,
                    ) && candidates@[j].1@ == self.ports@[j].1@,
            decreases self.ports.len() - i,
        {
            let key = fold_identifier(self.ports[i].0.as_str(), case_sensitive);
            candidates.push((key, &self.ports[i].1));
            i += 1;
        }
        assert(candidate_views(candidates@) =~= folded(self.pairs(), case_sensitive));
        select_ports(&candidates, wanted.as_str())
    }

    /// Looks ports up by identifier. Without a match the answer is
    /// `NotFound` with a message that quotes the identifier; with one match
    /// it is that port; with more it is all of them in the order of the
    /// index.
    pub fn get_port(&self, identifier: &str, case_sensitive: bool) -> (r: PortLookup<'_>)
        ensures
            match r {
                PortLookup::NotFound(message) => {
                    &&& matching(self.pairs(), identifier@, case_sensitive).len() == 0
                    &&& message@ == quoted(NO_PORT@, identifier@)
                },
                PortLookup::SinglePort(port) => matching(
                    self.pairs(),
                    identifier@,
                    case_sensitive,
                ) == seq![port@],
                PortLookup::MultiplePorts(ports) => {
                    &&& ports@.len() > 1
                    &&& port_ref_views(ports@) == matching(
                        self.pairs(),
                        identifier@,
                        case_sensitive,
                    )
                },
            },
    {
        let found = self.find_ports(identifier, case_sensitive);
        if found.len() == 0 {
            PortLookup::NotFound(quote_key(NO_PORT, identifier))
        } else if found.len() == 1 {
            assert(port_ref_views(found@) =~= seq![found@[0]@]);
            PortLookup::SinglePort(found[0])
        } else {
            PortLookup::MultiplePorts(found)
        }
    }

    /// The collaborator under a username, if the index holds one.
    pub fn find_collaborator(&self, username: &str) -> (r: Option<&Collaborator>)
        ensures
            r.is_some() == self.collaborator_map().contains_key(username@),
            r matches Some(c) ==> c@ == self.collaborator_map()[username@],
    {
        let key = String::from_str(username);
        let ghost entries = collaborator_entries(self.collaborators@);
        let mut i: usize = self.collaborators.len();
        while i > 0
            invariant
                i <= self.collaborators.len(),
                key@ == username@,
                entries == collaborator_entries(self.collaborators@),
                forall|j: int| i <= j < entries.len() ==> (#[trigger] entries[j]).0 != key@,
            decreases i,
        {
            i -= 1;
            if self.collaborators[i].0 == key {
                proof {
                    assert(entries[i as int].0 == key@);
                    assert(last_match(entries, key@, i as int));
                    lemma_assoc_lookup(entries, key@);
                }
                return Some(&self.collaborators[i].1);
            }
        }
        proof {
            lemma_assoc_lookup(entries, key@);
        }
        None
    }

    /// Looks a collaborator up by username, exactly as written. A miss is
    /// answered with a message that quotes the username.
    pub fn get_collaborator(&self, username: &str) -> (r: Lookup<&Collaborator>)
        ensures
            match r {
                Lookup::Found(c) => {
                    &&& self.collaborator_map().contains_key(username@)
                    &&& c@ == self.collaborator_map()[username@]
                },
                Lookup::NotFound(message) => {
                    &&& !self.collaborator_map().contains_key(username@)
                    &&& message@ == quoted(NO_COLLABORATOR@, username@)
                },
            },
    {
        match self.find_collaborator(username) {
            Some(c) => Lookup::Found(c),
            None => Lookup::NotFound(quote_key(NO_COLLABORATOR, username)),
        }
    }

    /// The category under a key, if the index holds one.
    pub fn find_category(&self, key: &str) -> (r: Option<&Category>)
        ensures
            r.is_some() == self.category_map().contains_key(key@),
            r matches Some(c) ==> c@ == self.category_map()[key@],
    {
        let wanted = String::from_str(key);
        let ghost entries = category_entries(self.categories@);
        let mut i: usize = self.categories.len();
        while i > 0
            invariant
                i <= self.categories.len(),
                wanted@ == key@,
                entries == category_entries(self.categories@),
                forall|j: int| i <= j < entries.len() ==> (#[trigger] entries[j]).0 != key@,
            decreases i,
        {
            i -= 1;
            if self.categories[i].key == wanted {
                proof {
                    assert(entries[i as int].0 == key@);
                    assert(last_match(entries, key@, i as int));
                    lemma_assoc_lookup(entries, key@);
                }
                return Some(&self.categories[i]);
            }
        }
        proof {
            lemma_assoc_lookup(entries, key@);
        }
        None
    }

    /// Looks a category up by key, exactly as written. A miss is answered
    /// with a message that quotes the key.
    pub fn get_category(&self, key: &str) -> (r: Lookup<&Category>)
        ensures
            match r {
                Lookup::Found(c) => {
                    &&& self.category_map().contains_key(key@)
                    &&& c@ == self.category_map()[key@]
                },
                Lookup::NotFound(message) => {
                    &&& !self.category_map().contains_key(key@)
                    &&& message@ == quoted(NO_CATEGORY@, key@)
                },
            },
    {
        match self.find_category(key) {
            Some(c) => Lookup::Found(c),
            None => Lookup::NotFound(quote_key(NO_CATEGORY, key)),
        }
    }
}

} // verus!
