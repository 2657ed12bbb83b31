//! Combines the two source documents into one ordered collection.

use crate::adapter::{adapt, adaptable, adapted};
use crate::models::categories::Category;
use crate::models::ports::{port_pairs, Port, PortView, Root as PortsRoot, Showcase};
use crate::models::shared::{collaborator_views, Collaborator, SingleOrMultiple};
use crate::models::userstyles::{userstyle_pairs, Root as UserstylesRoot, Userstyle, UserstyleView};
use vstd::prelude::*;

verus! {

/// A fault in the source data that stops the catalog from being built.
#[derive(Debug, Clone, PartialEq)]
pub enum Fault {
    /// The userstyle under this identifier names no application link.
    EmptyAppLink { identifier: String },
    /// This collaborator URL does not start with the profile prefix.
    CollaboratorUrl { url: String },
    /// The port under this identifier refers to a category key that the
    /// category table does not hold.
    UnknownCategory { identifier: String, key: String },
}

/// The two documents as one: the ports under their identifiers, native ones
/// first; the collaborators of both; the category table and the showcases.
#[derive(Debug, Clone, PartialEq)]
pub struct Merged {
    pub ports: Vec<(String, Port)>,
    pub collaborators: Vec<Collaborator>,
    pub categories: Vec<Category>,
    pub showcases: Vec<Showcase>,
}

/// The userstyles adapted one by one, each under its identifier.
pub open spec fn adapted_pairs(us: Seq<(Seq<char>, UserstyleView)>) -> Seq<(Seq<char>, PortView)> {
    Seq::new(us.len(), |i: int| (us[i].0, adapted(us[i].1)))
}

/// Whether `i` is the place of the first userstyle that cannot be adapted.
pub open spec fn first_unadaptable(us: Seq<(Seq<char>, UserstyleView)>, i: int) -> bool {
    &&& 0 <= i < us.len()
    &&& !adaptable(us[i].1)
    &&& forall|j: int| 0 <= j < i ==> adaptable(#[trigger] us[j].1)
}

/// Whether every userstyle can be adapted.
pub open spec fn all_adaptable(us: Seq<(Seq<char>, UserstyleView)>) -> bool {
    forall|j: int| 0 <= j < us.len() ==> adaptable(#[trigger] us[j].1)
}

/// The identifier of the first userstyle that names no application link,
/// if there is one.
pub fn find_unadaptable(userstyles: &Vec<(String, Userstyle)>) -> (r: Option<String>)
    ensures
        match r {
            Some(identifier) => exists|i: int|
                first_unadaptable(userstyle_pairs(userstyles@), i) && identifier@
                    == userstyles@[i].0@,
            None => all_adaptable(userstyle_pairs(userstyles@)),
        },
{
    let mut i: usize = 0;
    while i < userstyles.len()
        invariant
            i <= userstyles.len(),
            forall|j: int|
                0 <= j < i ==> adaptable(#[trigger] userstyle_pairs(userstyles@)[j].1),
        decreases userstyles.len() - i,
    {
        let is_empty = match &userstyles[i].1.readme.app_link {
            SingleOrMultiple::Single(_) => false,
            SingleOrMultiple::Multiple(v) => v.len() == 0,
        };
        if is_empty {
            let identifier = userstyles[i].0.clone();
            assert(first_unadaptable(userstyle_pairs(userstyles@), i as int));
            return Some(identifier);
        }
        i += 1;
    }
    None
}

/// Merges the two documents. The ports of the ports document come first, in
/// their order, then the userstyles in theirs, each adapted; the
/// collaborators of the ports document come before those of the userstyles
/// document; nothing is dropped or deduplicated. The merge fails only on a
/// userstyle without an application link, and names the first such.
pub fn merge(ports_doc: PortsRoot, userstyles_doc: UserstylesRoot) -> (r: Result<Merged, Fault>)
    ensures
        match r {
            Ok(m) => {
                &&& all_adaptable(userstyle_pairs(userstyles_doc.userstyles@))
                &&& port_pairs(m.ports@) == port_pairs(ports_doc.ports@) + adapted_pairs(
                    userstyle_pairs(userstyles_doc.userstyles@),
                )
                &&& collaborator_views(m.collaborators@) == collaborator_views(
                    ports_doc.collaborators@,
                ) + collaborator_views(userstyles_doc.collaborators@)
                &&& m.categories == ports_doc.categories
                &&& m.showcases == ports_doc.showcases
            },
            Err(Fault::EmptyAppLink { identifier }) => exists|i: int|
                first_unadaptable(userstyle_pairs(userstyles_doc.userstyles@), i) && identifier@
                    == userstyles_doc.userstyles@[i].0@,
            Err(_) => false,
        },
{
    if let Some(identifier) = find_unadaptable(&userstyles_doc.userstyles) {
        return Err(Fault::EmptyAppLink { identifier });
    }
    let ghost native = port_pairs(ports_doc.ports@);
    let ghost styles = userstyle_pairs(userstyles_doc.userstyles@);
    let ghost people = collaborator_views(ports_doc.collaborators@);
    let ghost more_people = collaborator_views(userstyles_doc.collaborators@);
    let mut ports = ports_doc.ports;
    let mut collaborators = ports_doc.collaborators;
    let userstyles = userstyles_doc.userstyles;
    let mut others = userstyles_doc.collaborators;
    for entry in it: userstyles.into_iter()
        invariant
            it.seq() == userstyles@,
            styles == userstyle_pairs(userstyles@),
            all_adaptable(styles),
            port_pairs(ports@) == native + adapted_pairs(styles.take(it.index() as int)),
    {
        let ghost before = port_pairs(ports@);
        let ghost k = it.index() as int;
        assert(styles[k] == (entry.0@, entry.1@));
        assert(adaptable(styles[k].1));
        let (identifier, userstyle) = entry;
        let port = adapt(identifier.as_str(), userstyle);
        ports.push((identifier, port));
        assert(port_pairs(ports@) =~= before.push(adapted_pairs(styles)[k]));
        assert(adapted_pairs(styles.take(k + 1)) =~= adapted_pairs(styles.take(k)).push(
            adapted_pairs(styles)[k],
        ));
    }
    assert(styles.take(styles.len() as int) == styles);
    collaborators.append(&mut others);
    assert(collaborator_views(collaborators@) =~= people + more_people);
    Ok(Merged {
        ports,
        collaborators,
        categories: ports_doc.categories,
        showcases: ports_doc.showcases,
    })
}

} // verus!
