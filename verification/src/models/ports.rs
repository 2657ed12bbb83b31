use crate::assoc::distinct_keys;
use crate::models::categories::Category;
use crate::models::shared::{
    collaborator_views, opt_collaborator_views, opt_text, texts, Collaborator, CollaboratorView,
    SingleOrMultiple, StringOrStringsView,
};
use vstd::prelude::*;

verus! {

/// The ports document: collaborators, the ports under their identifiers in
/// the document's order, the category table and the showcases.
#[derive(Default, Debug, Clone, PartialEq)]
pub struct Root {
    pub collaborators: Vec<Collaborator>,
    pub ports: Vec<(String, Port)>,
    pub categories: Vec<Category>,
    pub showcases: Vec<Showcase>,
}

/// The canonical entity: a themed application, native or adapted from a
/// userstyle.
#[derive(Default, Debug, Clone, PartialEq)]
pub struct Port {
    pub name: String,
    pub categories: Vec<String>,
    pub upstreamed: Option<bool>,
    pub platform: SingleOrMultiple<String>,
    pub url: Option<String>,
    pub links: Option<Vec<Link>>,
    pub icon: Option<String>,
    pub color: String,
    pub alias: Option<String>,
    pub current_maintainers: Vec<Collaborator>,
    pub past_maintainers: Option<Vec<Collaborator>>,
    pub is_userstyle: bool,
}

/// A further link of a port.
#[derive(Debug, Clone, PartialEq)]
pub struct Link {
    pub name: String,
    pub color: Option<String>,
    pub icon: Option<String>,
    pub url: String,
}

/// A showcase entry, handed through as it is.
#[derive(Debug, Clone, PartialEq)]
pub struct Showcase {
    pub title: String,
    pub description: String,
    pub link: String,
}

/// What a `Link` holds, as plain text.
pub ghost struct LinkView {
    pub name: Seq<char>,
    pub color: Option<Seq<char>>,
    pub icon: Option<Seq<char>>,
    pub url: Seq<char>,
}

impl View for Link {
    type V = LinkView;

    open spec fn view(&self) -> LinkView {
        LinkView {
            name: self.name@,
            color: opt_text(self.color),
            icon: opt_text(self.icon),
            url: self.url@,
        }
    }
}

/// The views of an optional list of links.
pub open spec fn opt_link_views(v: Option<Vec<Link>>) -> Option<Seq<LinkView>> {
    match v {
        Some(l) => Some(Seq::new(l@.len(), |i: int| l@[i]@)),
        None => None,
    }
}

/// What a `Showcase` holds, as plain text.
pub ghost struct ShowcaseView {
    pub title: Seq<char>,
    pub description: Seq<char>,
    pub link: Seq<char>,
}

impl View for Showcase {
    type V = ShowcaseView;

    open spec fn view(&self) -> ShowcaseView {
        ShowcaseView { title: self.title@, description: self.description@, link: self.link@ }
    }
}

/// What a `Port` holds, as plain values.
pub ghost struct PortView {
    pub name: Seq<char>,
    pub categories: Seq<Seq<char>>,
    pub upstreamed: Option<bool>,
    pub platform: StringOrStringsView,
    pub url: Option<Seq<char>>,
    pub links: Option<Seq<LinkView>>,
    pub icon: Option<Seq<char>>,
    pub color: Seq<char>,
    pub alias: Option<Seq<char>>,
    pub current_maintainers: Seq<CollaboratorView>,
    pub past_maintainers: Option<Seq<CollaboratorView>>,
    pub is_userstyle: bool,
}

impl View for Port {
    type V = PortView;

    open spec fn view(&self) -> PortView {
        PortView {
            name: self.name@,
            categories: texts(self.categories@),
            upstreamed: self.upstreamed,
            platform: self.platform@,
            url: opt_text(self.url),
            links: opt_link_views(self.links),
            icon: opt_text(self.icon),
            color: self.color@,
            alias: opt_text(self.alias),
            current_maintainers: collaborator_views(self.current_maintainers@),
            past_maintainers: opt_collaborator_views(self.past_maintainers),
            is_userstyle: self.is_userstyle,
        }
    }
}

/// The views of a sequence of ports under their identifiers, in order.
pub open spec fn port_pairs(v: Seq<(String, Port)>) -> Seq<(Seq<char>, PortView)> {
    Seq::new(v.len(), |i: int| (v[i].0@, v[i].1@))
}

impl Root {
    /// A ports document is well formed when it holds every identifier once.
    pub open spec fn wf(&self) -> bool {
        distinct_keys(port_pairs(self.ports@))
    }
}

} // verus!
