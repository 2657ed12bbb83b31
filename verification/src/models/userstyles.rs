use crate::assoc::distinct_keys;
use crate::models::shared::{
    collaborator_views, opt_collaborator_views, opt_text, texts, Collaborator, CollaboratorView,
    StringOrStrings, StringOrStringsView,
};
use vstd::prelude::*;

verus! {

/// The userstyles document: collaborators, and the userstyles under their
/// identifiers in the document's order.
#[derive(Default, Debug, Clone, PartialEq)]
pub struct Root {
    pub collaborators: Vec<Collaborator>,
    pub userstyles: Vec<(String, Userstyle)>,
}

/// The userstyles of a document without its collaborators.
#[derive(Default, Debug, Clone, PartialEq)]
pub struct UserstylesRoot {
    pub userstyles: Vec<(String, Userstyle)>,
}

/// A theme for a third-party web application, in the shape of its source.
#[derive(Default, Debug, Clone, PartialEq)]
pub struct Userstyle {
    pub name: StringOrStrings,
    pub categories: Vec<String>,
    pub icon: Option<String>,
    pub color: String,
    pub readme: Readme,
    pub current_maintainers: Vec<Collaborator>,
    pub past_maintainers: Option<Vec<Collaborator>>,
}

/// The part of a userstyle's readme that the catalog reads.
#[derive(Default, Debug, Clone, PartialEq)]
pub struct Readme {
    pub app_link: StringOrStrings,
}

/// What a `Readme` holds, as plain text.
pub ghost struct ReadmeView {
    pub app_link: StringOrStringsView,
}

impl View for Readme {
    type V = ReadmeView;

    open spec fn view(&self) -> ReadmeView {
        ReadmeView { app_link: self.app_link@ }
    }
}

/// What a `Userstyle` holds, as plain values.
pub ghost struct UserstyleView {
    pub name: StringOrStringsView,
    pub categories: Seq<Seq<char>>,
    pub icon: Option<Seq<char>>,
    pub color: Seq<char>,
    pub readme: ReadmeView,
    pub current_maintainers: Seq<CollaboratorView>,
    pub past_maintainers: Option<Seq<CollaboratorView>>,
}

impl View for Userstyle {
    type V = UserstyleView;

    open spec fn view(&self) -> UserstyleView {
        UserstyleView {
            name: self.name@,
            categories: texts(self.categories@),
            icon: opt_text(self.icon),
            color: self.color@,
            readme: self.readme@,
            current_maintainers: collaborator_views(self.current_maintainers@),
            past_maintainers: opt_collaborator_views(self.past_maintainers),
        }
    }
}

/// The views of a sequence of userstyles under their identifiers, in order.
pub open spec fn userstyle_pairs(v: Seq<(String, Userstyle)>) -> Seq<(Seq<char>, UserstyleView)> {
    Seq::new(v.len(), |i: int| (v[i].0@, v[i].1@))
}

impl Root {
    /// A userstyles document is well formed when it holds every identifier
    /// once.
    pub open spec fn wf(&self) -> bool {
        distinct_keys(userstyle_pairs(self.userstyles@))
    }
}

impl UserstylesRoot {
    /// The userstyles are well formed when every identifier stands once.
    pub open spec fn wf(&self) -> bool {
        distinct_keys(userstyle_pairs(self.userstyles@))
    }
}

} // verus!
