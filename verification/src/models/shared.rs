use crate::text::{join, joined, strip_prefix};
use vstd::prelude::*;

verus! {

/// The texts of a sequence of strings, in order.
pub open spec fn texts(v: Seq<String>) -> Seq<Seq<char>> {
    Seq::new(v.len(), |i: int| v[i]@)
}

/// A value that its source wrote either as one scalar or as a list of
/// scalars. Which form was given is kept.
#[derive(Debug, Clone, PartialEq)]
pub enum SingleOrMultiple<T> {
    Single(T),
    Multiple(Vec<T>),
}

/// A one-or-many value of strings.
pub type StringOrStrings = SingleOrMultiple<String>;

impl<T: Default> Default for SingleOrMultiple<T> {
    /// The single form, holding the default of the inner type.
    fn default() -> (r: Self)
        ensures
            r matches SingleOrMultiple::Single(value) && call_ensures(T::default, (), value),
    {
        SingleOrMultiple::Single(T::default())
    }
}

/// What a one-or-many value of strings holds, as plain text.
pub ghost enum StringOrStringsView {
    Single(Seq<char>),
    Multiple(Seq<Seq<char>>),
}

impl StringOrStringsView {
    /// The values in order: the lone value, or the list as it stands.
    pub open spec fn items(self) -> Seq<Seq<char>> {
        match self {
            StringOrStringsView::Single(s) => seq![s],
            StringOrStringsView::Multiple(v) => v,
        }
    }

    /// The one display string: the lone value, or the list joined by
    /// `joiner`.
    pub open spec fn single(self, joiner: Seq<char>) -> Seq<char> {
        match self {
            StringOrStringsView::Single(s) => s,
            StringOrStringsView::Multiple(v) => joined(v, joiner),
        }
    }

    /// The first value, where there is one.
    pub open spec fn first(self) -> Option<Seq<char>> {
        if self.items().len() > 0 {
            Some(self.items()[0])
        } else {
            None
        }
    }
}

impl View for SingleOrMultiple<String> {
    type V = StringOrStringsView;

    open spec fn view(&self) -> StringOrStringsView {
        match self {
            SingleOrMultiple::Single(s) => StringOrStringsView::Single(s@),
            SingleOrMultiple::Multiple(v) => StringOrStringsView::Multiple(texts(v@)),
        }
    }
}

impl SingleOrMultiple<String> {
    /// The values as a list: one element for a single value, the list
    /// unchanged for several.
    pub fn as_list(&self) -> (r: Vec<String>)
        ensures
            texts(r@) == self@.items(),
    {
        match self {
            SingleOrMultiple::Single(s) => {
                let r = vec![s.clone()];
                assert(texts(r@) =~= self@.items());
                r
            },
            SingleOrMultiple::Multiple(v) => {
                let mut r: Vec<String> = Vec::new();
                let mut i: usize = 0;
                while i < v.len()
                    invariant
                        i <= v.len(),
                        r@.len() == i,
                        forall|j: int| 0 <= j < i ==> r@[j]@ == v@[j]@,
                    decreases v.len() - i,
                {
                    r.push(v[i].clone());
                    i += 1;
                }
                assert(texts(r@) =~= texts(v@));
                r
            },
        }
    }

    /// The value as one string: a single value as it is, several joined in
    /// order with `joiner` between them.
    pub fn as_single(&self, joiner: &str) -> (r: String)
        ensures
            r@ == self@.single(joiner@),
    {
        match self {
            SingleOrMultiple::Single(s) => s.clone(),
            SingleOrMultiple::Multiple(v) => join(v, joiner),
        }
    }

    /// The first value: the lone value, or the head of the list. `None`
    /// exactly when the list form is empty.
    pub fn first(&self) -> (r: Option<String>)
        ensures
            r.is_some() <==> self@.items().len() > 0,
            match r {
                Some(s) => Some(s@) == self@.first(),
                None => self@.first().is_none(),
            },
    {
        match self {
            SingleOrMultiple::Single(s) => Some(s.clone()),
            SingleOrMultiple::Multiple(v) => {
                if v.len() > 0 {
                    Some(v[0].clone())
                } else {
                    None
                }
            },
        }
    }
}

/// A person credited on ports or userstyles.
#[derive(Default, Debug, Clone, PartialEq)]
pub struct Collaborator {
    pub name: Option<String>,
    pub url: String,
}

/// The text of an optional string.
pub open spec fn opt_text(s: Option<String>) -> Option<Seq<char>> {
    match s {
        Some(t) => Some(t@),
        None => None,
    }
}

/// What a `Collaborator` holds, as plain text.
pub ghost struct CollaboratorView {
    pub name: Option<Seq<char>>,
    pub url: Seq<char>,
}

impl View for Collaborator {
    type V = CollaboratorView;

    open spec fn view(&self) -> CollaboratorView {
        CollaboratorView { name: opt_text(self.name), url: self.url@ }
    }
}

/// The views of a sequence of collaborators, in order.
pub open spec fn collaborator_views(v: Seq<Collaborator>) -> Seq<CollaboratorView> {
    Seq::new(v.len(), |i: int| v[i]@)
}

/// The views of an optional list of collaborators.
pub open spec fn opt_collaborator_views(v: Option<Vec<Collaborator>>) -> Option<
    Seq<CollaboratorView>,
> {
    match v {
        Some(c) => Some(collaborator_views(c@)),
        None => None,
    }
}

/// The prefix that every collaborator's profile URL starts with.
pub const PROFILE_PREFIX: &'static str = "https://github.com/";

/// The username that a profile URL stands for: what follows the profile
/// prefix. A URL that does not start with the prefix has none.
pub open spec fn username_of(url: Seq<char>) -> Option<Seq<char>> {
    if PROFILE_PREFIX@.is_prefix_of(url) {
        Some(url.skip(PROFILE_PREFIX@.len() as int))
    } else {
        None
    }
}

impl Collaborator {
    /// The username derived from the profile URL, or `None` where the URL
    /// does not start with the profile prefix.
    pub fn username(&self) -> (r: Option<String>)
        ensures
            opt_text(r) == username_of(self.url@),
    {
        match strip_prefix(self.url.as_str(), PROFILE_PREFIX) {
            Some(rest) => Some(String::from_str(rest)),
            None => None,
        }
    }
}

/// The username depends on the URL alone: two collaborators with the same
/// URL have the same username, whatever their names.
pub proof fn username_depends_on_url_only(a: Collaborator, b: Collaborator)
    requires
        a.url@ == b.url@,
    ensures
        username_of(a@.url) == username_of(b@.url),
{
}

} // verus!
