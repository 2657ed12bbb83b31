use vstd::prelude::*;

verus! {

/// The categories of a ports document.
pub type Root = Vec<Category>;

/// A named grouping that ports refer to by `key`.
#[derive(Debug, Clone, PartialEq)]
pub struct Category {
    pub key: String,
    pub name: String,
    pub description: String,
    pub emoji: String,
}

/// What a `Category` holds, as plain text.
pub ghost struct CategoryView {
    pub key: Seq<char>,
    pub name: Seq<char>,
    pub description: Seq<char>,
    pub emoji: Seq<char>,
}

impl View for Category {
    type V = CategoryView;

    open spec fn view(&self) -> CategoryView {
        CategoryView {
            key: self.key@,
            name: self.name@,
            description: self.description@,
            emoji: self.emoji@,
        }
    }
}

impl Default for Category {
    fn default() -> (r: Category)
        ensures
            r@ == (CategoryView {
                key: Seq::empty(),
                name: Seq::empty(),
                description: Seq::empty(),
                emoji: Seq::empty(),
            }),
    {
        Category {
            key: String::new(),
            name: String::new(),
            description: String::new(),
            emoji: String::new(),
        }
    }
}

} // verus!
