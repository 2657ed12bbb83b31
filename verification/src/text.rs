//! String operations that the catalog relies on, with their contracts.

use vstd::prelude::*;
use vstd::string::*;
use crate::models::shared::texts;

verus! {

/// The lowercase form of a string: what `str::to_lowercase` of the standard
/// library returns for it.
pub uninterp spec fn lowercase(s: Seq<char>) -> Seq<char>;

/// Trusted: calls `str::to_lowercase`. The result is a function of the text
/// alone (the Unicode case mapping, independent of any locale); the contract
/// only gives it the name `lowercase`.
#[verifier::external_body]
pub(crate) fn to_lowercase(s: &str) -> (r: String)
    ensures
        r@ == lowercase(s@),
{
    s.to_lowercase()
}

/// Trusted: calls `str::strip_prefix` with a string pattern. The standard
/// library documents that it returns the rest of the text after the prefix
/// when the text starts with the prefix, and `None` when it does not.
#[verifier::external_body]
pub(crate) fn strip_prefix<'a>(s: &'a str, prefix: &str) -> (r: Option<&'a str>)
    ensures
        r.is_some() <==> prefix@.is_prefix_of(s@),
        r matches Some(rest) ==> rest@ == s@.skip(prefix@.len() as int),
{
    s.strip_prefix(prefix)
}

/// The parts written one after another, with `sep` between every two
/// neighbours.
pub open spec fn joined(parts: Seq<Seq<char>>, sep: Seq<char>) -> Seq<char>
    decreases parts.len(),
{
    if parts.len() == 0 {
        Seq::empty()
    } else if parts.len() == 1 {
        parts[0]
    } else {
        joined(parts.drop_last(), sep) + sep + parts.last()
    }
}

/// Joins the strings of `parts` in order, with `sep` between them.
pub fn join(parts: &Vec<String>, sep: &str) -> (r: String)
    ensures
        r@ == joined(texts(parts@), sep@),
{
    let ghost views = texts(parts@);
    let mut out = String::new();
    let mut i: usize = 0;
    while i < parts.len()
        invariant
            i <= parts.len(),
            views == texts(parts@),
            out@ == joined(views.take(i as int), sep@),
        decreases parts.len() - i,
    {
        proof {
            assert(views.take(i + 1).drop_last() == views.take(i as int));
            assert(views.take(i + 1).last() == parts@[i as int]@);
            if i > 0 {
                assert(views.take(i as int).len() == i);
            } else {
                assert(out@ + parts@[0]@ == parts@[0]@);
            }
        }
        if i > 0 {
            out.append(sep);
        }
        out.append(parts[i].as_str());
        i += 1;
    }
    proof {
        assert(views.take(i as int) == views);
    }
    out
}

/// The text of a message that names a missing key: `lead`, the key, and a
/// closing quote.
pub open spec fn quoted(lead: Seq<char>, key: Seq<char>) -> Seq<char> {
    lead + key + "'"@
}

/// Builds the message `lead` + `key` + `'`.
pub fn quote_key(lead: &str, key: &str) -> (r: String)
    ensures
        r@ == quoted(lead@, key@),
{
    let mut out = String::from_str(lead);
    out.append(key);
    out.append("'");
    out
}

} // verus!
