//! Turns a userstyle into the canonical port shape.

use crate::models::ports::{Port, PortView};
use crate::models::shared::{SingleOrMultiple, StringOrStringsView};
use crate::models::userstyles::{Userstyle, UserstyleView};
use vstd::prelude::*;
use vstd::string::*;

verus! {

/// The separator between the names of a userstyle that has several.
pub const NAME_JOINER: &'static str = "/";

/// The platform of every adapted userstyle.
pub const AGNOSTIC: &'static str = "agnostic";

/// The port that a userstyle stands for: the names joined into one, the
/// first application link as the URL, the fixed platform, never upstreamed,
/// no links and no alias, marked as a userstyle, and the rest as it was.
pub open spec fn adapted(u: UserstyleView) -> PortView
    recommends
        u.readme.app_link.items().len() > 0,
{
    PortView {
        name: u.name.single(NAME_JOINER@),
        categories: u.categories,
        upstreamed: Some(false),
        platform: StringOrStringsView::Single(AGNOSTIC@),
        url: u.readme.app_link.first(),
        links: None,
        icon: u.icon,
        color: u.color,
        alias: None,
        current_maintainers: u.current_maintainers,
        past_maintainers: u.past_maintainers,
        is_userstyle: true,
    }
}

/// Whether a userstyle can be adapted: it names at least one application
/// link.
pub open spec fn adaptable(u: UserstyleView) -> bool {
    u.readme.app_link.items().len() > 0
}

/// Adapts the userstyle found under an identifier to a port. The identifier
/// does not enter into the port: it stays the key under which the port is
/// filed.
pub fn adapt(_identifier: &str, userstyle: Userstyle) -> (r: Port)
    requires
        adaptable(userstyle@),
    ensures
        r@ == adapted(userstyle@),
        r.is_userstyle,
        r.upstreamed == Some(false),
        r@.platform == StringOrStringsView::Single(AGNOSTIC@),
        r.links is None,
        r.alias is None,
{
    let name = userstyle.name.as_single(NAME_JOINER);
    let url = userstyle.readme.app_link.first();
    Port {
        name,
        categories: userstyle.categories,
        upstreamed: Some(false),
        platform: SingleOrMultiple::Single(String::from_str(AGNOSTIC)),
        url,
        links: None,
        icon: userstyle.icon,
        color: userstyle.color,
        alias: None,
        current_maintainers: userstyle.current_maintainers,
        past_maintainers: userstyle.past_maintainers,
        is_userstyle: true,
    }
}

} // verus!
