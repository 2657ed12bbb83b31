use catppuccin_api::adapter::adapt;
use catppuccin_api::enrich::EnrichedPort;
use catppuccin_api::index::LookupIndex;
use catppuccin_api::merge::{find_unadaptable, merge, Fault, Merged};
use catppuccin_api::models::categories::Category;
use catppuccin_api::models::ports::{Link, Port, Root as PortsRoot, Showcase};
use catppuccin_api::models::shared::{Collaborator, SingleOrMultiple, StringOrStrings};
use catppuccin_api::models::userstyles::{Readme, Root as UserstylesRoot, Userstyle};
use catppuccin_api::query::{select_ports, Lookup, PortLookup};
use catppuccin_api::text::{join, quote_key};

fn s(text: &str) -> String {
    text.to_string()
}

fn person(name: Option<&str>, user: &str) -> Collaborator {
    Collaborator { name: name.map(s), url: format!("https://github.com/{user}") }
}

fn native(name: &str, categories: &[&str]) -> Port {
    Port {
        name: s(name),
        categories: categories.iter().map(|c| s(c)).collect(),
        upstreamed: None,
        platform: SingleOrMultiple::Multiple(vec![s("linux"), s("macos")]),
        url: None,
        links: Some(vec![Link { name: s("docs"), color: None, icon: None, url: s("https://d") }]),
        icon: Some(s("icon.svg")),
        color: s("#fff"),
        alias: Some(s("alias")),
        current_maintainers: vec![person(Some("Ada"), "ada")],
        past_maintainers: None,
        is_userstyle: false,
    }
}

fn style(names: StringOrStrings, links: StringOrStrings) -> Userstyle {
    Userstyle {
        name: names,
        categories: vec![s("web")],
        icon: Some(s("style.svg")),
        color: s("mauve"),
        readme: Readme { app_link: links },
        current_maintainers: vec![person(None, "bob")],
        past_maintainers: Some(vec![person(Some("Cy"), "cy")]),
    }
}

fn simple_style(name: &str) -> Userstyle {
    style(SingleOrMultiple::Single(s(name)), SingleOrMultiple::Single(s("https://app")))
}

fn category(key: &str, name: &str) -> Category {
    Category { key: s(key), name: s(name), description: s("about"), emoji: s("*") }
}

fn ports_doc(ports: Vec<(String, Port)>) -> PortsRoot {
    PortsRoot {
        collaborators: vec![person(Some("Ada"), "ada")],
        ports,
        categories: vec![category("term", "Terminal"), category("web", "Web")],
        showcases: vec![Showcase { title: s("t"), description: s("d"), link: s("l") }],
    }
}

fn styles_doc(userstyles: Vec<(String, Userstyle)>) -> UserstylesRoot {
    UserstylesRoot { collaborators: vec![person(None, "bob")], userstyles }
}

fn index(ports: Vec<(String, Port)>, userstyles: Vec<(String, Userstyle)>) -> LookupIndex {
    LookupIndex::from_documents(ports_doc(ports), styles_doc(userstyles)).unwrap()
}

#[test]
fn as_list_of_single_is_one_element() {
    let v: StringOrStrings = SingleOrMultiple::Single(s("a"));
    assert_eq!(v.as_list(), vec![s("a")]);
}

#[test]
fn as_list_of_multiple_is_the_list() {
    let v: StringOrStrings = SingleOrMultiple::Multiple(vec![s("a"), s("b"), s("c")]);
    assert_eq!(v.as_list(), vec![s("a"), s("b"), s("c")]);
    let empty: StringOrStrings = SingleOrMultiple::Multiple(vec![]);
    assert_eq!(empty.as_list(), Vec::<String>::new());
}

#[test]
fn as_single_joins_in_order() {
    let one: StringOrStrings = SingleOrMultiple::Single(s("a"));
    assert_eq!(one.as_single("/"), "a");
    let many: StringOrStrings = SingleOrMultiple::Multiple(vec![s("a"), s("b"), s("c")]);
    assert_eq!(many.as_single("/"), "a/b/c");
    assert_eq!(many.as_single(", "), "a, b, c");
    let lone: StringOrStrings = SingleOrMultiple::Multiple(vec![s("a")]);
    assert_eq!(lone.as_single("/"), "a");
    let empty: StringOrStrings = SingleOrMultiple::Multiple(vec![]);
    assert_eq!(empty.as_single("/"), "");
}

#[test]
fn join_matches_the_standard_join() {
    let parts = vec![s("x"), s(""), s("yz")];
    assert_eq!(join(&parts, "-"), parts.join("-"));
    assert_eq!(join(&parts, "-"), "x--yz");
    assert_eq!(join(&Vec::new(), "-"), "");
}

#[test]
fn first_picks_the_head() {
    let one: StringOrStrings = SingleOrMultiple::Single(s("a"));
    assert_eq!(one.first(), Some(s("a")));
    let many: StringOrStrings = SingleOrMultiple::Multiple(vec![s("b"), s("c")]);
    assert_eq!(many.first(), Some(s("b")));
    let empty: StringOrStrings = SingleOrMultiple::Multiple(vec![]);
    assert_eq!(empty.first(), None);
}

#[test]
fn default_one_or_many_is_single() {
    let d: StringOrStrings = SingleOrMultiple::default();
    assert_eq!(d, SingleOrMultiple::Single(String::new()));
}

#[test]
fn quote_key_builds_the_message() {
    assert_eq!(quote_key("No port with identifier '", "vim"), "No port with identifier 'vim'");
}

#[test]
fn username_strips_the_profile_prefix() {
    assert_eq!(person(None, "octocat").username(), Some(s("octocat")));
    let c = Collaborator { name: None, url: s("https://github.com/") };
    assert_eq!(c.username(), Some(s("")));
}

#[test]
fn username_needs_the_profile_prefix() {
    let c = Collaborator { name: None, url: s("https://gitlab.com/octocat") };
    assert_eq!(c.username(), None);
    let short = Collaborator { name: None, url: s("https://github.com") };
    assert_eq!(short.username(), None);
}

#[test]
fn username_depends_on_the_url_alone() {
    let a = Collaborator { name: Some(s("A")), url: s("https://github.com/same") };
    let b = Collaborator { name: None, url: s("https://github.com/same") };
    assert_eq!(a.username(), b.username());
}

#[test]
fn adapt_fills_the_fixed_fields() {
    let p = adapt("youtube", simple_style("YouTube"));
    assert!(p.is_userstyle);
    assert_eq!(p.upstreamed, Some(false));
    assert_eq!(p.platform, SingleOrMultiple::Single(s("agnostic")));
    assert_eq!(p.links, None);
    assert_eq!(p.alias, None);
}

#[test]
fn adapt_copies_and_derives_the_rest() {
    let u = style(
        SingleOrMultiple::Multiple(vec![s("Google"), s("Gmail")]),
        SingleOrMultiple::Multiple(vec![s("https://g"), s("https://m")]),
    );
    let p = adapt("google", u.clone());
    assert_eq!(
        p,
        Port {
            name: s("Google/Gmail"),
            categories: u.categories,
            upstreamed: Some(false),
            platform: SingleOrMultiple::Single(s("agnostic")),
            url: Some(s("https://g")),
            links: None,
            icon: u.icon,
            color: u.color,
            alias: None,
            current_maintainers: u.current_maintainers,
            past_maintainers: u.past_maintainers,
            is_userstyle: true,
        }
    );
}

#[test]
fn adapt_single_values() {
    let p = adapt("x", simple_style("X"));
    assert_eq!(p.name, "X");
    assert_eq!(p.url, Some(s("https://app")));
}

#[test]
fn merge_puts_native_ports_first() {
    let a = native("A", &["term"]);
    let b = native("B", &["web"]);
    let u = simple_style("U");
    let v = simple_style("V");
    let m = merge(
        ports_doc(vec![(s("b"), b.clone()), (s("a"), a.clone())]),
        styles_doc(vec![(s("v"), v.clone()), (s("u"), u.clone())]),
    )
    .unwrap();
    assert_eq!(
        m.ports,
        vec![
            (s("b"), b),
            (s("a"), a),
            (s("v"), adapt("v", v)),
            (s("u"), adapt("u", u)),
        ]
    );
    assert_eq!(m.collaborators, vec![person(Some("Ada"), "ada"), person(None, "bob")]);
    assert_eq!(m.categories, vec![category("term", "Terminal"), category("web", "Web")]);
    assert_eq!(m.showcases.len(), 1);
}

#[test]
fn merge_keeps_duplicate_identifiers() {
    let m = merge(
        ports_doc(vec![(s("mdbook"), native("mdBook", &[]))]),
        styles_doc(vec![(s("mdbook"), simple_style("mdBook"))]),
    )
    .unwrap();
    assert_eq!(m.ports.len(), 2);
    assert!(!m.ports[0].1.is_userstyle);
    assert!(m.ports[1].1.is_userstyle);
}

#[test]
fn merge_of_empty_documents_is_empty() {
    let m = merge(PortsRoot::default(), UserstylesRoot::default()).unwrap();
    assert_eq!(
        m,
        Merged { ports: vec![], collaborators: vec![], categories: vec![], showcases: vec![] }
    );
}

#[test]
fn merge_rejects_a_userstyle_without_link() {
    let broken = style(SingleOrMultiple::Single(s("B")), SingleOrMultiple::Multiple(vec![]));
    let also = style(SingleOrMultiple::Single(s("C")), SingleOrMultiple::Multiple(vec![]));
    let r = merge(
        ports_doc(vec![]),
        styles_doc(vec![(s("ok"), simple_style("A")), (s("bad"), broken), (s("worse"), also)]),
    );
    assert_eq!(r, Err(Fault::EmptyAppLink { identifier: s("bad") }));
}

#[test]
fn find_unadaptable_names_the_first() {
    let broken = style(SingleOrMultiple::Single(s("B")), SingleOrMultiple::Multiple(vec![]));
    assert_eq!(find_unadaptable(&vec![(s("ok"), simple_style("A"))]), None);
    assert_eq!(find_unadaptable(&vec![(s("bad"), broken)]), Some(s("bad")));
}

#[test]
fn build_rejects_a_foreign_collaborator_url() {
    let mut doc = ports_doc(vec![]);
    doc.collaborators.push(Collaborator { name: None, url: s("http://example.org/x") });
    doc.collaborators.push(Collaborator { name: None, url: s("nowhere") });
    let r = LookupIndex::from_documents(doc, styles_doc(vec![]));
    assert_eq!(r, Err(Fault::CollaboratorUrl { url: s("http://example.org/x") }));
}

#[test]
fn link_fault_comes_before_url_fault() {
    let mut doc = ports_doc(vec![]);
    doc.collaborators.push(Collaborator { name: None, url: s("nowhere") });
    let broken = style(SingleOrMultiple::Single(s("B")), SingleOrMultiple::Multiple(vec![]));
    let r = LookupIndex::from_documents(doc, styles_doc(vec![(s("bad"), broken)]));
    assert_eq!(r, Err(Fault::EmptyAppLink { identifier: s("bad") }));
}

#[test]
fn collaborators_last_write_wins() {
    let mut p = ports_doc(vec![]);
    p.collaborators = vec![person(Some("First"), "sam"), person(Some("Kim"), "kim")];
    let mut u = styles_doc(vec![]);
    u.collaborators = vec![person(Some("Second"), "sam")];
    let ix = LookupIndex::from_documents(p, u).unwrap();
    assert_eq!(
        ix.list_collaborators(),
        &vec![(s("sam"), person(Some("Second"), "sam")), (s("kim"), person(Some("Kim"), "kim"))]
    );
    assert_eq!(ix.get_collaborator("sam"), Lookup::Found(&person(Some("Second"), "sam")));
    assert_eq!(ix.find_collaborator("kim"), Some(&person(Some("Kim"), "kim")));
}

#[test]
fn collaborator_dedup_is_idempotent() {
    let people = vec![
        person(Some("One"), "x"),
        person(Some("Two"), "y"),
        person(Some("Three"), "x"),
    ];
    let mut once = ports_doc(vec![]);
    once.collaborators = people.clone();
    let mut empty = styles_doc(vec![]);
    empty.collaborators = vec![];
    let mut twice = ports_doc(vec![]);
    twice.collaborators = people.clone();
    let mut again = styles_doc(vec![]);
    again.collaborators = people;
    let a = LookupIndex::from_documents(once, empty).unwrap();
    let b = LookupIndex::from_documents(twice, again).unwrap();
    assert_eq!(a.list_collaborators(), b.list_collaborators());
    assert_eq!(
        a.list_collaborators(),
        &vec![(s("x"), person(Some("Three"), "x")), (s("y"), person(Some("Two"), "y"))]
    );
}

#[test]
fn get_collaborator_is_exact() {
    let ix = index(vec![], vec![]);
    assert_eq!(ix.get_collaborator("ada"), Lookup::Found(&person(Some("Ada"), "ada")));
    assert_eq!(
        ix.get_collaborator("Ada"),
        Lookup::NotFound(s("No collaborator with username 'Ada'"))
    );
    assert_eq!(ix.find_collaborator("Ada"), None);
}

#[test]
fn get_category_finds_by_key() {
    let ix = index(vec![], vec![]);
    assert_eq!(ix.get_category("term"), Lookup::Found(&category("term", "Terminal")));
    assert_eq!(ix.find_category("web"), Some(&category("web", "Web")));
    assert_eq!(ix.find_category("Web"), None);
}

#[test]
fn get_category_missing_key_names_the_key() {
    let ix = index(vec![], vec![]);
    match ix.get_category("nonexistent") {
        Lookup::NotFound(message) => {
            assert!(message.contains("nonexistent"));
            assert_eq!(message, "No category with key 'nonexistent'");
        }
        Lookup::Found(_) => panic!("found a category that is not there"),
    }
}

#[test]
fn later_category_with_same_key_counts() {
    let mut doc = ports_doc(vec![]);
    doc.categories = vec![category("k", "Old"), category("k", "New")];
    let ix = LookupIndex::from_documents(doc, styles_doc(vec![])).unwrap();
    assert_eq!(ix.get_category("k"), Lookup::Found(&category("k", "New")));
}

#[test]
fn case_insensitive_lookup_spans_both_sources() {
    let x = native("X", &[]);
    let y = simple_style("Y");
    let ix = index(vec![(s("A"), x.clone())], vec![(s("a"), y.clone())]);
    let adapted = adapt("a", y);
    assert_eq!(ix.get_port("a", false), PortLookup::MultiplePorts(vec![&x, &adapted]));
    assert_eq!(ix.get_port("A", false), PortLookup::MultiplePorts(vec![&x, &adapted]));
    assert_eq!(ix.get_port("A", true), PortLookup::SinglePort(&x));
    assert_eq!(ix.get_port("a", true), PortLookup::SinglePort(&adapted));
}

#[test]
fn get_port_missing_identifier() {
    let ix = index(vec![(s("vim"), native("Vim", &[]))], vec![]);
    assert_eq!(ix.get_port("emacs", true), PortLookup::NotFound(s("No port with identifier 'emacs'")));
    assert_eq!(ix.get_port("VIM", true), PortLookup::NotFound(s("No port with identifier 'VIM'")));
    assert_eq!(ix.get_port("VIM", false), PortLookup::SinglePort(&native("Vim", &[])));
}

#[test]
fn get_port_exact_duplicates_are_all_returned() {
    let n = native("mdBook", &[]);
    let u = simple_style("mdBook");
    let ix = index(vec![(s("mdbook"), n.clone())], vec![(s("mdbook"), u.clone())]);
    assert_eq!(ix.find_ports("mdbook", true), vec![&n, &adapt("mdbook", u)]);
    assert_eq!(ix.find_ports("none", true), Vec::<&Port>::new());
}

#[test]
fn ports_by_identifier_groups_exact_identifiers() {
    let a = native("A", &[]);
    let b = native("B", &[]);
    let u = simple_style("A");
    let ix = index(
        vec![(s("a"), a.clone()), (s("b"), b.clone())],
        vec![(s("a"), u.clone()), (s("B"), simple_style("C"))],
    );
    let groups = ix.ports_by_identifier();
    let ua = adapt("a", u);
    let uc = adapt("B", simple_style("C"));
    assert_eq!(
        groups,
        vec![(&s("a"), vec![&a, &ua]), (&s("b"), vec![&b]), (&s("B"), vec![&uc])]
    );
}

#[test]
fn list_operations_pass_through() {
    let a = native("A", &["term"]);
    let ix = index(vec![(s("a"), a.clone())], vec![]);
    assert_eq!(ix.list_ports(), &vec![(s("a"), a)]);
    assert_eq!(ix.list_categories(), &vec![category("term", "Terminal"), category("web", "Web")]);
    assert_eq!(
        ix.list_showcases(),
        &vec![Showcase { title: s("t"), description: s("d"), link: s("l") }]
    );
}

#[test]
fn single_native_port_is_listed_enriched() {
    let mut alacritty = native("Alacritty", &["term"]);
    alacritty.color = s("#fff");
    let doc = PortsRoot {
        collaborators: vec![],
        ports: vec![(s("alacritty"), alacritty.clone())],
        categories: vec![category("term", "Terminal")],
        showcases: vec![],
    };
    let ix = LookupIndex::from_documents(doc, UserstylesRoot::default()).unwrap();
    assert_eq!(ix.list_ports().len(), 1);
    let enriched = ix.enriched_ports().unwrap();
    let terminal = category("term", "Terminal");
    assert_eq!(
        enriched,
        vec![EnrichedPort {
            identifier: &s("alacritty"),
            port: &alacritty,
            categories: vec![&terminal],
        }]
    );
    assert_eq!(enriched[0].port.name, "Alacritty");
    assert!(!enriched[0].port.is_userstyle);
    assert_eq!(enriched[0].categories[0].name, "Terminal");
}

#[test]
fn enrichment_fails_on_the_first_unknown_key() {
    let ix = index(
        vec![(s("ok"), native("Ok", &["web", "term"])), (s("bad"), native("Bad", &["term", "x", "y"]))],
        vec![(s("later"), simple_style("L"))],
    );
    assert_eq!(
        ix.enriched_ports(),
        Err(Fault::UnknownCategory { identifier: s("bad"), key: s("x") })
    );
    assert_eq!(ix.resolve_categories(&vec![s("term"), s("zz"), s("y")]), Err(s("zz")));
    let web = category("web", "Web");
    let term = category("term", "Terminal");
    assert_eq!(ix.resolve_categories(&vec![s("web"), s("term"), s("web")]), Ok(vec![&web, &term, &web]));
}

#[test]
fn build_takes_the_merge_as_it_is() {
    let a = native("A", &[]);
    let merged = Merged {
        ports: vec![(s("a"), a.clone())],
        collaborators: vec![person(None, "z")],
        categories: vec![],
        showcases: vec![],
    };
    let ix = LookupIndex::build(merged).unwrap();
    assert_eq!(ix.ports, vec![(s("a"), a)]);
    assert_eq!(ix.collaborators, vec![(s("z"), person(None, "z"))]);
}

#[test]
fn default_category_is_empty() {
    let c = Category::default();
    assert_eq!(c, Category { key: s(""), name: s(""), description: s(""), emoji: s("") });
}

#[test]
fn select_ports_keeps_exact_keys_in_order() {
    let a = native("A", &[]);
    let b = native("B", &[]);
    let c = native("C", &[]);
    let candidates = vec![(s("k"), &a), (s("K"), &b), (s("k"), &c)];
    assert_eq!(select_ports(&candidates, "k"), vec![&a, &c]);
    assert_eq!(select_ports(&candidates, "K"), vec![&b]);
    assert_eq!(select_ports(&candidates, "x"), Vec::<&Port>::new());
}

#[test]
fn lookup_folds_beyond_ascii() {
    let ix = index(vec![(s("ÄB"), native("N", &[]))], vec![]);
    assert_eq!(ix.get_port("äb", false), PortLookup::SinglePort(&native("N", &[])));
    assert_eq!(ix.get_port("äb", true), PortLookup::NotFound(s("No port with identifier 'äb'")));
}
