use adblock::resources::{MimeType, PermissionMask, Resource, ResourceType};
use castaway_pipeline::filterlists::modules::{
    imported_modules, module_url, resolve_relative, Crawl,
};
use castaway_pipeline::filterlists::{
    cache_dir, cache_stamp, load_cached_only, load_or_fetch_all_from, scriptlets, CachePaths,
    Copied, Subscription, MAX_MODULES, SHORTEST_LIST,
};
use castaway_pipeline::span::Span;

fn list(rule: &str) -> String {
    format!("{rule}\n{}", "!\n".repeat(600))
}

fn subscription(fetched: Option<&str>, cached: Option<&str>) -> Subscription {
    Subscription {
        fetched: fetched.map(str::to_string),
        cached: cached.map(str::to_string),
    }
}

fn resource(name: &str) -> Resource {
    Resource {
        name: name.to_string(),
        aliases: vec!["alias".to_string()],
        kind: ResourceType::Mime(MimeType::ApplicationJavascript),
        content: "Ym9keQ==".to_string(),
        dependencies: vec!["safe-self.fn".to_string()],
        permission: PermissionMask::from_bits(1),
    }
}

#[test]
fn both_subscriptions_end_up_in_one_list() {
    let easylist = list("||tracker.example^");
    let ubo = list("||ubo-only.example^");
    let (loaded, first, second, json) = load_or_fetch_all_from(
        &subscription(None, Some(&easylist)),
        &subscription(None, Some(&ubo)),
        None,
        &None,
    );
    assert_eq!(loaded.rules, Some(format!("{easylist}\n{ubo}\n")));
    assert_eq!((first, second), (Copied::Cached, Copied::Cached));
    assert_eq!(json, None);
}

#[test]
fn a_missing_scriptlet_bundle_leaves_the_rules() {
    let easylist = list("||tracker.example^");
    let (loaded, first, second, _) = load_or_fetch_all_from(
        &subscription(None, Some(&easylist)),
        &subscription(None, None),
        None,
        &None,
    );
    assert!(loaded.resources.is_empty());
    assert_eq!(loaded.rules, Some(format!("{easylist}\n")));
    assert_eq!((first, second), (Copied::Cached, Copied::Missing));
}

#[test]
fn no_list_at_all_falls_back_to_the_built_in_one() {
    let (loaded, ..) = load_or_fetch_all_from(
        &subscription(Some("404: Not Found"), None),
        &subscription(None, Some(" \n\t")),
        None,
        &None,
    );
    assert_eq!(loaded.rules, None);
    assert!(load_cached_only(&None, &None, &None).is_none());
    assert!(load_cached_only(&Some(" \n".to_string()), &None, &None).is_none());
    let cached = load_cached_only(&Some("||a^".to_string()), &None, &None).unwrap();
    assert_eq!(cached.rules.as_deref(), Some("||a^\n"));
}

#[test]
fn an_error_page_is_not_a_list() {
    let exactly = "x".repeat(SHORTEST_LIST);
    let (copy, text) = subscription(Some(&exactly), Some("old")).text_for();
    assert_eq!((copy, text.as_deref()), (Copied::Cached, Some("old")));
    // Bytes, not characters, are what is counted.
    let wide = format!("{}é", "x".repeat(SHORTEST_LIST - 1));
    let (copy, text) = subscription(Some(&wide), Some("old")).text_for();
    assert_eq!((copy, text), (Copied::Fetched, Some(wide)));
}

#[test]
fn what_was_cached_reads_back() {
    let fresh = vec![resource("set-cookie.js"), resource("aopr.js")];
    let (chosen, json) = scriptlets(Some(fresh), &None);
    assert_eq!(chosen.len(), 2);
    let json = json.expect("new scriptlets are to be cached");
    assert!(json.contains("set-cookie.js"), "{json}");
    let (again, nothing) = scriptlets(None, &Some(json.clone()));
    assert_eq!(nothing, None, "what was cached is not cached again");
    assert_eq!(again.len(), 2);
    assert_eq!(again[1].name, "aopr.js");
    assert_eq!(again[0].aliases, vec!["alias"]);
    assert_eq!(again[0].dependencies, vec!["safe-self.fn"]);
    assert_eq!(again[0].permission.to_bits(), 1);
    assert_eq!(again[0].kind, resource("x").kind);
    // An empty registry is one that moved, and the cached copy stands in for it.
    let (kept, _) = scriptlets(Some(vec![]), &Some(json.clone()));
    assert_eq!(kept.len(), 2);
    let cached = load_cached_only(&Some("||a^".to_string()), &None, &Some(json)).unwrap();
    assert_eq!(cached.resources.len(), 2);
}

#[test]
fn a_cache_that_does_not_read_is_no_scriptlets() {
    let (none, json) = scriptlets(None, &Some("{ not json".to_string()));
    assert!(none.is_empty());
    assert_eq!(json, None);
}

#[test]
fn the_cache_stamp_is_the_newest() {
    let t = |nanos| Some(Span { nanos });
    assert_eq!(cache_stamp(&vec![None, None, None]), None);
    assert_eq!(cache_stamp(&vec![t(3), None, t(2)]), t(3));
    assert_eq!(cache_stamp(&vec![t(3), t(9), t(2)]), t(9));
    assert_eq!(cache_stamp(&vec![]), None);
}

#[test]
fn the_cache_survives_a_reboot_where_it_can() {
    let some = |s: &str| Some(s.to_string());
    assert_eq!(
        cache_dir(&some("/xdg"), &some("/home/p"), "/tmp"),
        "/xdg/castaway"
    );
    assert_eq!(
        cache_dir(&None, &some("/home/p/"), "/tmp"),
        "/home/p/.cache/castaway"
    );
    assert_eq!(cache_dir(&None, &None, "/tmp"), "/tmp/castaway");
    assert_eq!(cache_dir(&some(""), &None, "/tmp"), "castaway");
    let paths = CachePaths::new("/xdg/castaway");
    assert_eq!(paths.easylist, "/xdg/castaway/easylist.txt");
    assert_eq!(paths.ubo_filters, "/xdg/castaway/ubo-filters.txt");
    assert_eq!(paths.ubo_scriptlets, "/xdg/castaway/ubo-scriptlets.json");
}

#[test]
fn relative_modules_resolve_against_their_importer() {
    assert_eq!(
        resolve_relative("resources/scriptlets.js", "./safe-self.js"),
        "resources/safe-self.js"
    );
    assert_eq!(
        resolve_relative("resources/href-sanitizer.js", "../urlskip.js"),
        "urlskip.js"
    );
    assert_eq!(resolve_relative("a.js", "../../b.js"), "b.js");
    assert_eq!(resolve_relative("a/b/c.js", ".././/d/e.js"), "a/d/e.js");
    assert_eq!(resolve_relative("a.js", ".."), "");
    assert_eq!(
        module_url("https://host/src/js/", "resources/a.js"),
        "https://host/src/js/resources/a.js"
    );
}

#[test]
fn imports_are_found_wherever_they_are_written() {
    let source = "import {\n    safeSelf,\n} from './safe-self.js';\n\
                  import \"../urlskip.js\";\nconst a = 'x.js', b = './data.json', c = '';\n\
                  import './last.js'";
    assert_eq!(
        imported_modules(source),
        vec!["./safe-self.js", "./last.js", "../urlskip.js"]
    );
    assert!(imported_modules("no quotes at all").is_empty());
    assert!(imported_modules("'./unclosed.js").is_empty());
    assert!(imported_modules("'.js' './js'").is_empty());
}

#[test]
fn an_apostrophe_in_a_comment_hides_no_import() {
    assert_eq!(
        imported_modules("// don't\nimport './a.js';"),
        vec!["./a.js"]
    );
    assert_eq!(
        imported_modules("/* don't */ import './a.js'; import './b.js';"),
        vec!["./a.js", "./b.js"]
    );
    // One that the pairs find is not found twice, and keeps its place.
    assert_eq!(
        imported_modules("import './a.js'; // don't\nimport './b.js';\nimport './a.js';"),
        vec!["./a.js", "./b.js"]
    );
    // A phrase quoted over two lines hides nothing either.
    assert_eq!(
        imported_modules("/* the 'first\nsecond' */ import './a.js';"),
        vec!["./a.js"]
    );
}

#[test]
fn quotes_are_taken_in_pairs() {
    // What stands between two literals is none.
    assert!(imported_modules("'a'./b.js'c'").is_empty());
    assert!(imported_modules("'a'./b.js'c' // don't").is_empty());
    assert!(imported_modules("'a'./b.js'").is_empty());
    // One may run over the end of a line.
    assert_eq!(imported_modules("'./a\n.js'"), vec!["./a\n.js"]);
    assert_eq!(
        imported_modules("import'./a.js';import'./b.js';import'./a.js'"),
        vec!["./a.js", "./b.js", "./a.js"]
    );
}

#[test]
fn a_graph_is_followed_once_through() {
    let sources = [
        ("resources/scriptlets.js", "import './a.js'; import './b.js';"),
        ("resources/a.js", "import './b.js'; import '../top.js';"),
        ("resources/b.js", "import './a.js'; import './scriptlets.js';"),
        ("top.js", ""),
    ];
    let mut crawl = Crawl::new("resources/scriptlets.js");
    let mut order = Vec::new();
    while let Some(name) = crawl.next() {
        let (_, source) = sources.iter().find(|(n, _)| *n == name).unwrap();
        crawl.fetched(&name, source);
        order.push(name);
    }
    assert_eq!(
        order,
        vec![
            "resources/scriptlets.js",
            "resources/b.js",
            "resources/a.js",
            "top.js"
        ]
    );
    assert_eq!(crawl.count(), 4);
    let modules = crawl.into_modules();
    assert_eq!(modules[3].name, "top.js");
    assert_eq!(modules[1].source, sources[2].1);
}

#[test]
fn a_graph_without_end_is_given_up_on() {
    let mut crawl = Crawl::new("0.js");
    let mut at = 0usize;
    while let Some(name) = crawl.next() {
        at += 1;
        crawl.fetched(&name, &format!("import './{at}.js'"));
    }
    assert_eq!(crawl.count(), MAX_MODULES);
}
