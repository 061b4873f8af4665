use dodeca::db::ExternalLinkStatus;
use dodeca::external_links::{
    external_check_plan, finish_external_check, plan_external_check, plugin_check_options,
    skipped_external_check, CheckResult,
    ExternalLinkOptions, LinkCache, LinkStatus,
};
use dodeca::links::{
    check_internal_link, check_links, extract_links, normalize_route, ExtractedLinks, Page,
    RouteHeadings,
};
use dodeca::types::Route;

fn ids_for<'a>(extracted: &'a ExtractedLinks, route: &str) -> Option<&'a Vec<String>> {
    extracted
        .heading_ids
        .iter()
        .rev()
        .find(|h| h.route == route)
        .map(|h| &h.ids)
}

#[test]
fn test_normalize_route() {
    assert_eq!(normalize_route("/learn/page/"), "/learn/page");
    assert_eq!(normalize_route("/learn/page"), "/learn/page");
    assert_eq!(normalize_route("/learn/page/../"), "/learn");
    assert_eq!(normalize_route("/learn/./page/"), "/learn/page");
    assert_eq!(normalize_route("/learn/../extend/"), "/extend");
    assert_eq!(normalize_route("/"), "/");
}

#[test]
fn test_check_links_finds_broken() {
    let root = Route::from_static("/");
    let exists = Route::from_static("/exists");
    let pages = vec![
        Page {
            route: &root,
            html: r#"<a href="/exists">ok</a> <a href="/missing">broken</a>"#,
        },
        Page {
            route: &exists,
            html: r#"<a href="/">back</a>"#,
        },
    ];

    let result = check_links(&pages);
    assert_eq!(result.total_links, 3);
    assert_eq!(result.broken_links.len(), 1);
    assert_eq!(result.broken_links[0].href, "/missing");
}

#[test]
fn test_relative_links() {
    let learn = Route::from_static("/learn");
    let learn_page = Route::from_static("/learn/page");
    let extend = Route::from_static("/extend");
    let pages = vec![
        Page {
            route: &learn,
            html: r#"<a href="page">relative</a> <a href="../extend">up</a>"#,
        },
        Page {
            route: &learn_page,
            html: "",
        },
        Page {
            route: &extend,
            html: "",
        },
    ];

    let result = check_links(&pages);
    assert!(result.is_ok(), "broken: {:?}", result.broken_links);
}

#[test]
fn test_skips_external_and_special() {
    let root = Route::from_static("/");
    let pages = vec![Page {
        route: &root,
        html: "<h2 id=\"anchor\">Anchor Section</h2>\
               <a href=\"https://example.com\">external</a>\
               <a href=\"#anchor\">anchor</a>\
               <a href=\"mailto:x@y.z\">email</a>\
               <a href=\"/style.css\">static</a>",
    }];

    let result = check_links(&pages);
    assert!(result.is_ok(), "broken: {:?}", result.broken_links);
    assert_eq!(result.external_links, 1);
}

#[test]
fn test_extract_links() {
    let root = Route::from_static("/");
    let pages = vec![Page {
        route: &root,
        html: "<a href=\"https://example.com\">ext</a>\
               <a href=\"/page/\">int</a>\
               <a href=\"#anchor\">anchor</a>",
    }];

    let extracted = extract_links(&pages);
    assert_eq!(extracted.total, 3);
    assert_eq!(extracted.external.len(), 1);
    // Same-page anchors are internal too (for validation)
    assert_eq!(extracted.internal.len(), 2);
}

#[test]
fn test_hash_fragment_valid() {
    let page = Route::from_static("/page");
    let pages = vec![Page {
        route: &page,
        html: "<h2 id=\"section\">Section One</h2>\
               <a href=\"#section\">link to section</a>",
    }];

    let result = check_links(&pages);
    assert!(result.is_ok(), "broken: {:?}", result.broken_links);
}

#[test]
fn test_hash_fragment_invalid() {
    let page = Route::from_static("/page");
    let pages = vec![Page {
        route: &page,
        html: "<h2 id=\"section\">Section One</h2>\
               <a href=\"#nonexistent\">link to missing section</a>",
    }];

    let result = check_links(&pages);
    assert_eq!(result.broken_links.len(), 1);
    assert!(result.broken_links[0].reason.contains("#nonexistent"));
}

#[test]
fn test_cross_page_hash_fragment_valid() {
    let page1 = Route::from_static("/page1");
    let page2 = Route::from_static("/page2");
    let pages = vec![
        Page {
            route: &page1,
            html: "<a href=\"/page2#section\">link to page2 section</a>",
        },
        Page {
            route: &page2,
            html: "<h2 id=\"section\">Section</h2>",
        },
    ];

    let result = check_links(&pages);
    assert!(result.is_ok(), "broken: {:?}", result.broken_links);
}

#[test]
fn test_cross_page_hash_fragment_invalid() {
    let page1 = Route::from_static("/page1");
    let page2 = Route::from_static("/page2");
    let pages = vec![
        Page {
            route: &page1,
            html: "<a href=\"/page2#missing\">link to missing section</a>",
        },
        Page {
            route: &page2,
            html: "<h2 id=\"section\">Section</h2>",
        },
    ];

    let result = check_links(&pages);
    assert_eq!(result.broken_links.len(), 1);
    assert!(result.broken_links[0].reason.contains("#missing"));
}

#[test]
fn test_extract_heading_ids() {
    let page = Route::from_static("/page");
    let pages = vec![Page {
        route: &page,
        html: "<h1 id=\"title\">Title</h1>\
               <h2 id=\"intro\">Intro</h2>\
               <h3 id=\"details\">Details</h3>",
    }];

    let extracted = extract_links(&pages);
    let ids = ids_for(&extracted, "/page").unwrap();
    assert!(ids.iter().any(|i| i == "title"));
    assert!(ids.iter().any(|i| i == "intro"));
    assert!(ids.iter().any(|i| i == "details"));
}

#[test]
fn broken_counts_partition_the_broken_links() {
    let root = Route::from_static("/");
    let pages = vec![Page {
        route: &root,
        html: r#"<a href="/a">a</a> <a href="/b#x">b</a> <a href="https://e.org">e</a>"#,
    }];
    let result = check_links(&pages);
    assert_eq!(result.broken_links.len(), 2);
    assert_eq!(result.internal_broken(), 2);
    assert_eq!(result.external_broken(), 0);
    assert_eq!(
        result.internal_broken() + result.external_broken(),
        result.broken_links.len()
    );
    assert!(!result.is_ok());
}

#[test]
fn normalize_route_is_idempotent_on_examples() {
    for p in ["/a/./b/../c/", "/", "/x//y", "/../up", "rel/path/"] {
        let once = normalize_route(p);
        assert_eq!(normalize_route(&once), once);
    }
    assert_eq!(normalize_route("/a//b"), "/a/b");
    assert_eq!(normalize_route("/../x"), "/x");
}

#[test]
fn internal_link_messages() {
    let src = Route::from_static("/docs");
    let known = vec!["/docs".to_string(), "/guide/".to_string()];
    let ids = vec![RouteHeadings {
        route: "/guide/".to_string(),
        ids: vec!["intro".to_string()],
    }];
    assert_eq!(check_internal_link(&src, "/guide", &known, &ids), None);
    assert_eq!(check_internal_link(&src, "/guide#intro", &known, &ids), None);
    assert_eq!(
        check_internal_link(&src, "/guide#nope", &known, &ids),
        Some("anchor '#nope' not found on target page".to_string())
    );
    assert_eq!(
        check_internal_link(&src, "/nowhere", &known, &ids),
        Some("target '/nowhere' not found".to_string())
    );
    assert_eq!(check_internal_link(&src, "/logo.svg", &known, &ids), None);
}

fn status(s: &str, code: Option<u16>, message: Option<&str>) -> LinkStatus {
    LinkStatus {
        status: s.to_string(),
        code,
        message: message.map(|m| m.to_string()),
    }
}

#[test]
fn external_check_plans_each_url_once_and_reports_results() {
    let a = Route::from_static("/a");
    let b = Route::from_static("/b");
    let pages = vec![
        Page {
            route: &a,
            html: r#"<a href="https://x.org">x</a> <a href="https://y.org">y</a>"#,
        },
        Page {
            route: &b,
            html: r#"<a href="https://x.org">x again</a> <a href="https://z.org">z</a>"#,
        },
    ];
    let extracted = extract_links(&pages);
    let mut cache = LinkCache::new();
    cache.insert("https://z.org".to_string(), 7, ExternalLinkStatus::Error(404));
    let plan = plan_external_check(&extracted, &cache, 7);
    assert_eq!(plan.to_check, vec!["https://x.org".to_string(), "https://y.org".to_string()]);
    assert_eq!(plan.cached.len(), 1);
    assert_eq!(plan.cached[0].0, "https://z.org");

    let reply = CheckResult {
        statuses: vec![
            status("failed", None, Some("timeout")),
            status("ok", None, None),
        ],
        checked_count: 2,
    };
    let (broken, checked) = finish_external_check(&extracted, &plan, Some(reply), &mut cache, 7);
    assert_eq!(checked, 3);
    let reasons: Vec<(String, String, String)> = broken
        .iter()
        .map(|l| {
            (
                l.source_route.as_str().to_string(),
                l.href.clone(),
                l.reason.clone(),
            )
        })
        .collect();
    assert_eq!(
        reasons,
        vec![
            ("/a".to_string(), "https://x.org".to_string(), "timeout".to_string()),
            ("/b".to_string(), "https://x.org".to_string(), "timeout".to_string()),
            ("/b".to_string(), "https://z.org".to_string(), "HTTP 404".to_string()),
        ]
    );
    assert!(broken.iter().all(|l| l.is_external));
    assert!(matches!(cache.get("https://y.org", 7), Some(ExternalLinkStatus::Valid)));
    assert!(cache.get("https://y.org", 8).is_none());
    let replan = plan_external_check(&extracted, &cache, 7);
    assert!(replan.to_check.is_empty());
}

#[test]
fn external_statuses_are_read_as_the_plugin_means_them() {
    let a = Route::from_static("/a");
    let pages = vec![Page {
        route: &a,
        html: r#"<a href="https://p.org">p</a><a href="https://q.org">q</a><a href="https://r.org">r</a><a href="https://s.org">s</a>"#,
    }];
    let extracted = extract_links(&pages);
    let mut cache = LinkCache::new();
    let plan = plan_external_check(&extracted, &cache, 1);
    let reply = CheckResult {
        statuses: vec![
            status("error", None, None),
            status("failed", None, None),
            status("weird", None, None),
            status("skipped", None, None),
        ],
        checked_count: 3,
    };
    let (broken, checked) = finish_external_check(&extracted, &plan, Some(reply), &mut cache, 1);
    assert_eq!(checked, 3);
    let reasons: Vec<String> = broken.iter().map(|l| l.reason.clone()).collect();
    assert_eq!(
        reasons,
        vec![
            "HTTP 0".to_string(),
            "unknown error".to_string(),
            "unknown status: weird".to_string()
        ]
    );
    assert!(cache.get("https://s.org", 1).is_none());
    assert!(cache.get("https://r.org", 1).is_some());

    let (none_broken, none_checked) =
        finish_external_check(&extracted, &plan, None, &mut LinkCache::new(), 1);
    assert!(none_broken.is_empty());
    assert_eq!(none_checked, 0);
}

#[test]
fn external_options_build_plugin_options() {
    let opts = ExternalLinkOptions::new()
        .skip_domains(vec!["a.org".to_string(), "b.org".to_string(), "a.org".to_string()])
        .rate_limit_ms(250);
    assert_eq!(opts.skip_domains, vec!["a.org".to_string(), "b.org".to_string()]);
    let plugin = plugin_check_options(&opts);
    assert_eq!(plugin.rate_limit_ms, 250);
    assert_eq!(plugin.timeout_secs, 10);
    assert_eq!(plugin.skip_domains, vec!["a.org".to_string(), "b.org".to_string()]);
    assert_eq!(ExternalLinkOptions::new().rate_limit_ms, 1000);
}

#[test]
fn external_check_is_skipped_without_the_plugin() {
    let a = Route::from_static("/a");
    let pages = vec![Page { route: &a, html: r#"<a href="https://x.org">x</a>"# }];
    let extracted = extract_links(&pages);
    let cache = LinkCache::new();
    assert!(external_check_plan(false, &extracted, &cache, 3).is_none());
    let (broken, checked) = skipped_external_check();
    assert!(broken.is_empty());
    assert_eq!(checked, 0);
    let plan = external_check_plan(true, &extracted, &cache, 3).unwrap();
    assert_eq!(plan.to_check, vec!["https://x.org".to_string()]);
}
