use opaque::cache::{PostCache, SnippetCache};
use opaque::default_config_file;
use opaque::pipeline::{
    static_base_url, BuildError, ConvertAnsi, ConvertStep, PostProcessingBuilder, RewriteLinks,
    SelectorBinding,
};

#[test]
fn config_file_default() {
    assert_eq!(default_config_file(), "config.yaml");
}

#[test]
fn rewriting_link_prefixes_base_url() {
    let links = RewriteLinks::new("https://example.com".to_string(), "src".to_string());
    let rewritten = links.rewritten(&Some("/a.png".to_string()));
    assert_eq!(rewritten, Some("https://example.com/a.png".to_string()));
}

#[test]
fn rewriting_link_skips_absent_attribute() {
    let links = RewriteLinks::new("https://example.com".to_string(), "src".to_string());
    assert_eq!(links.rewritten(&None), None);
}

#[test]
fn builder_derives_attribute_from_selector() {
    let builder = PostProcessingBuilder::default()
        .rewrite_links(
            "img[src]".to_string(),
            "https://example.com/static".to_string(),
            None,
        )
        .unwrap();
    assert_eq!(builder.rewrite_links_selector.len(), 1);
    let (selector, links) = &builder.rewrite_links_selector[0];
    assert_eq!(selector, "img[src]");
    assert_eq!(links.attribute, "src");
    assert_eq!(links.url, "https://example.com/static");
}

#[test]
fn builder_rejects_selector_without_attribute() {
    let result = PostProcessingBuilder::default().rewrite_links(
        "opaque-ansi-output".to_string(),
        "https://example.com".to_string(),
        None,
    );
    assert!(matches!(result, Err(BuildError::InvalidSelector)));
}

#[test]
fn builder_prefers_supplied_attribute() {
    let builder = PostProcessingBuilder::default()
        .rewrite_links(
            "a[href]".to_string(),
            "https://example.com".to_string(),
            Some("data-href".to_string()),
        )
        .unwrap();
    assert_eq!(builder.rewrite_links_selector[0].1.attribute, "data-href");
}

#[test]
fn builder_rejects_missing_source_directory() {
    let result = PostProcessingBuilder::default().convert_ansi(
        "opaque-ansi-output".to_string(),
        "does/not/exist".to_string(),
        "slug".to_string(),
        false,
    );
    assert!(matches!(result, Err(BuildError::MissingSourceDirectory)));
}

#[test]
fn builder_compiles_bindings_in_registration_order() {
    let bindings = PostProcessingBuilder::default()
        .rewrite_links(
            "img[src]".to_string(),
            "https://example.com".to_string(),
            None,
        )
        .unwrap()
        .convert_ansi(
            "opaque-ansi-output".to_string(),
            "output_snippets/".to_string(),
            "a-post".to_string(),
            true,
        )
        .unwrap()
        .build();
    assert_eq!(bindings.len(), 2);
    assert!(
        matches!(&bindings[0], SelectorBinding::Links(sel, links)
            if sel == "img[src]" && links.attribute == "src")
    );
    assert!(
        matches!(&bindings[1], SelectorBinding::Ansi(sel, ansi)
            if sel == "opaque-ansi-output" && ansi.subdirectory == "a-post")
    );
}

#[test]
fn resolving_source_stays_inside_the_directory() {
    let ansi = ConvertAnsi::new("content/output".to_string(), "a-post".to_string(), true)
        .unwrap();
    let resolved = ansi.resolve_source("/etc/passwd", false);
    assert_eq!(resolved, "content/output/etc/passwd");
    assert!(resolved.starts_with("content/output/"));
}

#[test]
fn resolving_source_uses_subdirectory_when_relative() {
    let ansi = ConvertAnsi::new("content/output".to_string(), "a-post".to_string(), true)
        .unwrap();
    assert_eq!(ansi.resolve_source("run.out", true), "content/output/a-post/run.out");
    assert_eq!(ansi.resolve_source("run.out", false), "content/output/run.out");
}

#[test]
fn resolving_source_keeps_existing_separator() {
    let ansi = ConvertAnsi::new("content/output/".to_string(), "sub/".to_string(), true)
        .unwrap();
    assert_eq!(ansi.resolve_source("file", true), "content/output/sub/file");
}

#[test]
fn static_url_strips_surrounding_separators() {
    assert_eq!(
        static_base_url("https://example.com/", "/static/"),
        "https://example.com/static/"
    );
    assert_eq!(static_base_url("https://example.com", "assets"), "https://example.com/assets");
}

#[test]
fn preparing_an_element_without_source_skips_it() {
    let ansi = ConvertAnsi::new("content/output".to_string(), "a-post".to_string(), true)
        .unwrap();
    let mut cache = SnippetCache::new();
    assert!(matches!(ansi.prepare(&mut cache, &None, false), ConvertStep::Skip));
}

#[test]
fn preparing_asks_for_the_file_on_a_miss_and_splices_on_a_hit() {
    let ansi = ConvertAnsi::new("content/output".to_string(), "a-post".to_string(), true)
        .unwrap();
    let mut cache = SnippetCache::new();
    let source = Some("run.out".to_string());

    let step = ansi.prepare(&mut cache, &source, true);
    let ConvertStep::ReadFile(path) = step else {
        panic!("expected a file read on a cache miss");
    };
    assert_eq!(path, "content/output/a-post/run.out");

    let html = ConvertAnsi::convert_and_cache(&mut cache, &"run.out".to_string(), "done");
    let step = ansi.prepare(&mut cache, &source, true);
    let ConvertStep::Splice(spliced) = step else {
        panic!("expected a splice on a cache hit");
    };
    assert_eq!(spliced, html);
}

#[test]
fn converting_twice_reads_the_file_once() {
    let mut cache = SnippetCache::new();
    let key = "snippet.ansi".to_string();
    let content = "\u{1b}[1mcached\u{1b}[0m";
    let mut reads: usize = 0;

    let mut convert = |cache: &mut SnippetCache, reads: &mut usize| match cache.lookup(&key) {
        Some(hit) => hit,
        None => {
            *reads += 1;
            ConvertAnsi::convert_and_cache(cache, &key, content)
        }
    };

    let first = convert(&mut cache, &mut reads);
    let second = convert(&mut cache, &mut reads);
    assert_eq!(reads, 1);
    assert_eq!(first, second);
    assert_eq!(
        first,
        "<pre class=\"ansi_output\"><code><strong>cached</strong></code></pre>"
    );
}

#[test]
fn snippet_cache_misses_on_fresh_key() {
    let mut cache = SnippetCache::new();
    assert_eq!(cache.lookup(&"missing".to_string()), None);
}

#[test]
fn post_cache_round_trip() {
    let mut cache = PostCache::new();
    let slug = "a-post".to_string();
    assert_eq!(cache.lookup(&slug), None);
    cache.store(&slug, &"<p>body</p>".to_string());
    assert_eq!(cache.lookup(&slug), Some("<p>body</p>".to_string()));
}

#[test]
fn post_cache_evicts_least_recently_used() {
    let mut cache = PostCache::new();
    for i in 0..32 {
        cache.store(&format!("slug-{i}"), &format!("body-{i}"));
    }
    // Touch the oldest entry so it is most-recently-used again.
    assert_eq!(cache.lookup(&"slug-0".to_string()), Some("body-0".to_string()));
    // One more insert evicts the least-recently-used entry, now slug-1.
    cache.store(&"slug-32".to_string(), &"body-32".to_string());
    assert_eq!(cache.lookup(&"slug-1".to_string()), None);
    assert_eq!(cache.lookup(&"slug-0".to_string()), Some("body-0".to_string()));
    assert_eq!(cache.lookup(&"slug-32".to_string()), Some("body-32".to_string()));
}

#[test]
fn store_keeps_the_first_cached_value() {
    let mut cache = SnippetCache::new();
    let key = "k".to_string();
    cache.store(&key, &"first".to_string());
    cache.store(&key, &"second".to_string());
    assert_eq!(cache.lookup(&key), Some("first".to_string()));
}
