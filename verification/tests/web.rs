use bunnypmsl::command::BunnypmslCommandInfo;
use bunnypmsl::registry::list_all_metadata;
use bunnypmsl::web::{render_landing_page_html, BindingData, LandingPageCache};

#[test]
fn test_landing_page_memoized() {
    let mut cache = LandingPageCache::new();
    let first = render_landing_page_html(&mut cache, "https://bunny.example");
    let second = render_landing_page_html(&mut cache, "https://bunny.example");
    let third = render_landing_page_html(&mut cache, "https://other.example");
    assert_eq!(first, second);
    assert_eq!(first, third);
}

#[test]
fn test_landing_page_contents() {
    let mut cache = LandingPageCache::new();
    let page = render_landing_page_html(&mut cache, "https://bunny.example");
    assert!(page.contains("https://bunny.example/?cmd=gh daveio/bunnypmsl"));
    assert!(page.contains("https://bunny.example/?cmd=%s"));
    assert!(page.contains("<li><code>gh</code>"));
    assert!(page.contains("Ask Perplexity"));
}

#[test]
fn test_landing_page_sorted_case_insensitively() {
    let mut cache = LandingPageCache::new();
    let page = render_landing_page_html(&mut cache, "https://bunny.example");
    let order = [
        "<li><code>bindings</code>",
        "<li><code>gchat</code>",
        "<li><code>gh</code>",
        "<li><code>godocs</code>",
        "<li><code>gsheets</code>",
        "<li><code>gslides</code>",
        "<li><code>p</code>",
    ];
    let mut last = 0;
    for needle in order.iter() {
        let pos = page.find(needle).expect("binding entry missing");
        assert!(pos >= last);
        last = pos;
    }
}

#[test]
fn test_binding_data_from_info() {
    let infos = list_all_metadata();
    let data = BindingData::from_info(&infos[1]);
    assert_eq!(data.command, "gh");
    assert_eq!(data.description, "Navigate to GitHub repositories");
    assert_eq!(data.example, "gh daveio/bunnypmsl");

    let empty = BunnypmslCommandInfo {
        bindings: Vec::new(),
        description: "none".to_string(),
        example: "none".to_string(),
    };
    let fallback = BindingData::from_info(&empty);
    assert_eq!(fallback.command, "(default)");
}
