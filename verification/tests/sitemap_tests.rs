use tola::config::SiteConfig;
use tola::sitemap::{Sitemap, SitemapUrl};

#[test]
fn test_sitemap_xml_structure() {
    // Create a minimal sitemap with a test URL
    let sitemap = Sitemap {
        urls: vec![
            SitemapUrl { loc: "https://example.com/".to_string() },
            SitemapUrl { loc: "https://example.com/posts/hello-world".to_string() },
        ],
    };

    let xml = sitemap.to_xml();

    // Verify XML structure
    assert!(xml.contains("<?xml version=\"1.0\" encoding=\"UTF-8\"?>"));
    assert!(xml.contains("<urlset xmlns=\"http://www.sitemaps.org/schemas/sitemap/0.9\">"));
    assert!(xml.contains("<url>"));
    assert!(xml.contains("<loc>https://example.com/</loc>"));
    assert!(xml.contains("<loc>https://example.com/posts/hello-world</loc>"));
    assert!(xml.contains("</url>"));
    assert!(xml.contains("</urlset>"));
}

#[test]
fn test_empty_sitemap() {
    let sitemap = Sitemap { urls: vec![] };
    let xml = sitemap.to_xml();

    assert!(xml.contains("<urlset"));
    assert!(xml.contains("</urlset>"));
    assert!(!xml.contains("<url>"));
}

#[test]
fn sitemap_text_is_exact_and_escaped() {
    let sitemap = Sitemap { urls: vec![SitemapUrl { loc: "https://example.com/a&b".to_string() }] };
    assert_eq!(
        sitemap.to_xml(),
        "<?xml version=\"1.0\" encoding=\"UTF-8\"?><urlset xmlns=\"http://www.sitemaps.org/schemas/sitemap/0.9\"><url><loc>https://example.com/a&amp;b</loc></url></urlset>"
    );
}

#[test]
fn sitemap_lists_the_pages_of_markup_sources() {
    let mut config = SiteConfig::default();
    config.base.url = Some("https://example.com/".to_string());
    let paths = vec![
        "content/index.typ".to_string(),
        "content/posts/hello world.typ".to_string(),
        "elsewhere/x.typ".to_string(),
        "content/pic.png".to_string(),
    ];
    let sitemap = Sitemap::from_paths(&paths, &config);
    let locs: Vec<String> = sitemap.urls.iter().map(|u| u.loc.clone()).collect();
    assert_eq!(
        locs,
        vec!["https://example.com/index.html", "https://example.com/posts/hello_world/index.html"]
    );
}
