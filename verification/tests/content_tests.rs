use tola::config::{ExtractSvgType, SiteConfig, SlugMode};
use tola::content::{
    asset_action, asset_file_of, compile_command, image_settings, is_index_source,
    logical_slug_of, page_bytes, page_file_of, page_url_of, rewrite_context, stylesheet_href,
    AssetAction, PathError,
};
use tola::link::resolve_link;

fn config() -> SiteConfig {
    let mut config = SiteConfig::default();
    config.build.base_path = "blog".to_string();
    config
}

#[test]
fn page_goes_to_index_html_below_its_slug() {
    let config = config();
    assert_eq!(
        page_file_of("content/posts/my post.typ", &config),
        Ok("public/blog/posts/my_post/index.html".to_string())
    );
    assert_eq!(page_file_of("content/a.typ", &config), Ok("public/blog/a/index.html".to_string()));
}

#[test]
fn index_source_goes_to_the_output_root() {
    let config = config();
    assert_eq!(page_file_of("content/index.typ", &config), Ok("public/index.html".to_string()));
    assert!(is_index_source("content/index.typ"));
    assert!(is_index_source("index.typ"));
    assert!(!is_index_source("content/index.typ.bak"));
    assert!(!is_index_source("content/myindex.typ"));
}

#[test]
fn unexpected_paths_are_path_errors() {
    let config = config();
    assert_eq!(page_file_of("elsewhere/a.typ", &config), Err(PathError::OutsideRoot));
    assert_eq!(page_file_of("content", &config), Err(PathError::OutsideRoot));
    assert_eq!(page_file_of("contents/a.typ", &config), Err(PathError::OutsideRoot));
    assert_eq!(page_file_of("content/a.txt", &config), Err(PathError::NotMarkup));
    assert_eq!(logical_slug_of("content", "content/posts/a.typ"), Ok("posts/a".to_string()));
    assert_eq!(logical_slug_of("content", "content/.typ"), Ok("".to_string()));
}

#[test]
fn every_page_is_reached_by_the_link_to_its_source() {
    let config = config();
    let ctx = rewrite_context(&config, vec!["images".to_string()]);
    for slug in ["posts/a", "posts/my post", "a", "deep/er/page", "x y/z"] {
        let url = page_url_of(slug, "blog", SlugMode::Safe);
        let link = resolve_link(&format!("/{slug}"), &ctx.links);
        assert_eq!(link, url);
        let file = page_file_of(&format!("content/{slug}.typ"), &config).unwrap();
        assert_eq!(file, format!("public{url}/index.html"));
    }
}

#[test]
fn page_url_follows_the_policy() {
    assert_eq!(page_url_of("posts/My Post", "blog", SlugMode::Safe), "/blog/posts/My_Post");
    assert_eq!(page_url_of("posts/My Post", "", SlugMode::No), "/posts/My Post");
    assert_eq!(page_url_of("posts/My Post", "/a/b/", SlugMode::On), "/a/b/posts-my-post");
}

#[test]
fn asset_is_mirrored_below_the_output_root() {
    let config = config();
    assert_eq!(
        asset_file_of("assets/images/a b.png", &config),
        Ok("public/blog/images/a b.png".to_string())
    );
    assert_eq!(asset_file_of("content/x.png", &config), Err(PathError::OutsideRoot));
    let mut plain = SiteConfig::default();
    plain.build.output = "out".to_string();
    assert_eq!(asset_file_of("assets/x.css", &plain), Ok("out/x.css".to_string()));
}

#[test]
fn css_entry_point_is_built_and_other_assets_are_copied() {
    let mut config = config();
    assert_eq!(asset_action(&config, "assets/styles/main.css", "public/blog/styles/main.css"), AssetAction::Copy);
    config.build.tailwind.enable = true;
    config.build.tailwind.input = Some("assets/styles/main.css".to_string());
    assert_eq!(
        asset_action(&config, "assets/styles/main.css", "public/blog/styles/main.css"),
        AssetAction::BuildCss(
            ["tailwindcss", "-i", "assets/styles/main.css", "-o", "public/blog/styles/main.css", "--minify"]
                .iter()
                .map(|s| s.to_string())
                .collect()
        )
    );
    assert_eq!(asset_action(&config, "assets/styles/other.css", "x"), AssetAction::Copy);
    config.build.minify = false;
    match asset_action(&config, "assets/styles/main.css", "o.css") {
        AssetAction::BuildCss(args) => assert_eq!(args, vec!["tailwindcss", "-i", "assets/styles/main.css", "-o", "o.css"]),
        AssetAction::Copy => panic!("the entry point is built"),
    }
}

#[test]
fn stylesheet_is_linked_where_the_css_build_is_on() {
    let mut config = config();
    assert_eq!(stylesheet_href(&config), None);
    config.build.tailwind.enable = true;
    assert_eq!(stylesheet_href(&config), None);
    config.build.tailwind.input = Some("assets/styles/main.css".to_string());
    assert_eq!(stylesheet_href(&config), Some("/blog/styles/main.css".to_string()));
    config.build.tailwind.input = Some("elsewhere/main.css".to_string());
    assert_eq!(stylesheet_href(&config), None);
}

#[test]
fn rewrite_context_is_taken_from_the_configuration() {
    let mut config = config();
    config.base.title = "T".to_string();
    config.base.description = "D".to_string();
    config.build.slug.fragment = SlugMode::No;
    let ctx = rewrite_context(&config, vec!["images".to_string()]);
    assert_eq!(ctx.language, "zh-Hans");
    assert_eq!(ctx.title, "T");
    assert_eq!(ctx.description, "D");
    assert_eq!(ctx.stylesheet, None);
    assert!(!ctx.extract_images);
    assert_eq!(ctx.links.base_path, "blog");
    assert_eq!(ctx.links.path_mode, SlugMode::Safe);
    assert_eq!(ctx.links.fragment_mode, SlugMode::No);
    assert_eq!(ctx.links.asset_names, vec!["images"]);
    config.build.typst.svg.extract_type = ExtractSvgType::Builtin;
    assert!(rewrite_context(&config, vec![]).extract_images);
}

#[test]
fn image_settings_know_the_directory_of_the_page() {
    let mut config = config();
    config.build.typst.svg.extract_type = ExtractSvgType::Magick;
    let settings = image_settings(&config, "public/blog/posts/a/index.html").unwrap();
    assert_eq!(settings.page_url, "/blog/posts/a");
    assert_eq!(settings.threshold, 20480);
    assert_eq!(settings.policy, ExtractSvgType::Magick);
    assert_eq!(image_settings(&config, "public/index.html").unwrap().page_url, "");
    assert!(image_settings(&config, "elsewhere/index.html").is_none());
    assert!(image_settings(&config, "public/a.html").is_none());
}

#[test]
fn compiler_is_run_on_the_source_with_the_root_as_font_path() {
    let mut config = config();
    assert_eq!(
        compile_command(&config, "content/a.typ"),
        vec!["typst", "compile", "--features", "html", "--format", "html", "--font-path", "./", "--root", "./", "content/a.typ", "-"]
    );
    config.build.root = Some("/site".to_string());
    config.build.typst.command = vec!["nix".to_string(), "run".to_string(), "typst".to_string()];
    assert_eq!(
        compile_command(&config, "content/a.typ"),
        vec!["nix", "run", "typst", "compile", "--features", "html", "--format", "html", "--font-path", "/site", "--root", "/site", "content/a.typ", "-"]
    );
}

#[test]
fn page_is_minified_where_the_configuration_says_so() {
    let mut config = config();
    let html = "<p>  Hello,   world!  </p>";
    let minified = page_bytes(html, &config);
    assert!(minified.len() < html.len());
    assert_ne!(minified, html.as_bytes());
    assert!(String::from_utf8(minified).unwrap().contains("Hello, world!"));
    config.build.minify = false;
    assert_eq!(page_bytes(html, &config), html.as_bytes());
}
