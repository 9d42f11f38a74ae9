use tola::config::{SiteConfig, SlugMode};
use tola::slug::{
    sanitize_path, sanitize_text, slug_path, slug_text, slugify_fragment, slugify_path,
};

#[test]
fn sanitize_text_strips_forbidden_and_replaces_spaces() {
    assert_eq!(sanitize_text("My Heading!"), "My_Heading!");
    assert_eq!(sanitize_text("  a<b>c:d|e?f*g#h\\i(j)k[l]m  "), "abcdefghijklm");
    assert_eq!(sanitize_text("tab\there"), "tabhere");
    assert_eq!(sanitize_text(""), "");
    assert_eq!(sanitize_text("   "), "");
    assert_eq!(sanitize_text("a\u{3000}b"), "a_b");
}

#[test]
fn sanitize_path_cleans_each_component() {
    assert_eq!(sanitize_path("/posts/my post/index.html"), "/posts/my_post/index.html");
    assert_eq!(sanitize_path("posts//a/./b"), "posts/a/b");
    assert_eq!(sanitize_path("./a"), "./a");
    assert_eq!(sanitize_path("/a/???/b"), "/a/b");
    assert_eq!(sanitize_path(""), "");
    assert_eq!(sanitize_path("/"), "/");
}

#[test]
fn slugify_fragment_follows_the_policy() {
    assert_eq!(slug_text("My Heading!", SlugMode::Safe), "My_Heading!");
    assert_eq!(slug_text("My Heading!", SlugMode::On), "my-heading");
    assert_eq!(slug_text("My Heading!", SlugMode::No), "My Heading!");
    let mut config = SiteConfig::default();
    assert_eq!(slugify_fragment("My Heading!", &config), "my-heading");
    config.build.slug.fragment = SlugMode::Safe;
    assert_eq!(slugify_fragment("My Heading!", &config), "My_Heading!");
}

#[test]
fn slugify_path_follows_the_policy() {
    assert_eq!(slug_path("/posts/Hello World", SlugMode::Safe), "/posts/Hello_World");
    assert_eq!(slug_path("/posts/Hello World", SlugMode::On), "posts-hello-world");
    assert_eq!(slug_path("/posts/Hello World", SlugMode::No), "/posts/Hello World");
    let mut config = SiteConfig::default();
    assert_eq!(slugify_path("/posts/Hello World", &config), "/posts/Hello_World");
    config.build.slug.path = SlugMode::No;
    assert_eq!(slugify_path("/posts/Hello World", &config), "/posts/Hello World");
}
