use tola::cli::{Cli, Commands};
use tola::config::{ExtractSvgType, SiteConfig, SlugMode};
use tola::config_defaults;
use tola::date::{parse_date, read_date, DateError, DateTimeUtc};
use tola::diagnostics::{filter_diagnostics, log_warnings, not_found_message};
use tola::log::{truncate_str, uses_newline};
use tola::rss::{
    correct_rss_author, feed_item, get_guid_from_content_output_path, PostMeta, TypstElement,
};
use tola::stability::{observe, start_watch, wants_poll, Watch, DEFAULT_RETRIES, POLL_INTERVAL_MS};

fn cli(command: Commands) -> Cli {
    Cli {
        root: None,
        output: None,
        content: None,
        assets: None,
        config: "tola.toml".to_string(),
        minify: None,
        tailwind: None,
        command,
    }
}

#[test]
fn cli_knows_its_command() {
    let init = cli(Commands::Init { name: None });
    assert!(init.is_init() && !init.is_build() && !init.is_serve() && !init.is_deploy());
    let build = cli(Commands::Build {});
    assert!(build.is_build() && !build.is_init());
    let serve = cli(Commands::Serve { interface: None, port: Some(1), watch: None });
    assert!(serve.is_serve() && !serve.is_deploy());
    let deploy = cli(Commands::Deploy { force: Some(true) });
    assert!(deploy.is_deploy() && !deploy.is_serve());
}

#[test]
fn defaults_are_what_the_file_leaves_out() {
    assert!(config_defaults::enabled());
    assert!(!config_defaults::disabled());
    assert_eq!(config_defaults::base::url(), None);
    assert_eq!(config_defaults::base::author(), "<YOUR_NAME>");
    assert_eq!(config_defaults::base::email(), "user@noreply.tola");
    assert_eq!(config_defaults::build::root(), None);
    assert_eq!(config_defaults::build::base_path(), "");
    assert_eq!(config_defaults::build::language(), "zh-Hans");
    assert_eq!(config_defaults::build::content(), "content");
    assert_eq!(config_defaults::build::output(), "public");
    assert_eq!(config_defaults::build::assets(), "assets");
    assert_eq!(config_defaults::build::rss::path(), "feed.xml");
    assert_eq!(config_defaults::build::slug::default(), SlugMode::Safe);
    assert_eq!(config_defaults::build::slug::no(), SlugMode::No);
    assert_eq!(config_defaults::build::slug::safe(), SlugMode::Safe);
    assert_eq!(config_defaults::build::slug::on(), SlugMode::On);
    assert_eq!(config_defaults::build::typst::command(), vec!["typst"]);
    assert_eq!(config_defaults::build::typst::svg::extract_type(), ExtractSvgType::Embedded);
    assert_eq!(config_defaults::build::typst::svg::inline_max_size(), "20KB");
    assert_eq!(config_defaults::build::tailwind::input(), None);
    assert_eq!(config_defaults::build::tailwind::command(), vec!["tailwindcss"]);
    assert_eq!(config_defaults::serve::interface(), "127.0.0.1");
    assert_eq!(config_defaults::serve::port(), 5277);
    assert_eq!(config_defaults::deploy::provider(), "github");
    assert_eq!(config_defaults::deploy::github::url(), "https://github.com/alice/alice.github.io");
    assert_eq!(config_defaults::deploy::github::branch(), "main");
    assert_eq!(config_defaults::deploy::github::token_path(), None);
    assert_eq!(config_defaults::deploy::cloudflare::_remote(), "https://alice.com");
    assert_eq!(config_defaults::deploy::cloudflare::_branch(), "main");
    assert_eq!(config_defaults::deploy::cloudflare::_token_path(), "~/xxx/xxx/.github-token-in-this-file");
    assert_eq!(config_defaults::deploy::vercal::_remote(), "https://alice.com");
    assert_eq!(config_defaults::deploy::vercal::_branch(), "main");
    assert_eq!(config_defaults::deploy::vercal::_token_path(), "~/xxx/xxx/.github-token-in-this-file");
}

#[test]
fn default_configuration_holds_the_defaults() {
    let config = SiteConfig::default();
    assert!(config.cli.is_none());
    assert_eq!(config.base.title, "");
    assert_eq!(config.base.author, "<YOUR_NAME>");
    assert_eq!(config.base.language, "zh-Hans");
    assert!(config.base.head_extra.is_empty());
    assert!(config.build.minify);
    assert!(!config.build.clear);
    assert!(!config.build.rss.enable);
    assert_eq!(config.build.rss.path, "feed.xml");
    assert_eq!(config.build.slug.path, SlugMode::Safe);
    assert_eq!(config.build.slug.fragment, SlugMode::On);
    assert_eq!(config.build.typst.svg.extract_type, ExtractSvgType::Embedded);
    assert!(!config.build.tailwind.enable);
    assert_eq!(config.serve.interface, "127.0.0.1");
    assert!(config.serve.watch);
    assert_eq!(config.deploy.provider, "github");
    assert!(!config.deploy.force);
    assert_eq!(config.deploy.cloudflare_provider.provider, "github");
    assert_eq!(config.deploy.vercal_provider.provider, "github");
    assert_eq!(SlugMode::default(), SlugMode::Safe);
    assert_eq!(ExtractSvgType::default(), ExtractSvgType::Embedded);
}

#[test]
fn root_is_the_current_directory_unless_set() {
    let mut config = SiteConfig::default();
    assert_eq!(config.get_root(), "./");
    config.set_root("/site");
    assert_eq!(config.get_root(), "/site");
    assert_eq!(config.build.content, "content");
    config.cli = Some(cli(Commands::Build {}));
    assert!(config.get_cli().is_build());
}

#[test]
fn dates_are_checked_field_by_field() {
    assert_eq!(DateTimeUtc::new(2024, 2, 29, 23, 59, 59).validate(), Ok(()));
    assert_eq!(DateTimeUtc::from_ymd(2023, 2, 29).validate(), Err(DateError::Day(29)));
    assert_eq!(DateTimeUtc::from_ymd(1900, 2, 29).validate(), Err(DateError::Day(29)));
    assert_eq!(DateTimeUtc::from_ymd(2000, 2, 29).validate(), Ok(()));
    assert_eq!(DateTimeUtc::from_ymd(2024, 0, 1).validate(), Err(DateError::Month(0)));
    assert_eq!(DateTimeUtc::from_ymd(2024, 13, 1).validate(), Err(DateError::Month(13)));
    assert_eq!(DateTimeUtc::from_ymd(2024, 4, 31).validate(), Err(DateError::Day(31)));
    assert_eq!(DateTimeUtc::from_ymd(2024, 4, 0).validate(), Err(DateError::Day(0)));
    assert_eq!(DateTimeUtc::new(2024, 1, 1, 24, 0, 0).validate(), Err(DateError::Hour(24)));
    assert_eq!(DateTimeUtc::new(2024, 1, 1, 0, 60, 0).validate(), Err(DateError::Minute(60)));
    assert_eq!(DateTimeUtc::new(2024, 1, 1, 0, 0, 60).validate(), Err(DateError::Second(60)));
    assert_eq!(DateTimeUtc::new(2024, 13, 32, 25, 61, 61).validate(), Err(DateError::Month(13)));
    assert_eq!(
        DateTimeUtc::from_ymd(2024, 1, 2),
        DateTimeUtc { year: 2024, month: 1, day: 2, hour: 0, minute: 0, second: 0 }
    );
}

#[test]
fn dates_are_written_in_the_format_of_rfc_2822() {
    assert_eq!(DateTimeUtc::from_ymd(2023, 1, 1).to_rfc2822(), "Sun, 01 Jan 2023 00:00:00 GMT");
    assert_eq!(
        DateTimeUtc::new(2024, 2, 29, 13, 5, 9).to_rfc2822(),
        "Thu, 29 Feb 2024 13:05:09 GMT"
    );
    assert_eq!(DateTimeUtc::from_ymd(2000, 12, 31).to_rfc2822(), "Sun, 31 Dec 2000 00:00:00 GMT");
    assert_eq!(DateTimeUtc::from_ymd(1970, 1, 1).to_rfc2822(), "Thu, 01 Jan 1970 00:00:00 GMT");
    assert_eq!(DateTimeUtc::from_ymd(999, 3, 1).to_rfc2822(), "Fri, 01 Mar 0999 00:00:00 GMT");
    assert_eq!(DateTimeUtc::from_ymd(2025, 10, 28).to_rfc2822(), "Tue, 28 Oct 2025 00:00:00 GMT");
}

#[test]
fn feed_dates_are_read_in_two_forms() {
    assert_eq!(read_date("2023-01-01"), Some(DateTimeUtc::from_ymd(2023, 1, 1)));
    assert_eq!(
        read_date("2023-01-01T10:20:30Z"),
        Some(DateTimeUtc::new(2023, 1, 1, 10, 20, 30))
    );
    assert_eq!(read_date("2023-1-01"), None);
    assert_eq!(read_date("2023/01/01"), None);
    assert_eq!(read_date("2023-01-01T10:20:30"), None);
    assert_eq!(read_date("2023-01-01 10:20:30Z"), None);
    assert_eq!(read_date("2023-01-0a"), None);
    assert_eq!(read_date(""), None);
    assert_eq!(read_date("2023-99-99"), Some(DateTimeUtc::from_ymd(2023, 99, 99)));
    assert_eq!(
        parse_date(Some("2023-01-01".to_string())),
        Some("Sun, 01 Jan 2023 00:00:00 GMT".to_string())
    );
    assert_eq!(
        parse_date(Some("2024-02-29T13:05:09Z".to_string())),
        Some("Thu, 29 Feb 2024 13:05:09 GMT".to_string())
    );
    assert_eq!(parse_date(Some("2023-02-30".to_string())), None);
    assert_eq!(parse_date(Some("yesterday".to_string())), None);
    assert_eq!(parse_date(None), None);
}

#[test]
fn export_warning_is_taken_out_of_the_diagnostics() {
    let warning = "warning: html export is under active development and incomplete\n = hint: its behaviour may change at any time\n = hint: do not rely on this feature for production use cases\n = hint: see https://github.com/typst/typst/issues/5512 for more information\n";
    let stderr = format!("  {warning}{warning}error: unknown variable: x\n  ");
    assert_eq!(filter_diagnostics(&stderr), "error: unknown variable: x");
    assert_eq!(filter_diagnostics("error: boom\n"), "error: boom");
    assert_eq!(filter_diagnostics(""), "");
    let inner = format!("error: a\n{warning}");
    assert_eq!(filter_diagnostics(&inner), inner.trim());
}

#[test]
fn suppressed_warnings_are_not_shown() {
    let warnings = vec![
        "html export is under active development and incomplete".to_string(),
        "unknown font family: x".to_string(),
        "note that html export is under active development".to_string(),
        "html export".to_string(),
    ];
    assert_eq!(log_warnings(&warnings), vec!["unknown font family: x", "html export"]);
    assert_eq!(log_warnings(&vec![]), Vec::<String>::new());
}

#[test]
fn missing_command_is_named_twice() {
    assert_eq!(
        not_found_message("typst"),
        "[checker] `typst` not found. Please install `typst` first."
    );
}

#[test]
fn log_lines_are_cut_at_character_boundaries() {
    assert_eq!(truncate_str("hello", 10), "hello");
    assert_eq!(truncate_str("hello", 5), "hello");
    assert_eq!(truncate_str("hello", 3), "hel");
    assert_eq!(truncate_str("hello", 0), "");
    assert_eq!(truncate_str("héllo", 2), "h");
    assert_eq!(truncate_str("héllo", 3), "hé");
    assert_eq!(truncate_str("小鹤双拼", 7), "小鹤");
    assert_eq!(truncate_str("小鹤双拼", 2), "");
    assert!(uses_newline("serve", false));
    assert!(!uses_newline("content", false));
    assert!(!uses_newline("assets", false));
    assert!(!uses_newline("svg", false));
    assert!(uses_newline("svg", true));
}

#[test]
fn watch_ends_when_the_size_repeats_or_the_retries_run_out() {
    assert_eq!(POLL_INTERVAL_MS, 50);
    assert_eq!(DEFAULT_RETRIES, 5);
    let watch = start_watch(10, 5);
    assert!(wants_poll(watch));
    assert_eq!(observe(watch, 10), Watch::Stable);
    let mut watch = start_watch(0, 5);
    let mut polls = 0;
    let mut size = 0;
    while wants_poll(watch) {
        size += 1;
        polls += 1;
        watch = observe(watch, size);
    }
    assert_eq!(watch, Watch::Unstable);
    assert_eq!(polls, 5);
    let watch = observe(observe(start_watch(1, 5), 2), 3);
    assert_eq!(watch, Watch::Polling { last_size: 3, polls_left: 3 });
    assert_eq!(observe(watch, 3), Watch::Stable);
    assert_eq!(start_watch(1, 0), Watch::Unstable);
    assert_eq!(observe(Watch::Stable, 9), Watch::Stable);
    assert_eq!(observe(Watch::Unstable, 9), Watch::Unstable);
}

#[test]
fn permanent_link_is_the_page_file_below_the_base_url() {
    let mut config = SiteConfig::default();
    config.base.url = Some("https://example.com//".to_string());
    assert_eq!(
        get_guid_from_content_output_path("content/posts/hello world.typ", &config),
        Ok("https://example.com/posts/hello_world/index.html".to_string())
    );
    assert_eq!(
        get_guid_from_content_output_path("content/index.typ", &config),
        Ok("https://example.com/index.html".to_string())
    );
    assert_eq!(
        get_guid_from_content_output_path("content/小鹤/a&b.typ", &config),
        Ok("https://example.com/%E5%B0%8F%E9%B9%A4/a%26b/index.html".to_string())
    );
    config.base.url = None;
    assert_eq!(
        get_guid_from_content_output_path("content/a.typ", &config),
        Ok("/a/index.html".to_string())
    );
    assert!(get_guid_from_content_output_path("content/a.txt", &config).is_err());
}

#[test]
fn feed_author_has_an_address_and_a_name() {
    let mut config = SiteConfig::default();
    config.base.author = "Alice".to_string();
    config.base.email = "alice@example.com".to_string();
    assert_eq!(correct_rss_author(None, &config), None);
    assert_eq!(
        correct_rss_author(Some(&"bob@example.com (Bob)".to_string()), &config),
        Some("bob@example.com (Bob)".to_string())
    );
    assert_eq!(
        correct_rss_author(Some(&"Bob".to_string()), &config),
        Some("alice@example.com (Alice)".to_string())
    );
    config.base.author = "carol@example.org (Carol)".to_string();
    assert_eq!(
        correct_rss_author(Some(&"Bob".to_string()), &config),
        Some("carol@example.org (Carol)".to_string())
    );
}

#[test]
fn post_gives_an_item_when_it_has_date_title_and_link() {
    let meta = PostMeta {
        title: Some("T".to_string()),
        summary: Some("S".to_string()),
        date: Some("2023-01-01".to_string()),
        update: None,
        link: Some("https://example.com/t/index.html".to_string()),
        author: Some("a@b.cd (A)".to_string()),
    };
    let item = feed_item(meta.clone()).unwrap();
    assert_eq!(item.title, "T");
    assert_eq!(item.link, "https://example.com/t/index.html");
    assert_eq!(item.description, Some("S".to_string()));
    assert_eq!(item.pub_date, "Sun, 01 Jan 2023 00:00:00 GMT");
    assert_eq!(item.author, Some("a@b.cd (A)".to_string()));
    assert_eq!(feed_item(PostMeta { date: None, ..meta.clone() }), None);
    assert_eq!(feed_item(PostMeta { date: Some("2023-13-01".to_string()), ..meta.clone() }), None);
    assert_eq!(feed_item(PostMeta { title: None, ..meta.clone() }), None);
    assert_eq!(feed_item(PostMeta { link: None, ..meta }), None);
}

#[test]
fn content_elements_are_written_as_markup() {
    let mut config = SiteConfig::default();
    config.base.url = Some("https://example.com".to_string());
    let element = TypstElement::Sequence {
        children: vec![
            TypstElement::Space,
            TypstElement::Text { text: "read".to_string() },
            TypstElement::Linebreak,
            TypstElement::Strike { text: "old".to_string() },
            TypstElement::Link {
                dest: "https://other.example".to_string(),
                body: Box::new(TypstElement::Text { text: "there".to_string() }),
            },
            TypstElement::Link {
                dest: "../.././posts/a".to_string(),
                body: Box::new(TypstElement::Sequence {
                    children: vec![TypstElement::Text { text: "here".to_string() }],
                }),
            },
            TypstElement::OtherIgnored,
        ],
    };
    assert_eq!(
        element.into_html_tag(&config),
        " read<br/><strike>old</strike><a href=\"https://other.example\">there</a><a href=\"https://example.com/posts/a\">here</a>"
    );
    config.base.url = None;
    let link = TypstElement::Link {
        dest: "/x".to_string(),
        body: Box::new(TypstElement::Space),
    };
    assert_eq!(link.into_html_tag(&config), "<a href=\"/x\"> </a>");
}

#[test]
fn feed_is_written_as_xml() {
    let mut config = SiteConfig::default();
    config.base.title = "T & Co".to_string();
    config.base.description = "D".to_string();
    config.base.url = Some("https://example.com".to_string());
    let post = PostMeta {
        title: Some("Post <1>".to_string()),
        summary: Some("<b>s</b>".to_string()),
        date: Some("2023-01-01".to_string()),
        update: None,
        link: Some("https://example.com/p/index.html".to_string()),
        author: None,
    };
    let undated = PostMeta { date: None, ..post.clone() };
    let feed = tola::rss::RSSFeed::new(&config, vec![undated, post]);
    assert_eq!(feed.generator, "tola-ssg");
    assert_eq!(
        feed.into_rss_xml(),
        "<?xml version=\"1.0\" encoding=\"UTF-8\"?><rss version=\"2.0\"><channel>\
<title>T &amp; Co</title><link>https://example.com</link><description>D</description>\
<language>zh-Hans</language><generator>tola-ssg</generator>\
<item><title>Post &lt;1&gt;</title><link>https://example.com/p/index.html</link>\
<description>&lt;b&gt;s&lt;/b&gt;</description>\
<guid isPermaLink=\"true\">https://example.com/p/index.html</guid>\
<pubDate>Sun, 01 Jan 2023 00:00:00 GMT</pubDate></item></channel></rss>"
    );
    let empty = tola::rss::RSSFeed::new(&SiteConfig::default(), vec![]);
    assert_eq!(
        empty.into_rss_xml(),
        "<?xml version=\"1.0\" encoding=\"UTF-8\"?><rss version=\"2.0\"><channel>\
<title></title><link></link><description></description>\
<language>zh-Hans</language><generator>tola-ssg</generator></channel></rss>"
    );
}

#[test]
fn metadata_is_asked_of_the_compiler() {
    let config = SiteConfig::default();
    assert_eq!(
        tola::rss::query_command(&config, "content/a.typ"),
        vec![
            "typst", "query", "--features", "html", "--format", "json", "--font-path", "./",
            "--root", "./", "content/a.typ", "<tola-meta>", "--field", "value", "--one"
        ]
    );
}

#[test]
fn known_output_of_commands_is_not_logged() {
    let ignored = vec!["<!DOCTYPE html>".to_string(), "{".to_string()];
    assert_eq!(
        tola::diagnostics::lines_to_log("  <!DOCTYPE html><html></html>\n", &ignored),
        Vec::<String>::new()
    );
    assert_eq!(
        tola::diagnostics::lines_to_log("\n done in 5ms \r\n\n  \t\nnext\n", &ignored),
        vec!["done in 5ms ", "next"]
    );
    assert_eq!(tola::diagnostics::lines_to_log("", &ignored), Vec::<String>::new());
    assert_eq!(tola::diagnostics::lines_to_log("a", &vec![]), vec!["a"]);
    assert_eq!(tola::diagnostics::lines_to_log("a", &vec!["".to_string()]), Vec::<String>::new());
}
