use tola::cli::{Cli, Commands};
use tola::config::{ExtractSvgType, SiteConfig};
use tola::content::{AssetAction, PathError};
use tola::image::{ImageOutcome, Measured};
use tola::init::{
    config_file, find_existing, ignore_files, ignore_text, init_config_with_info, is_filled,
    is_site_url, site_dirs, SiteInfo,
};
use tola::page::{
    draft_page, finish_page, plan_asset, repo_action, Compiled, RepoAction, TopLevelAssetNames,
    TransformError,
};
use tola::content::rewrite_context;
use tola::rewrite::RewriteError;
use tola::serve::{
    generate_directory_listing, handle_path, is_nonrecoverable, not_found_text, retry_countdown,
    Answer, Lookup,
};
use tola::settings::{issue_error, join_path, ConfigError, ConfigIssue, Probes};
use tola::watch::{
    find_seen, forget_old, normalize_path, process_watched_files, should_process_event,
    take_change, ChangeKind, Changed, Seen,
};

fn cli(command: Commands) -> Cli {
    Cli {
        root: None,
        output: None,
        content: None,
        assets: None,
        config: "tola.toml".to_string(),
        minify: None,
        tailwind: None,
        command,
    }
}

fn all_fine() -> Probes {
    Probes {
        config_file_exists: true,
        typst_found: true,
        tailwind_found: true,
        tailwind_input_exists: true,
        tailwind_input_is_file: true,
        root_exists: true,
        token_exists: true,
        token_is_file: true,
    }
}

fn compiled(html: &str) -> Compiled {
    Compiled { success: true, stdout: html.as_bytes().to_vec(), stderr: String::new() }
}

#[test]
fn paths_are_joined_like_paths() {
    assert_eq!(join_path("./", "content"), "./content");
    assert_eq!(join_path("/site", "content"), "/site/content");
    assert_eq!(join_path("/site/", "content"), "/site/content");
    assert_eq!(join_path("/site", "/abs/content"), "/abs/content");
    assert_eq!(join_path("", "content"), "content");
    assert_eq!(join_path("/site", ""), "/site/");
}

#[test]
fn command_line_moves_the_paths_below_the_root() {
    let mut config = SiteConfig::default();
    let mut args = cli(Commands::Build {});
    args.root = Some("/site".to_string());
    args.output = Some("dist".to_string());
    args.minify = Some(false);
    args.tailwind = Some(true);
    config.build.tailwind.input = Some("assets/main.css".to_string());
    config.build.typst.svg.inline_max_size = "20kb".to_string();
    config.deploy.github_provider.token_path = Some("secrets/token".to_string());
    config.update_with_cli(args);
    assert_eq!(config.get_root(), "/site");
    assert_eq!(config.build.content, "/site/content");
    assert_eq!(config.build.assets, "/site/assets");
    assert_eq!(config.build.output, "/site/dist");
    assert_eq!(config.build.rss.path, "/site/dist/feed.xml");
    assert!(!config.build.minify);
    assert!(config.build.tailwind.enable);
    assert_eq!(config.build.tailwind.input, Some("assets/main.css".to_string()));
    assert_eq!(config.build.typst.svg.inline_max_size, "20KB");
    assert_eq!(config.deploy.github_provider.token_path, Some("/site/secrets/token".to_string()));
    assert!(config.get_cli().is_build());
}

#[test]
fn command_line_roots_the_stylesheet_when_the_css_build_is_on() {
    let mut config = SiteConfig::default();
    config.build.tailwind.enable = true;
    config.build.tailwind.input = Some("assets/main.css".to_string());
    config.deploy.github_provider.token_path = Some("/etc/token".to_string());
    config.update_with_cli(cli(Commands::Build {}));
    assert_eq!(config.get_root(), "./");
    assert_eq!(config.build.content, "./content");
    assert_eq!(config.build.tailwind.input, Some("./assets/main.css".to_string()));
    assert_eq!(config.deploy.github_provider.token_path, Some("/etc/token".to_string()));
}

#[test]
fn serve_command_sets_the_base_url() {
    let mut config = SiteConfig::default();
    config.update_with_cli(cli(Commands::Serve {
        interface: Some("0.0.0.0".to_string()),
        port: Some(8080),
        watch: Some(false),
    }));
    assert_eq!(config.serve.interface, "0.0.0.0");
    assert_eq!(config.serve.port, 8080);
    assert!(!config.serve.watch);
    assert_eq!(config.base.url, Some("http://0.0.0.0:8080".to_string()));
    let mut config = SiteConfig::default();
    config.update_with_cli(cli(Commands::Serve { interface: None, port: None, watch: None }));
    assert_eq!(config.base.url, Some("http://127.0.0.1:5277".to_string()));
    assert!(config.serve.watch);
}

#[test]
fn deploy_and_init_commands_take_their_options() {
    let mut config = SiteConfig::default();
    config.update_with_cli(cli(Commands::Deploy { force: Some(true) }));
    assert!(config.deploy.force);
    let mut config = SiteConfig::default();
    config.update_with_cli(cli(Commands::Init { name: Some("blog".to_string()) }));
    assert_eq!(config.get_root(), "./blog");
    assert_eq!(config.build.content, "./blog/./content");
    let mut config = SiteConfig::default();
    config.update_with_cli(cli(Commands::Init { name: None }));
    assert_eq!(config.get_root(), "./");
    assert_eq!(config.build.content, "./content");
}

#[test]
fn configuration_is_checked_in_order() {
    let mut config = SiteConfig::default();
    config.cli = Some(cli(Commands::Build {}));
    assert_eq!(config.validate(&all_fine()), Ok(()));
    let mut probes = all_fine();
    probes.config_file_exists = false;
    probes.typst_found = false;
    assert_eq!(config.validate(&probes), Err(ConfigIssue::ConfigFileNotFound));
    probes.config_file_exists = true;
    assert_eq!(config.validate(&probes), Err(ConfigIssue::TypstNotFound));
    config.build.rss.enable = true;
    assert_eq!(config.validate(&probes), Err(ConfigIssue::FeedNeedsUrl));
    config.base.url = Some("ftp://example.com".to_string());
    assert_eq!(config.validate(&all_fine()), Err(ConfigIssue::UrlScheme));
    config.base.url = Some("https://example.com".to_string());
    assert_eq!(config.validate(&all_fine()), Ok(()));
    config.build.typst.command = vec![];
    assert_eq!(config.validate(&all_fine()), Err(ConfigIssue::TypstCommandEmpty));
    config.build.typst.command = vec!["typst".to_string()];
    config.build.typst.svg.inline_max_size = "20K".to_string();
    assert_eq!(config.validate(&all_fine()), Err(ConfigIssue::SizeSuffix));
}

#[test]
fn css_build_is_checked_where_it_is_on() {
    let mut config = SiteConfig::default();
    config.cli = Some(cli(Commands::Build {}));
    let mut probes = all_fine();
    probes.tailwind_found = false;
    probes.tailwind_input_exists = false;
    probes.tailwind_input_is_file = false;
    assert_eq!(config.validate(&probes), Ok(()));
    config.build.tailwind.enable = true;
    assert_eq!(config.validate(&probes), Err(ConfigIssue::TailwindNotFound));
    probes.tailwind_found = true;
    assert_eq!(config.validate(&probes), Err(ConfigIssue::TailwindInputUnset));
    config.build.tailwind.input = Some("assets/main.css".to_string());
    assert_eq!(config.validate(&probes), Err(ConfigIssue::TailwindInputNotFound));
    probes.tailwind_input_exists = true;
    assert_eq!(config.validate(&probes), Err(ConfigIssue::TailwindInputNotFile));
    probes.tailwind_input_is_file = true;
    assert_eq!(config.validate(&probes), Ok(()));
    config.build.tailwind.command = vec![];
    assert_eq!(config.validate(&probes), Err(ConfigIssue::TailwindCommandEmpty));
}

#[test]
fn commands_have_their_own_checks() {
    let mut config = SiteConfig::default();
    config.cli = Some(cli(Commands::Init { name: None }));
    assert_eq!(config.validate(&all_fine()), Err(ConfigIssue::PathExists));
    let mut probes = all_fine();
    probes.root_exists = false;
    assert_eq!(config.validate(&probes), Ok(()));
    config.cli = Some(cli(Commands::Deploy { force: None }));
    probes.token_exists = false;
    probes.token_is_file = false;
    assert_eq!(config.validate(&probes), Ok(()));
    config.deploy.github_provider.token_path = Some("token".to_string());
    assert_eq!(config.validate(&probes), Err(ConfigIssue::TokenNotFound));
    probes.token_exists = true;
    assert_eq!(config.validate(&probes), Err(ConfigIssue::TokenNotFile));
    probes.token_is_file = true;
    assert_eq!(config.validate(&probes), Ok(()));
    assert_eq!(
        issue_error(ConfigIssue::TokenNotFile),
        ConfigError::Validation("[deploy.github.token_path] is not a file".to_string())
    );
    assert_eq!(
        issue_error(ConfigIssue::SizeSuffix),
        ConfigError::Validation("[build.typst.svg.inline_max_size] must end with B, KB, or MB".to_string())
    );
}

#[test]
fn new_site_has_its_layout() {
    assert_eq!(
        site_dirs(),
        vec![
            "content",
            "assets/images",
            "assets/iconfonts",
            "assets/fonts",
            "assets/scripts",
            "assets/styles",
            "templates",
            "utils"
        ]
    );
    assert_eq!(ignore_files(), vec![".gitignore", ".ignore"]);
    assert_eq!(config_file(), "tola.toml");
    assert_eq!(ignore_text(&vec!["public".to_string(), "/assets/images/".to_string()]), "public\n/assets/images/");
    assert_eq!(ignore_text(&vec![".DS_Store".to_string()]), ".DS_Store");
    assert_eq!(ignore_text(&vec![]), "");
    assert_eq!(find_existing(&vec![false, false, true, true]), Some(2));
    assert_eq!(find_existing(&vec![false; 8]), None);
    assert_eq!(find_existing(&vec![]), None);
    assert!(is_filled(" a "));
    assert!(!is_filled(" \t\n"));
    assert!(is_site_url(""));
    assert!(is_site_url("http://a"));
    assert!(is_site_url("https://a"));
    assert!(!is_site_url("ftp://a"));
    assert!(!is_site_url(" https://a"));
    let config = init_config_with_info(SiteInfo {
        title: "T".to_string(),
        description: "D".to_string(),
        author: "A".to_string(),
        email: "a@b.c".to_string(),
        url: Some("https://a".to_string()),
    });
    assert_eq!(config.base.title, "T");
    assert_eq!(config.base.description, "D");
    assert_eq!(config.base.author, "A");
    assert_eq!(config.base.email, "a@b.c");
    assert_eq!(config.base.url, Some("https://a".to_string()));
    assert_eq!(config.build.output, "public");
}

#[test]
fn changes_are_debounced_by_file() {
    assert!(should_process_event(ChangeKind::Create));
    assert!(should_process_event(ChangeKind::Modify));
    assert!(!should_process_event(ChangeKind::Remove));
    assert!(!should_process_event(ChangeKind::Access));
    assert!(!should_process_event(ChangeKind::Other));
    let mut seen = Vec::new();
    assert!(take_change(&mut seen, "a.typ", 100));
    assert!(!take_change(&mut seen, "a.typ", 120));
    assert!(!take_change(&mut seen, "a.typ", 149));
    assert!(take_change(&mut seen, "b.typ", 120));
    assert!(take_change(&mut seen, "a.typ", 150));
    assert_eq!(find_seen(&seen, "a.typ"), Some(150));
    assert_eq!(find_seen(&seen, "b.typ"), Some(120));
    assert_eq!(find_seen(&seen, "c.typ"), None);
    assert_eq!(seen.len(), 3);
    assert!(take_change(&mut seen, "a.typ", 10));
}

#[test]
fn old_records_are_forgotten_once_there_are_many() {
    let few = vec![Seen { path: "a".to_string(), at: 0 }];
    assert_eq!(forget_old(few.clone(), 1_000_000), few);
    let mut many: Vec<Seen> =
        (0..101).map(|i| Seen { path: format!("f{i}"), at: i * 100 }).collect();
    many.push(Seen { path: "future".to_string(), at: 20_000 });
    let kept = forget_old(many, 10_000);
    let ats: Vec<u64> = kept.iter().map(|s| s.at).collect();
    assert_eq!(ats, (51..101).map(|i| i * 100).collect::<Vec<u64>>());
}

#[test]
fn changed_files_are_sorted_into_sources_and_assets() {
    let mut config = SiteConfig::default();
    config.build.assets = "./assets".to_string();
    let changes = vec![
        Changed { path: "./content/a.typ".to_string(), exists: true },
        Changed { path: "./content/gone.typ".to_string(), exists: false },
        Changed { path: "./assets/x.css".to_string(), exists: true },
        Changed { path: "./assets/t.typ".to_string(), exists: true },
        Changed { path: "./assets2/y.css".to_string(), exists: true },
        Changed { path: "./assets/gone.css".to_string(), exists: false },
        Changed { path: "./notes.txt".to_string(), exists: true },
    ];
    let (content, assets) = process_watched_files(&changes, &config);
    assert_eq!(content, vec!["./content/a.typ", "./assets/t.typ"]);
    assert_eq!(assets, vec!["./assets/x.css", "./assets/t.typ"]);
    assert_eq!(normalize_path("/work/content/a.typ", "/work", &config), "./content/a.typ");
    assert_eq!(normalize_path("/other/a.typ", "/work", &config), "/other/a.typ");
    config.build.root = Some("/site".to_string());
    assert_eq!(normalize_path("/work/content/a.typ", "/work", &config), "content/a.typ");
}

#[test]
fn server_answers_what_no_file_serves() {
    assert_eq!(not_found_text(), "404 Not Found");
    assert_eq!(handle_path("x", Lookup::Missing), Answer::NotFound);
    assert_eq!(handle_path("x", Lookup::File("f".to_string())), Answer::Page("f".to_string()));
    assert_eq!(
        handle_path("x", Lookup::DirWithIndex("i".to_string())),
        Answer::Page("i".to_string())
    );
    let listing = generate_directory_listing(&vec!["a".to_string(), "b c".to_string()], "posts");
    assert!(listing.contains("<h1>Directory: posts</h1>"));
    assert!(listing.contains("<li><a href='posts/a'>a</a></li><li><a href='posts/b c'>b c</a></li>"));
    assert!(listing.contains("* { background: #273748; color: white; }"));
    assert_eq!(
        handle_path("posts", Lookup::Dir(vec!["a".to_string(), "b c".to_string()])),
        Answer::Page(listing)
    );
    assert!(!is_nonrecoverable("address already in use"));
    assert!(is_nonrecoverable("permission denied"));
    assert_eq!(retry_countdown(2), vec![2, 1, 0]);
    assert_eq!(retry_countdown(0), vec![0]);
}

#[test]
fn source_becomes_a_page_with_its_images() {
    let mut config = SiteConfig::default();
    config.build.minify = false;
    config.build.typst.svg.extract_type = ExtractSvgType::Builtin;
    let ctx = rewrite_context(&config, vec![]);
    let html = "<html><head></head><body><svg height=\"1pt\"><g/></svg></body></html>";
    let draft = draft_page("content/posts/a.typ", &compiled(html), &config, &ctx).unwrap();
    assert_eq!(draft.source, "content/posts/a.typ");
    assert_eq!(draft.output, "public/posts/a/index.html");
    let measured = vec![Measured {
        data: vec![b's'; 30000],
        width: "3".to_string(),
        height: "4".to_string(),
    }];
    let page = finish_page(draft.clone(), &measured, &config).unwrap();
    assert_eq!(page.source, "content/posts/a.typ");
    assert_eq!(page.output, "public/posts/a/index.html");
    assert_eq!(
        String::from_utf8(page.bytes).unwrap(),
        "<html lang=\"zh-Hans\"><head></head><body><img src=\"/posts/a/svg-0.avif\" style=\"width:3px;height:4px;\"></body></html>"
    );
    assert_eq!(page.images.len(), 1);
    assert_eq!(page.images[0].file_name, "svg-0.avif");
    assert!(matches!(page.images[0].outcome, ImageOutcome::Raster(_)));
    assert_eq!(finish_page(draft, &vec![], &config), Err(TransformError::Images));
}

#[test]
fn transform_fails_at_the_first_step_that_fails() {
    let config = SiteConfig::default();
    let ctx = rewrite_context(&config, vec![]);
    let failed = Compiled {
        success: false,
        stdout: Vec::new(),
        stderr: "error: unknown variable: x\n".to_string(),
    };
    assert_eq!(
        draft_page("content/a.typ", &failed, &config, &ctx),
        Err(TransformError::Compile("error: unknown variable: x".to_string()))
    );
    assert_eq!(
        draft_page("elsewhere/a.typ", &failed, &config, &ctx),
        Err(TransformError::Path(PathError::OutsideRoot))
    );
    assert_eq!(
        draft_page("content/a.md", &compiled("<p/>"), &config, &ctx),
        Err(TransformError::Path(PathError::NotMarkup))
    );
    assert_eq!(
        draft_page("content/a.typ", &compiled("<p"), &config, &ctx),
        Err(TransformError::Rewrite(RewriteError::Malformed))
    );
}

#[test]
fn asset_is_planned_from_its_path() {
    let mut config = SiteConfig::default();
    let plan = plan_asset("assets/images/a.png", &config, true).unwrap();
    assert_eq!(plan.output, "public/images/a.png");
    assert!(plan.wait_until_stable);
    assert_eq!(plan.action, AssetAction::Copy);
    assert_eq!(plan_asset("other/a.png", &config, false), Err(PathError::OutsideRoot));
    config.build.tailwind.enable = true;
    config.build.tailwind.input = Some("assets/main.css".to_string());
    let plan = plan_asset("assets/main.css", &config, false).unwrap();
    assert!(!plan.wait_until_stable);
    assert_eq!(
        plan.action,
        AssetAction::BuildCss(
            ["tailwindcss", "-i", "assets/main.css", "-o", "public/main.css", "--minify"]
                .iter()
                .map(|s| s.to_string())
                .collect()
        )
    );
}

#[test]
fn asset_names_are_read_once() {
    let mut cache = TopLevelAssetNames::new();
    assert!(!cache.is_ready());
    cache.fill(vec!["images".to_string()]);
    assert!(cache.is_ready());
    assert_eq!(cache.get(), &vec!["images".to_string()]);
    cache.fill(vec!["fonts".to_string()]);
    assert_eq!(cache.get(), &vec!["images".to_string()]);
}

#[test]
fn output_directory_is_cleared_opened_or_created() {
    assert_eq!(repo_action(true, true), RepoAction::ClearAndCreate);
    assert_eq!(repo_action(true, false), RepoAction::OpenOrCreate);
    assert_eq!(repo_action(false, true), RepoAction::Create);
    assert_eq!(repo_action(false, false), RepoAction::Create);
}
