use theymer::config::{
    candidates, default_providers, detect_project_type, expand_and_resolve, find_project_root,
    is_blank, is_white_space, load, merge_providers_with_defaults, parse, resolve_against,
    ConfigError, Dirs, ProjectType, Provider, Raw, FILENAME,
};
use theymer::themes::config::{load as load_theme_config, render_dir, Raw as ThemeRaw};
use theymer::themes::{base_path, layout, source, Source, Type};

fn provider(host: &str, blob: Option<&str>, raw: Option<&str>, branch: Option<&str>) -> Provider {
    Provider {
        host: host.to_owned(),
        blob_path: blob.map(|s| s.to_owned()),
        raw_path: raw.map(|s| s.to_owned()),
        branch: branch.map(|s| s.to_owned()),
    }
}

fn hosts(list: &Vec<Provider>) -> Vec<String> {
    list.iter().map(|p| p.host.clone()).collect()
}

#[test]
fn four_built_in_providers() {
    let providers = default_providers();
    assert_eq!(
        hosts(&providers),
        vec![
            "github.com".to_owned(),
            "gitlab.com".to_owned(),
            "codeberg.org".to_owned(),
            "bitbucket.org".to_owned()
        ]
    );
    assert_eq!(
        providers[0].blob_path,
        Some("{host}/{owner}/{repo}/blob/{ref}/{file}".to_owned())
    );
    assert_eq!(
        providers[0].raw_path,
        Some("raw.githubusercontent.com/{owner}/{repo}/{ref}/{file}".to_owned())
    );
    assert_eq!(
        providers[1].blob_path,
        Some("{host}/{owner}/{repo}/-/blob/{ref}/{file}".to_owned())
    );
    assert_eq!(providers[1].raw_path, Some("{host}/{owner}/{repo}/-/raw/{ref}/{file}".to_owned()));
    assert_eq!(
        providers[2].blob_path,
        Some("{host}/{owner}/{repo}/src/branch/{ref}/{file}".to_owned())
    );
    assert_eq!(
        providers[2].raw_path,
        Some("{host}/{owner}/{repo}/raw/branch/{ref}/{file}".to_owned())
    );
    assert_eq!(providers[3].blob_path, Some("{host}/{owner}/{repo}/src/{ref}/{file}".to_owned()));
    assert_eq!(providers[3].raw_path, Some("{host}/{owner}/{repo}/raw/{ref}/{file}".to_owned()));
    for p in &providers {
        assert_eq!(p.branch, None);
    }
}

#[test]
fn no_user_providers_gives_the_defaults() {
    let resolved = merge_providers_with_defaults(&[]);
    let defaults = default_providers();
    assert_eq!(resolved.len(), 4);
    for i in 0..4 {
        assert_eq!(resolved[i].host, defaults[i].host);
        assert_eq!(resolved[i].blob_path, defaults[i].blob_path);
        assert_eq!(resolved[i].raw_path, defaults[i].raw_path);
        assert_eq!(resolved[i].branch, defaults[i].branch);
    }
}

#[test]
fn branch_override_keeps_templates() {
    let resolved =
        merge_providers_with_defaults(&[provider("github.com", None, None, Some("stable"))]);
    let defaults = default_providers();
    assert_eq!(resolved.len(), 4);
    assert_eq!(resolved[0].host, "github.com");
    assert_eq!(resolved[0].branch, Some("stable".to_owned()));
    assert_eq!(resolved[0].blob_path, defaults[0].blob_path);
    assert_eq!(resolved[0].raw_path, defaults[0].raw_path);
    assert_eq!(hosts(&resolved), hosts(&defaults));
}

#[test]
fn unknown_hosts_are_appended_in_order() {
    let resolved = merge_providers_with_defaults(&[
        provider("git.example.org", Some("{host}/x/{file}"), None, None),
        provider("gitlab.com", Some("custom/{file}"), None, None),
        provider("sr.ht", None, None, None),
        provider("git.example.org", None, Some("raw/{file}"), None),
    ]);
    assert_eq!(
        hosts(&resolved),
        vec![
            "github.com".to_owned(),
            "gitlab.com".to_owned(),
            "codeberg.org".to_owned(),
            "bitbucket.org".to_owned(),
            "git.example.org".to_owned(),
            "sr.ht".to_owned()
        ]
    );
    assert_eq!(resolved[1].blob_path, Some("custom/{file}".to_owned()));
    assert_eq!(resolved[1].raw_path, Some("{host}/{owner}/{repo}/-/raw/{ref}/{file}".to_owned()));
    assert_eq!(resolved[4].blob_path, Some("{host}/x/{file}".to_owned()));
    assert_eq!(resolved[4].raw_path, Some("raw/{file}".to_owned()));
    assert_eq!(resolved[5].blob_path, None);
}

#[test]
fn project_type_follows_themes_directory() {
    assert_eq!(detect_project_type(true), ProjectType::Polytheme);
    assert_eq!(detect_project_type(false), ProjectType::Monotheme);
}

#[test]
fn candidates_are_the_file_under_each_ancestor() {
    assert_eq!(FILENAME, "theymer.toml");
    assert_eq!(
        candidates("/a/b"),
        vec![
            "/a/b/theymer.toml".to_owned(),
            "/a/theymer.toml".to_owned(),
            "/theymer.toml".to_owned()
        ]
    );
}

#[test]
fn project_root_is_the_nearest_ancestor_with_a_configuration() {
    let root = find_project_root("/a/b/c", &vec![false, true, true, false]);
    assert_eq!(root.unwrap(), "/a/b");
    let root = find_project_root("/a/b/c", &vec![true]);
    assert_eq!(root.unwrap(), "/a/b/c");
    let root = find_project_root("/a/b/c", &vec![false, false, false, true]);
    assert_eq!(root.unwrap(), "/");
}

#[test]
fn no_project_root_is_an_error() {
    match find_project_root("/a/b", &vec![false, false, false]) {
        Err(ConfigError::NoProjectRoot { cwd }) => assert_eq!(cwd, "/a/b"),
        other => panic!("unexpected: {:?}", other),
    }
    match find_project_root("/a/b", &vec![]) {
        Err(ConfigError::NoProjectRoot { cwd }) => assert_eq!(cwd, "/a/b"),
        other => panic!("unexpected: {:?}", other),
    }
    match find_project_root("/a", &vec![false, false, true, true]) {
        Err(ConfigError::NoProjectRoot { cwd }) => assert_eq!(cwd, "/a"),
        other => panic!("unexpected: {:?}", other),
    }
}

#[test]
fn blank_text_is_white_space_only() {
    assert!(is_blank(""));
    assert!(is_blank(" \t\r\n"));
    assert!(is_blank("\u{a0}\u{2003}\u{3000}"));
    assert!(!is_blank(" x "));
    assert!(!is_blank("\u{200b}"));
    assert!(is_white_space(' '));
    assert!(is_white_space('\u{85}'));
    assert!(!is_white_space('a'));
    assert!(!is_white_space('\u{8}'));
    for c in ['\u{9}', '\u{a}', '\u{b}', '\u{c}', '\u{d}', '\u{1680}', '\u{2028}', '\u{205f}'] {
        assert_eq!(is_white_space(c), c.is_whitespace());
    }
}

#[test]
fn white_space_agrees_with_std_everywhere() {
    let mut n: u32 = 0;
    while n < 0x11000 {
        if let Some(c) = char::from_u32(n) {
            assert_eq!(is_white_space(c), c.is_whitespace());
        }
        n += 1;
    }
}

#[test]
fn blank_content_parses_to_defaults() {
    let raw = parse("  \n", Err("never looked at".to_owned())).unwrap();
    assert_eq!(raw.strip_directives, vec![vec!["#:tombi".to_owned()]]);
    assert_eq!(raw.dirs.themes, "themes");
    assert_eq!(raw.dirs.schemes, "schemes");
    assert_eq!(raw.dirs.templates, "templates");
    assert_eq!(raw.dirs.render, "render");
    assert_eq!(raw.providers.len(), 4);
    assert_eq!(raw.render_all_into, None);
}

#[test]
fn written_content_parses_to_what_was_decoded() {
    let written = Raw {
        strip_directives: vec![],
        dirs: Dirs::default(),
        providers: vec![],
        render_all_into: Some("out".to_owned()),
    };
    let raw = parse("x = 1", Ok(written)).unwrap();
    assert_eq!(raw.strip_directives.len(), 0);
    assert_eq!(raw.providers.len(), 0);
    assert_eq!(raw.render_all_into, Some("out".to_owned()));
    match parse("x = ", Err("expected a value".to_owned())) {
        Err(ConfigError::Parsing { src }) => assert_eq!(src, "expected a value"),
        other => panic!("unexpected: {:?}", other),
    }
}

#[test]
fn expanded_paths_are_anchored_at_the_root() {
    assert_eq!(resolve_against("render".to_owned(), "/project"), "/project/render");
    assert_eq!(resolve_against("/abs/render".to_owned(), "/project"), "/abs/render");
    assert_eq!(resolve_against("a/b".to_owned(), "/project/"), "/project/a/b");
}

#[test]
fn plain_paths_expand_to_themselves() {
    assert_eq!(expand_and_resolve("render", "/project").unwrap(), "/project/render");
    assert_eq!(expand_and_resolve("/abs", "/project").unwrap(), "/abs");
}

#[test]
fn paths_with_nothing_to_expand_always_resolve() {
    for written in ["themes", "a/b/c", "/abs/~/x", "a~b", ""] {
        let expected = resolve_against(written.to_owned(), "/project");
        assert_eq!(expand_and_resolve(written, "/project").unwrap(), expected);
    }
    let config = load(Raw::default(), "/p", false).unwrap();
    assert_eq!(config.dirs.themes, "/p/themes");
    assert_eq!(config.dirs.render, "/p/render");
}

#[test]
fn unknown_variables_fail_expansion() {
    match expand_and_resolve("$THEYMER_TEST_VARIABLE_THAT_IS_NEVER_SET/x", "/project") {
        Err(ConfigError::ExpandingPath { path, variable, cause }) => {
            assert_eq!(path, "$THEYMER_TEST_VARIABLE_THAT_IS_NEVER_SET/x");
            assert_eq!(variable, "THEYMER_TEST_VARIABLE_THAT_IS_NEVER_SET");
            assert_eq!(cause, "environment variable not found");
        }
        other => panic!("unexpected: {:?}", other),
    }
}

#[test]
fn load_resolves_a_written_configuration() {
    let raw = Raw {
        strip_directives: vec![vec!["#:x".to_owned()]],
        dirs: Dirs::default(),
        providers: vec![provider("github.com", None, None, Some("main"))],
        render_all_into: Some("/srv/out".to_owned()),
    };
    let config = load(raw, "/project", true).unwrap();
    assert_eq!(config.strip_directives, vec![vec!["#:x".to_owned()]]);
    assert_eq!(config.dirs.themes, "/project/themes");
    assert_eq!(config.dirs.schemes, "/project/schemes");
    assert_eq!(config.dirs.templates, "/project/templates");
    assert_eq!(config.dirs.render, "/project/render");
    assert_eq!(config.providers.len(), 4);
    assert_eq!(config.providers[0].branch, Some("main".to_owned()));
    assert_eq!(config.project_type, ProjectType::Polytheme);
    assert_eq!(config.project_root, "/project");
    assert_eq!(config.render_all_into, Some("/srv/out".to_owned()));
}

#[test]
fn load_fails_on_an_unknown_variable() {
    let mut raw = Raw::default();
    raw.dirs.render = "${THEYMER_TEST_VARIABLE_THAT_IS_NEVER_SET}".to_owned();
    match load(raw, "/project", false) {
        Err(ConfigError::ExpandingPath { path, .. }) => {
            assert_eq!(path, "${THEYMER_TEST_VARIABLE_THAT_IS_NEVER_SET}")
        }
        other => panic!("unexpected: {:?}", other),
    }
}

#[test]
fn config_errors_say_what_went_wrong() {
    assert_eq!(
        ConfigError::NoProjectRoot { cwd: "/a".to_owned() }.message(),
        "failed to find `theymer.toml` in `/a` or any parent directory"
    );
    assert_eq!(
        ConfigError::Reading { src: "denied".to_owned() }.message(),
        "failed to read `theymer.toml`: denied"
    );
    assert_eq!(
        ConfigError::Parsing { src: "bad".to_owned() }.message(),
        "failed to parse `theymer.toml`: bad"
    );
    assert_eq!(
        ConfigError::ExpandingPath {
            path: "$X/y".to_owned(),
            variable: "X".to_owned(),
            cause: "environment variable not found".to_owned()
        }
        .message(),
        "failed to expand path `$X/y`: error looking key 'X' up: environment variable not found"
    );
    assert_eq!(
        ConfigError::ChangingDir {
            cwd: "/a".to_owned(),
            root: "/b".to_owned(),
            src: "gone".to_owned()
        }
        .message(),
        "failed to move from `/a` to project root `/b`: gone"
    );
}

#[test]
fn theme_render_directory_follows_inherit() {
    let shared = Some("/srv/out".to_owned());
    assert_eq!(render_dir(true, "render", "/p/themes/forest", "forest", &shared), "/srv/out/forest");
    assert_eq!(
        render_dir(false, "render", "/p/themes/forest", "forest", &shared),
        "/p/themes/forest/render"
    );
    assert_eq!(
        render_dir(true, "render", "/p/themes/forest", "forest", &None),
        "/p/themes/forest/render"
    );
}

#[test]
fn theme_configuration_is_resolved_against_its_directory() {
    let mut raw = ThemeRaw::default();
    raw.inherit = true;
    let config =
        load_theme_config(raw, "/p/themes/forest", "forest", &Some("/out".to_owned()))
            .unwrap()
            .unwrap();
    assert!(config.inherit);
    assert_eq!(config.dirs.schemes, "/p/themes/forest/schemes");
    assert_eq!(config.dirs.templates, "/p/themes/forest/templates");
    assert_eq!(config.dirs.render, "/out/forest");
}

#[test]
fn theme_layout_from_what_is_on_disk() {
    assert_eq!(layout(true, false, false), Some(Type::SingleScheme));
    assert_eq!(layout(true, true, true), Some(Type::SingleScheme));
    assert_eq!(layout(false, true, false), Some(Type::MultiScheme));
    assert_eq!(layout(false, false, true), Some(Type::MultiScheme));
    assert_eq!(layout(false, false, false), None);
    assert_eq!(base_path("/t/forest", Type::SingleScheme), "/t/forest/theme.toml");
    assert_eq!(base_path("/t/forest", Type::MultiScheme), "/t/forest/base.toml");
}

#[test]
fn schemes_come_from_the_directory_or_the_base() {
    assert_eq!(source(Type::SingleScheme, false, true), Some(Source::Base));
    assert_eq!(source(Type::SingleScheme, true, true), Some(Source::Base));
    assert_eq!(source(Type::SingleScheme, true, false), None);
    assert_eq!(source(Type::MultiScheme, true, true), Some(Source::Directory));
    assert_eq!(source(Type::MultiScheme, true, false), Some(Source::Directory));
    assert_eq!(source(Type::MultiScheme, false, true), Some(Source::Base));
    assert_eq!(source(Type::MultiScheme, false, false), None);
}
