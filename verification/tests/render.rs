use theymer::config::{default_providers, Config, Dirs, ProjectType};
use theymer::manifest::{Error as ManifestError, Manifest};
use theymer::output::strategy::{Decision, FileStatus, WriteMode};
use theymer::output::upstream::{Cache, Detected};
use theymer::render::index::{Entry, Index, Inputs, VERSION};
use theymer::render::{
    all, all_with, apply, apply_internal, build_upstream, execute, fill_marker, git_info_with,
    ignores_swatch,
    prepare, report, resolve_path, resolve_with_autodetect, should_render, strip_prefix,
    uses_swatch_iteration, Action, Job, Probe, Session, Step,
};
use theymer::templates::Template;
use theymer::themes::config::{Config as ThemeConfig, ResolvedDirs};
use theymer::themes::{Scheme, Swatch, Theme};
use theymer::Error;

fn config(project_type: ProjectType, render_all_into: Option<&str>) -> Config {
    Config {
        strip_directives: vec![],
        dirs: Dirs::default(),
        providers: default_providers(),
        project_type,
        project_root: "/project".to_owned(),
        render_all_into: render_all_into.map(|s| s.to_owned()),
    }
}

fn scheme(name: &str, swatches: &[&str]) -> Scheme {
    Scheme {
        name: name.to_owned(),
        name_ascii: name.to_owned(),
        palette: swatches
            .iter()
            .map(|s| Swatch { name: (*s).to_owned(), color: "#000".to_owned() })
            .collect(),
    }
}

fn theme(name: &str, render: Option<&str>, schemes: Vec<Scheme>) -> Theme {
    Theme {
        name: name.to_owned(),
        name_ascii: name.to_owned(),
        schemes,
        config: render.map(|dir| ThemeConfig {
            inherit: false,
            dirs: ResolvedDirs {
                schemes: "schemes".to_owned(),
                templates: "templates".to_owned(),
                render: dir.to_owned(),
            },
        }),
    }
}

fn template(name: &str) -> Template {
    Template { name: name.to_owned(), source: "{{ swatch }}".to_owned() }
}

fn inputs() -> Inputs {
    Inputs {
        theme: "forest".to_owned(),
        scheme: "dark".to_owned(),
        template: "x.conf.jinja".to_owned(),
        theme_text: "theme".to_owned(),
        scheme_text: "scheme".to_owned(),
        template_source: "source".to_owned(),
    }
}

fn session(write_mode: WriteMode, dry_run: bool) -> Session {
    Session::new(None, default_providers(), write_mode, dry_run).unwrap()
}

fn decide_for(
    session: &Session,
    on_disk: Option<&str>,
    context_keys: &Vec<String>,
    rendered: Result<String, String>,
    header: &str,
) -> Result<Step, Error> {
    theymer::render::write(session, "out/a", on_disk, &inputs(), context_keys, rendered, header)
}

fn keys() -> Vec<String> {
    vec!["theme".to_owned(), "_set".to_owned()]
}

fn paths(jobs: &Vec<Job>) -> Vec<String> {
    jobs.iter().map(|j| j.path.clone()).collect()
}

#[test]
fn names_with_theme_and_scheme_markers() {
    let forest = theme("forest", Some("/project/render"), vec![]);
    let path = resolve_path(
        &forest,
        "{THEME}-{SCHEME}.conf.jinja",
        "dark",
        &config(ProjectType::Polytheme, None),
        None,
    )
    .unwrap();
    assert_eq!(path, "/project/render/forest-dark.conf");
}

#[test]
fn bare_markers_are_filled_too() {
    let forest = theme("forest", Some("out"), vec![]);
    let cfg = config(ProjectType::Polytheme, None);
    let path = resolve_path(&forest, "THEME-SCHEME.conf.jinja", "dark", &cfg, None).unwrap();
    assert_eq!(path, "out/forest-dark.conf");
    let path =
        resolve_path(&forest, "THEME_{SCHEME}_SWATCH.conf", "dark", &cfg, Some("red")).unwrap();
    assert_eq!(path, "out/forest_dark_red.conf");
    assert_eq!(fill_marker("{X}-X-{X", "X", "y"), "y-y-{y");
    assert_eq!(fill_marker("abc", "X", "y"), "abc");
}

#[test]
fn template_directories_are_kept() {
    let forest = theme("forest", Some("out"), vec![]);
    let path = resolve_path(
        &forest,
        "kitty/themes/{SCHEME}.conf.jinja",
        "dark",
        &config(ProjectType::Polytheme, None),
        None,
    )
    .unwrap();
    assert_eq!(path, "out/kitty/themes/dark.conf");
}

#[test]
fn swatch_marker_is_replaced_only_with_a_swatch() {
    let forest = theme("forest", Some("out"), vec![]);
    let cfg = config(ProjectType::Polytheme, None);
    let with = resolve_path(&forest, "{SCHEME}-{SWATCH}.svg.jinja", "dark", &cfg, Some("red"));
    assert_eq!(with.unwrap(), "out/dark-red.svg");
    let without = resolve_path(&forest, "{SCHEME}-{SWATCH}.svg.jinja", "dark", &cfg, None);
    assert_eq!(without.unwrap(), "out/dark-{SWATCH}.svg");
}

#[test]
fn markers_in_directories_stay() {
    let forest = theme("forest", Some("out"), vec![]);
    let cfg = config(ProjectType::Polytheme, None);
    let path = resolve_path(&forest, "{THEME}/{THEME}.conf", "dark", &cfg, None).unwrap();
    assert_eq!(path, "out/{THEME}/forest.conf");
}

#[test]
fn single_theme_renders_into_the_shared_target() {
    let forest = theme("forest", None, vec![]);
    let path = resolve_path(
        &forest,
        "{SCHEME}.conf.jinja",
        "dark",
        &config(ProjectType::Monotheme, Some("/srv/out")),
        None,
    )
    .unwrap();
    assert_eq!(path, "/srv/out/dark.conf");
}

#[test]
fn missing_render_directory_is_an_internal_bug() {
    let forest = theme("forest", None, vec![]);
    for cfg in [
        config(ProjectType::Polytheme, Some("/srv/out")),
        config(ProjectType::Polytheme, None),
        config(ProjectType::Monotheme, None),
    ] {
        match resolve_path(&forest, "x.conf.jinja", "dark", &cfg, None) {
            Err(Error::InternalBug { module, .. }) => assert_eq!(module, "render"),
            other => panic!("unexpected: {:?}", other),
        }
    }
}

#[test]
fn path_errors_say_why() {
    let cfg = config(ProjectType::Polytheme, None);
    let reason = |result: Result<String, Error>| match result {
        Err(Error::InternalBug { module, reason }) => {
            assert_eq!(module, "render");
            reason
        }
        other => panic!("unexpected: {:?}", other),
    };
    let forest = theme("forest", Some("out"), vec![]);
    assert_eq!(
        reason(resolve_path(&forest, ".jinja", "dark", &cfg, None)),
        "attempted to render to corrupted path ``"
    );
    assert_eq!(
        reason(resolve_path(&forest, "dir/.jinja", "dark", &cfg, None)),
        "attempted to render to corrupted path `dir/`"
    );
    let bare = theme("forest", None, vec![]);
    assert_eq!(
        reason(resolve_path(&bare, "x.jinja", "dark", &cfg, None)),
        "theme `forest` has no render directory"
    );
    assert_eq!(
        reason(resolve_path(&bare, "x.jinja", "dark", &config(ProjectType::Monotheme, None), None)),
        "the project has no render target"
    );
    assert_eq!(
        reason(resolve_path(&bare, "dir/", "dark", &cfg, None)),
        "attempted to render to corrupted path `dir/`"
    );
    let dark = scheme("dark", &[]);
    let bare = theme("forest", None, vec![dark]);
    match all(&vec![template("_skip/x.jinja"), template("a/..")], &vec![bare], &cfg) {
        Err(Error::Rendering(text)) => assert_eq!(
            text,
            "error rendering: error rendering: internal error in render: attempted to render to \
             corrupted path `a/..`! this is a bug!"
        ),
        other => panic!("unexpected: {:?}", other),
    }
}

#[test]
fn corrupted_template_path_is_an_internal_bug() {
    let forest = theme("forest", Some("out"), vec![]);
    let cfg = config(ProjectType::Polytheme, None);
    for name in ["", "dir/", ".jinja", "a/..", "dir/.jinja"] {
        match resolve_path(&forest, name, "dark", &cfg, None) {
            Err(Error::InternalBug { module, reason }) => {
                assert_eq!(module, "render");
                assert!(reason.starts_with("attempted to render to corrupted path `"));
            }
            other => panic!("unexpected for {:?}: {:?}", name, other),
        }
    }
}

#[test]
fn swatch_iteration_is_told_by_the_marker() {
    assert!(uses_swatch_iteration("{SWATCH}.svg.jinja"));
    assert!(uses_swatch_iteration("icons/{SCHEME}-{SWATCH}.svg.jinja"));
    assert!(uses_swatch_iteration("SWATCH.svg.jinja"));
    assert!(!uses_swatch_iteration("swatch.svg.jinja"));
    assert!(!uses_swatch_iteration("{SCHEME}.svg.jinja"));
    assert!(!ignores_swatch(&template("{SWATCH}.svg.jinja")));
    assert!(ignores_swatch(&Template {
        name: "{SWATCH}.svg.jinja".to_owned(),
        source: "no variable".to_owned()
    }));
    assert!(!ignores_swatch(&Template {
        name: "plain.svg.jinja".to_owned(),
        source: "no variable".to_owned()
    }));
}

#[test]
fn templates_under_a_skipped_segment_are_left_out() {
    assert!(should_render("kitty/theme.conf.jinja"));
    assert!(should_render("kitty/the_me.conf.jinja"));
    assert!(should_render("kitty_/theme.conf.jinja"));
    assert!(!should_render("_partials/header.jinja"));
    assert!(!should_render("kitty/_theme.conf.jinja"));
    assert!(!should_render("a/_b/c.jinja"));
    assert!(should_render(""));
    assert!(!should_render("_"));
    assert!(!should_render("a/_"));
}

#[test]
fn one_file_per_swatch_in_palette_order() {
    let dark = scheme("dark", &["red", "green"]);
    let forest = theme("forest", Some("out"), vec![]);
    let cfg = config(ProjectType::Polytheme, None);
    let jobs = apply_internal(&forest, &dark, "{SCHEME}-{SWATCH}.svg.jinja", &cfg).unwrap();
    assert_eq!(jobs.len(), 2);
    assert_eq!(jobs[0].swatch, Some("red".to_owned()));
    assert_eq!(jobs[0].path, "out/dark-red.svg");
    assert_eq!(jobs[1].swatch, Some("green".to_owned()));
    assert_eq!(jobs[1].path, "out/dark-green.svg");
    assert_eq!(jobs[0].theme, "forest");
    assert_eq!(jobs[0].scheme, "dark");
    assert_eq!(jobs[0].template, "{SCHEME}-{SWATCH}.svg.jinja");
}

#[test]
fn plain_template_gives_one_file() {
    let dark = scheme("dark", &["red", "green"]);
    let forest = theme("forest", Some("out"), vec![]);
    let cfg = config(ProjectType::Polytheme, None);
    let jobs = apply(&forest, &dark, "{SCHEME}.conf.jinja", &cfg).unwrap();
    assert_eq!(jobs.len(), 1);
    assert_eq!(jobs[0].swatch, None);
    assert_eq!(jobs[0].path, "out/dark.conf");
}

#[test]
fn swatch_template_with_empty_palette_gives_nothing() {
    let dark = scheme("dark", &[]);
    let forest = theme("forest", None, vec![]);
    let cfg = config(ProjectType::Polytheme, None);
    assert_eq!(apply(&forest, &dark, "{SWATCH}.svg.jinja", &cfg).unwrap().len(), 0);
}

#[test]
fn failures_are_reported_as_rendering() {
    let dark = scheme("dark", &["red"]);
    let forest = theme("forest", None, vec![]);
    let cfg = config(ProjectType::Polytheme, None);
    match apply_internal(&forest, &dark, "x.conf.jinja", &cfg) {
        Err(Error::InternalBug { .. }) => {}
        other => panic!("unexpected: {:?}", other),
    }
    match apply(&forest, &dark, "x.conf.jinja", &cfg) {
        Err(Error::Rendering(reason)) => assert_eq!(
            reason,
            "internal error in render: theme `forest` has no render directory! this is a bug!"
        ),
        other => panic!("unexpected: {:?}", other),
    }
    match all_with(&forest, &dark, &vec![template("x.conf.jinja")], &cfg) {
        Err(Error::Rendering(reason)) => assert!(reason.starts_with(
            "error rendering: internal error in render: theme `forest`"
        )),
        other => panic!("unexpected: {:?}", other),
    }
    let forest = theme("forest", None, vec![dark]);
    match all(&vec![template("x.conf.jinja")], &vec![forest], &cfg) {
        Err(Error::Rendering(reason)) => assert!(reason.starts_with(
            "error rendering: error rendering: internal error in render: theme `forest`"
        )),
        other => panic!("unexpected: {:?}", other),
    }
}

#[test]
fn plan_runs_themes_then_schemes_then_templates() {
    let templates = vec![
        template("{SCHEME}.conf.jinja"),
        template("_partials/head.jinja"),
        template("icons/{SWATCH}.svg.jinja"),
    ];
    let themes = vec![
        theme("forest", Some("/f"), vec![scheme("dark", &["red", "green"]), scheme("light", &[])]),
        theme("ocean", Some("/o"), vec![scheme("deep", &["blue"])]),
    ];
    let jobs = all(&templates, &themes, &config(ProjectType::Polytheme, None)).unwrap();
    assert_eq!(
        paths(&jobs),
        vec![
            "/f/dark.conf".to_owned(),
            "/f/icons/red.svg".to_owned(),
            "/f/icons/green.svg".to_owned(),
            "/f/light.conf".to_owned(),
            "/o/deep.conf".to_owned(),
            "/o/icons/blue.svg".to_owned(),
        ]
    );
    assert_eq!(jobs[4].theme, "ocean");
    assert_eq!(jobs[4].scheme, "deep");
    let for_dark = all_with(
        &themes[0],
        &themes[0].schemes[0],
        &templates,
        &config(ProjectType::Polytheme, None),
    )
    .unwrap();
    assert_eq!(for_dark.len(), 3);
}

#[test]
fn empty_plan_for_no_themes() {
    let jobs = all(&vec![template("x.jinja")], &vec![], &config(ProjectType::Polytheme, None));
    assert_eq!(jobs.unwrap().len(), 0);
}

#[test]
fn new_session_starts_empty() {
    let s = session(WriteMode::Normal, false);
    assert_eq!(s.index.len(), 0);
    assert_eq!(s.index.version, VERSION);
    assert_eq!(s.providers.len(), 4);
    assert_eq!(s.git_cache.entries.len(), 0);
    assert_eq!(s.write_mode, WriteMode::Normal);
    assert!(!s.dry_run);
}

#[test]
fn session_takes_over_a_stored_index() {
    let stored = Manifest {
        version: VERSION,
        entries: vec![Index::create_entry("out/a", &inputs(), "body")],
    };
    let s = Session::new(Some(stored), vec![], WriteMode::Force, true).unwrap();
    assert_eq!(s.index.len(), 1);
    assert_eq!(s.write_mode, WriteMode::Force);
    assert!(s.dry_run);
}

#[test]
fn session_refuses_another_version() {
    let stored: Manifest<Entry> = Manifest { version: 3, entries: vec![] };
    match Session::new(Some(stored), vec![], WriteMode::Normal, false) {
        Err(Error::Manifest(ManifestError::VersionMismatch { found, expected })) => {
            assert_eq!(found, 3);
            assert_eq!(expected, VERSION);
        }
        other => panic!("unexpected: {:?}", other),
    }
}

#[test]
fn save_hands_back_the_index_unless_dry() {
    let mut s = session(WriteMode::Normal, false);
    s.record("out/a", &inputs(), "body");
    let saved = s.save().unwrap();
    assert_eq!(saved.len(), 1);
    assert_eq!(saved.entries[0].path, "out/a");
    let mut dry = session(WriteMode::Normal, true);
    dry.record("out/a", &inputs(), "body");
    assert!(dry.save().is_none());
}

#[test]
fn dry_run_records_nothing() {
    let mut dry = session(WriteMode::Force, true);
    dry.record("out/a", &inputs(), "body");
    assert_eq!(dry.index.len(), 0);
}

#[test]
fn prepare_puts_the_header_first() {
    let output = prepare(&keys(), Ok("body\n".to_owned()), "# header\n", "dark", "x.jinja");
    assert_eq!(output.unwrap(), "# header\nbody\n");
}

#[test]
fn prepare_requires_the_test_object() {
    let without = vec!["theme".to_owned()];
    match prepare(&without, Ok("body".to_owned()), "", "dark", "x.jinja") {
        Err(Error::InternalBug { module, reason }) => {
            assert_eq!(module, "render");
            assert_eq!(
                reason,
                "scheme `dark` context for template `x.jinja` missing `_set` template variable"
            );
        }
        other => panic!("unexpected: {:?}", other),
    }
    match prepare(&without, Err("boom".to_owned()), "", "dark", "x.jinja") {
        Err(Error::InternalBug { .. }) => {}
        other => panic!("unexpected: {:?}", other),
    }
}

#[test]
fn prepare_reports_a_failed_rendering() {
    match prepare(&keys(), Err("boom".to_owned()), "", "dark", "x.jinja") {
        Err(Error::Rendering(reason)) => {
            assert_eq!(reason, "rendering template `x.jinja` with scheme `dark`: boom")
        }
        other => panic!("unexpected: {:?}", other),
    }
}

#[test]
fn actions_follow_decisions() {
    assert_eq!(execute(Decision::Conflict, false), Action::Conflict);
    assert_eq!(execute(Decision::Conflict, true), Action::Conflict);
    assert_eq!(execute(Decision::Write, false), Action::Write);
    assert_eq!(execute(Decision::Write, true), Action::WouldWrite);
    assert_eq!(execute(Decision::ForceWrite, false), Action::Write);
    assert_eq!(execute(Decision::ForceWrite, true), Action::WouldWrite);
    assert_eq!(execute(Decision::Skip, false), Action::Skip);
    assert_eq!(execute(Decision::Skip, true), Action::Skip);
}

#[test]
fn every_decision_is_reported() {
    assert_eq!(
        report(Decision::Conflict, false, "out/a"),
        "conflict: `out/a` (last modified by user; use `--force` to overwrite)"
    );
    assert_eq!(report(Decision::Write, true, "out/a"), "would write `out/a` (new or stale)");
    assert_eq!(report(Decision::ForceWrite, true, "out/a"), "would write `out/a` (forced)");
    assert_eq!(report(Decision::Write, false, "out/a"), "generated `out/a`");
    assert_eq!(report(Decision::Skip, false, "out/a"), "skipped `out/a` (unchanged)");
    assert_eq!(report(Decision::Skip, true, "out/a"), "skipped `out/a` (unchanged)");
}

#[test]
fn first_run_writes_second_run_skips() {
    let mut s = session(WriteMode::Normal, false);
    let first =
        decide_for(&s, None, &keys(), Ok("body".to_owned()), "# h\n").unwrap();
    assert_eq!(first.output, "# h\nbody");
    assert_eq!(first.status, FileStatus::NotTracked);
    assert_eq!(first.decision, Decision::Write);
    assert_eq!(first.action, Action::Write);
    s.record("out/a", &inputs(), "# h\nbody");
    let before: Vec<String> = s.index.entries.iter().map(|e| e.render_hash.clone()).collect();
    let second =
        decide_for(&s, Some("# h\nbody"), &keys(), Ok("body".to_owned()), "# h\n")
            .unwrap();
    assert_eq!(second.status, FileStatus::Unchanged);
    assert_eq!(second.decision, Decision::Skip);
    assert_eq!(second.action, Action::Skip);
    let after: Vec<String> = s.index.entries.iter().map(|e| e.render_hash.clone()).collect();
    assert_eq!(before, after);
}

#[test]
fn formatted_content_is_what_counts() {
    let mut s = session(WriteMode::Normal, false);
    s.record("out/a", &inputs(), "formatted");
    let step =
        decide_for(&s, Some("formatted"), &keys(), Ok("raw".to_owned()), "")
            .unwrap();
    assert_eq!(step.status, FileStatus::Unchanged);
}

#[test]
fn dry_run_decides_alike_but_never_writes() {
    let real = session(WriteMode::Normal, false);
    let dry = session(WriteMode::Normal, true);
    let a = decide_for(&real, None, &keys(), Ok("b".to_owned()), "").unwrap();
    let b = decide_for(&dry, None, &keys(), Ok("b".to_owned()), "").unwrap();
    assert_eq!(a.decision, b.decision);
    assert_eq!(a.status, b.status);
    assert_eq!(a.action, Action::Write);
    assert_eq!(b.action, Action::WouldWrite);
}

#[test]
fn conflicts_are_kept_unless_forced() {
    let mut normal = session(WriteMode::Normal, false);
    normal.record("out/a", &inputs(), "body");
    let step =
        decide_for(&normal, Some("edited"), &keys(), Ok("body".to_owned()), "")
            .unwrap();
    assert_eq!(step.status, FileStatus::Modified);
    assert_eq!(step.decision, Decision::Conflict);
    assert_eq!(step.action, Action::Conflict);
    let mut force = session(WriteMode::Force, false);
    force.record("out/a", &inputs(), "body");
    let step =
        decide_for(&force, Some("edited"), &keys(), Ok("body".to_owned()), "")
            .unwrap();
    assert_eq!(step.decision, Decision::ForceWrite);
    assert_eq!(step.action, Action::Write);
    let step =
        decide_for(&force, Some("body"), &keys(), Ok("body".to_owned()), "")
            .unwrap();
    assert_eq!(step.status, FileStatus::Unchanged);
    assert_eq!(step.decision, Decision::ForceWrite);
}

#[test]
fn write_fails_where_prepare_fails() {
    let s = session(WriteMode::Normal, false);
    match decide_for(&s, None, &vec![], Ok("b".to_owned()), "") {
        Err(Error::InternalBug { .. }) => {}
        other => panic!("unexpected: {:?}", other),
    }
    match decide_for(&s, None, &keys(), Err("boom".to_owned()), "") {
        Err(Error::Rendering(_)) => {}
        other => panic!("unexpected: {:?}", other),
    }
}

fn detected() -> Option<Detected> {
    Some(Detected { url: "https://gitlab.com/acme/theme.git".to_owned(), branch: "main".to_owned() })
}

#[test]
fn path_is_located_in_its_repository() {
    let mut cache = Cache::new();
    let (upstream, rest) =
        git_info_with("/repo/out/x.conf", Some("/repo"), detected(), &mut cache).unwrap();
    assert_eq!(upstream.root, "/repo");
    assert_eq!(upstream.branch, "main");
    assert_eq!(rest, "out/x.conf");
    assert_eq!(cache.entries.len(), 1);
    let (again, rest) = git_info_with("/repo/y", Some("/repo"), None, &mut cache).unwrap();
    assert_eq!(again.url, "https://gitlab.com/acme/theme.git");
    assert_eq!(rest, "y");
    assert_eq!(cache.entries.len(), 1);
}

#[test]
fn path_outside_any_repository_is_not_located() {
    let mut cache = Cache::new();
    assert!(git_info_with("/x/y", None, detected(), &mut cache).is_none());
    assert_eq!(cache.entries.len(), 0);
    assert!(git_info_with("/x/y", Some("/x"), None, &mut cache).is_none());
    assert_eq!(cache.entries.len(), 0);
    assert!(git_info_with("/x/y", Some("/elsewhere"), detected(), &mut cache).is_none());
    assert_eq!(cache.entries.len(), 1);
}

#[test]
fn path_without_canonical_form_is_not_located() {
    let mut cache = Cache::new();
    assert!(resolve_with_autodetect(None, Some("/repo"), detected(), &mut cache).is_none());
    assert_eq!(cache.entries.len(), 0);
    let found = resolve_with_autodetect(Some("/repo/a"), Some("/repo"), detected(), &mut cache);
    assert_eq!(found.unwrap().1, "a");
}

#[test]
fn strip_prefix_is_by_components() {
    assert_eq!(strip_prefix("/repo/a/b", "/repo"), Some("a/b".to_owned()));
    assert_eq!(strip_prefix("/repo2/a", "/repo"), None);
}

#[test]
fn annotation_links_to_the_rendered_file() {
    let mut s = session(WriteMode::Normal, false);
    let special = build_upstream(
        Probe {
            canonical: Some("/repo/out/x.conf".to_owned()),
            root: Some("/repo".to_owned()),
            detected: detected(),
        },
        &mut s,
    );
    assert_eq!(
        special.upstream_file,
        Some("gitlab.com/acme/theme/-/blob/main/out/x.conf".to_owned())
    );
    assert_eq!(
        special.upstream_repo,
        Some("gitlab.com/acme/theme/-/raw/main/out/x.conf".to_owned())
    );
    assert_eq!(s.git_cache.entries.len(), 1);
    let again = build_upstream(
        Probe { canonical: Some("/repo/y".to_owned()), root: Some("/repo".to_owned()), detected: None },
        &mut s,
    );
    assert_eq!(again.upstream_file, Some("gitlab.com/acme/theme/-/blob/main/y".to_owned()));
}

#[test]
fn annotation_degrades_to_nothing() {
    let mut s = session(WriteMode::Normal, false);
    let probes = vec![
        Probe { canonical: None, root: Some("/repo".to_owned()), detected: detected() },
        Probe { canonical: Some("/repo/x".to_owned()), root: None, detected: detected() },
        Probe { canonical: Some("/repo/x".to_owned()), root: Some("/repo".to_owned()), detected: None },
        Probe {
            canonical: Some("/a/x".to_owned()),
            root: Some("/a".to_owned()),
            detected: Some(Detected { url: "nonsense".to_owned(), branch: "main".to_owned() }),
        },
        Probe {
            canonical: Some("/b/x".to_owned()),
            root: Some("/b".to_owned()),
            detected: Some(Detected {
                url: "https://example.org/acme/theme".to_owned(),
                branch: "main".to_owned(),
            }),
        },
    ];
    for probe in probes {
        let special = build_upstream(probe, &mut s);
        assert_eq!(special.upstream_file, None);
        assert_eq!(special.upstream_repo, None);
    }
}

#[test]
fn backslashes_in_the_relative_path_become_slashes() {
    let mut s = session(WriteMode::Normal, false);
    let special = build_upstream(
        Probe {
            canonical: Some("/repo/out\\x.conf".to_owned()),
            root: Some("/repo".to_owned()),
            detected: detected(),
        },
        &mut s,
    );
    assert_eq!(
        special.upstream_file,
        Some("gitlab.com/acme/theme/-/blob/main/out/x.conf".to_owned())
    );
}

#[test]
fn errors_say_what_went_wrong() {
    assert_eq!(Error::template("t".to_owned()).message(), "error processing template: t");
    assert_eq!(Error::rendering("r".to_owned()).message(), "error rendering: r");
    assert_eq!(
        Error::InternalBug { module: "render".to_owned(), reason: "why".to_owned() }.message(),
        "internal error in render: why! this is a bug!"
    );
    assert_eq!(Error::Io("gone".to_owned()).message(), "file system error: gone");
    assert_eq!(Error::Theme("x".to_owned()).message(), "theme error: x");
    assert_eq!(Error::Scheme("x".to_owned()).message(), "scheme error: x");
    assert_eq!(Error::Swatch("x".to_owned()).message(), "palette error: x");
    assert_eq!(Error::Role("x".to_owned()).message(), "role error: x");
    assert_eq!(Error::Name("x".to_owned()).message(), "name validation error: x");
    assert_eq!(Error::Directive("x".to_owned()).message(), "directive error: x");
    assert_eq!(Error::Upstream("x".to_owned()).message(), "upstream error: x");
    assert_eq!(
        Error::Manifest(ManifestError::VersionMismatch { found: 1, expected: 0 }).message(),
        "manifest error: stored under format version 1, expected version 0"
    );
}
