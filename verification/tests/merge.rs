use theymer::config::Provider;
use theymer::extensions::{has_extension, is_jinja, is_toml, Merge};
use theymer::themes::{Extra, Meta, Palette, RawScheme, Role, Roles, Swatch};

fn swatch(name: &str, color: &str) -> Swatch {
    Swatch { name: name.to_owned(), color: color.to_owned() }
}

fn role(name: &str, value: &str) -> Role {
    Role { name: name.to_owned(), value: value.to_owned() }
}

fn names(palette: &Palette) -> Vec<(String, String)> {
    palette.swatches().into_iter().map(|s| (s.name, s.color)).collect()
}

fn pair(name: &str, color: &str) -> (String, String) {
    (name.to_owned(), color.to_owned())
}

fn meta(author: Option<&str>, license: Option<&str>) -> Meta {
    Meta {
        author: author.map(|s| s.to_owned()),
        author_ascii: None,
        license: license.map(|s| s.to_owned()),
        license_ascii: None,
        blurb: None,
        blurb_ascii: None,
    }
}

#[test]
fn option_merge_prefers_self() {
    assert_eq!(Some(1).merge(Some(2)), Some(1));
    assert_eq!(Some(1).merge(None), Some(1));
    assert_eq!(None.merge(Some(2)), Some(2));
    assert_eq!(None::<u8>.merge(None), None);
}

#[test]
fn option_merge_is_idempotent() {
    assert_eq!(Some("x".to_owned()).merge(Some("x".to_owned())), Some("x".to_owned()));
    assert_eq!(None::<String>.merge(None), None);
}

#[test]
fn meta_merges_field_by_field() {
    let merged = meta(Some("me"), None).merge(meta(Some("base"), Some("MIT")));
    assert_eq!(merged.author, Some("me".to_owned()));
    assert_eq!(merged.license, Some("MIT".to_owned()));
    assert_eq!(merged.blurb, None);
}

#[test]
fn extra_list_merges_by_emptiness() {
    let own = Extra { rainbow: vec!["red".to_owned()] };
    let base = Extra { rainbow: vec!["blue".to_owned(), "green".to_owned()] };
    assert_eq!(own.merge(base).rainbow, vec!["red".to_owned()]);
    let empty = Extra { rainbow: vec![] };
    let base = Extra { rainbow: vec!["blue".to_owned(), "green".to_owned()] };
    assert_eq!(empty.merge(base).rainbow, vec!["blue".to_owned(), "green".to_owned()]);
}

#[test]
fn palette_replace_keeps_position() {
    let mut palette = Palette::new();
    assert_eq!(palette.len(), 0);
    palette.replace(swatch("red", "#f00"));
    palette.replace(swatch("green", "#0f0"));
    palette.replace(swatch("red", "#e00"));
    assert_eq!(palette.len(), 2);
    assert_eq!(names(&palette), vec![pair("red", "#e00"), pair("green", "#0f0")]);
    let first = palette.get(0).unwrap();
    assert_eq!(first.name, "red");
    assert_eq!(first.color, "#e00");
    assert!(palette.get(2).is_none());
}

#[test]
fn palette_merge_is_union_by_name() {
    let base = Palette::from_swatches(&vec![
        swatch("red", "#f00"),
        swatch("green", "#0f0"),
        swatch("blue", "#00f"),
    ]);
    let own = Palette::from_swatches(&vec![swatch("pink", "#f0f"), swatch("green", "#0a0")]);
    let merged = own.merge(base);
    assert_eq!(
        names(&merged),
        vec![pair("red", "#f00"), pair("green", "#0a0"), pair("blue", "#00f"), pair("pink", "#f0f")]
    );
}

#[test]
fn palette_merge_is_idempotent() {
    let list = vec![swatch("red", "#f00"), swatch("green", "#0f0")];
    let merged = Palette::from_swatches(&list).merge(Palette::from_swatches(&list));
    assert_eq!(names(&merged), vec![pair("red", "#f00"), pair("green", "#0f0")]);
}

#[test]
fn palette_merge_with_empty() {
    let list = vec![swatch("red", "#f00")];
    let merged = Palette::new().merge(Palette::from_swatches(&list));
    assert_eq!(names(&merged), vec![pair("red", "#f00")]);
    let merged = Palette::from_swatches(&list).merge(Palette::new());
    assert_eq!(names(&merged), vec![pair("red", "#f00")]);
}

#[test]
fn roles_merge_appends_self_after_base() {
    let base = Roles(vec![role("bg", "black"), role("fg", "white")]);
    let own = Roles(vec![role("bg", "navy")]);
    let merged = own.merge(base);
    let got: Vec<(String, String)> = merged.0.into_iter().map(|r| (r.name, r.value)).collect();
    assert_eq!(got, vec![pair("bg", "black"), pair("fg", "white"), pair("bg", "navy")]);
}

#[test]
fn roles_merge_over_itself_doubles() {
    let merged = Roles(vec![role("bg", "black")]).merge(Roles(vec![role("bg", "black")]));
    assert_eq!(merged.0.len(), 2);
    let merged = Roles(vec![]).merge(Roles(vec![]));
    assert_eq!(merged.0.len(), 0);
}

#[test]
fn provider_merge_keeps_own_host() {
    let own = Provider {
        host: "example.org".to_owned(),
        blob_path: None,
        raw_path: Some("own-raw".to_owned()),
        branch: Some("stable".to_owned()),
    };
    let base = Provider {
        host: "base.example.org".to_owned(),
        blob_path: Some("base-blob".to_owned()),
        raw_path: Some("base-raw".to_owned()),
        branch: None,
    };
    let merged = own.merge(base);
    assert_eq!(merged.host, "example.org");
    assert_eq!(merged.blob_path, Some("base-blob".to_owned()));
    assert_eq!(merged.raw_path, Some("own-raw".to_owned()));
    assert_eq!(merged.branch, Some("stable".to_owned()));
}

#[test]
fn raw_scheme_merges_every_part() {
    let own = RawScheme {
        scheme: Some("dark".to_owned()),
        scheme_ascii: None,
        meta: meta(None, Some("GPL")),
        palette: Palette::from_swatches(&vec![swatch("red", "#e00")]),
        roles: Roles(vec![role("fg", "red")]),
        extra: Extra { rainbow: vec![] },
    };
    let base = RawScheme {
        scheme: Some("base".to_owned()),
        scheme_ascii: Some("base".to_owned()),
        meta: meta(Some("author"), Some("MIT")),
        palette: Palette::from_swatches(&vec![swatch("red", "#f00"), swatch("blue", "#00f")]),
        roles: Roles(vec![role("bg", "blue")]),
        extra: Extra { rainbow: vec!["red".to_owned()] },
    };
    let merged = own.merge(base);
    assert_eq!(merged.scheme, Some("dark".to_owned()));
    assert_eq!(merged.scheme_ascii, Some("base".to_owned()));
    assert_eq!(merged.meta.author, Some("author".to_owned()));
    assert_eq!(merged.meta.license, Some("GPL".to_owned()));
    assert_eq!(names(&merged.palette), vec![pair("red", "#e00"), pair("blue", "#00f")]);
    assert_eq!(merged.roles.0.len(), 2);
    assert_eq!(merged.roles.0[0].name, "bg");
    assert_eq!(merged.roles.0[1].name, "fg");
    assert_eq!(merged.extra.rainbow, vec!["red".to_owned()]);
}

#[test]
fn extensions_ignore_ascii_case() {
    assert!(is_toml("themes/forest/base.toml"));
    assert!(is_toml("base.TOML"));
    assert!(!is_toml("base.toml.bak"));
    assert!(!is_toml("toml"));
    assert!(!is_toml(".toml"));
    assert!(is_toml("a/.hidden.toml"));
    assert!(is_jinja("x.conf.jinja"));
    assert!(is_jinja("x.conf.Jinja"));
    assert!(!is_jinja("x.conf"));
    assert!(!is_jinja("dir.jinja/"));
    assert!(has_extension("archive.tar.gz", "gz"));
    assert!(!has_extension("archive.tar.gz", "tar"));
    assert!(has_extension("trailing.", ""));
    assert!(!has_extension("none", ""));
}

#[test]
fn raw_scheme_resolves_to_a_scheme() {
    let raw = RawScheme {
        scheme: None,
        scheme_ascii: None,
        meta: meta(None, None),
        palette: Palette::from_swatches(&vec![swatch("red", "#f00"), swatch("green", "#0f0")]),
        roles: Roles(vec![]),
        extra: Extra { rainbow: vec![] },
    };
    let scheme = raw.into_scheme("dark");
    assert_eq!(scheme.name, "dark");
    assert_eq!(scheme.name_ascii, "dark");
    assert_eq!(scheme.palette.len(), 2);
    assert_eq!(scheme.palette[0].name, "red");
    assert_eq!(scheme.palette[1].color, "#0f0");
    let raw = RawScheme {
        scheme: Some("Dunkel".to_owned()),
        scheme_ascii: Some("dunkel".to_owned()),
        meta: meta(None, None),
        palette: Palette::new(),
        roles: Roles(vec![]),
        extra: Extra { rainbow: vec![] },
    };
    let scheme = raw.into_scheme("dark");
    assert_eq!(scheme.name, "Dunkel");
    assert_eq!(scheme.name_ascii, "dunkel");
}
