use luau_manifest::{parse_target_version, ConfigError, Manifest, ManifestDocument, TargetVersion};

fn empty_document() -> ManifestDocument {
    ManifestDocument {
        output: None,
        input: None,
        file_extension: None,
        target_version: None,
        minify: None,
        modifiers: Vec::new(),
        globals: Vec::new(),
    }
}

fn pairs(m: &Manifest) -> Vec<(String, bool)> {
    m.modifiers().iter().map(|(k, v)| (k.clone(), *v)).collect()
}

fn full_document() -> ManifestDocument {
    ManifestDocument {
        output: Some("out".to_owned()),
        input: Some("src".to_owned()),
        file_extension: Some("luau".to_owned()),
        target_version: Some("luau".to_owned()),
        minify: Some(false),
        modifiers: vec![("remove_types".to_owned(), true), ("inline".to_owned(), false)],
        globals: vec![("game".to_owned(), true)],
    }
}

#[test]
fn default_manifest_fields() {
    let m = Manifest::default();
    assert_eq!(m.extension(), &Some("lua".to_owned()));
    assert_eq!(*m.target_version(), TargetVersion::Lua53);
    assert!(m.minify);
    assert!(m.modifiers().is_empty());
    let d = m.to_document();
    assert!(d.globals.is_empty());
    assert_eq!(d.input, None);
    assert_eq!(d.output, None);
}

#[test]
fn empty_document_loads_as_default() {
    let m = Manifest::from_document(&empty_document()).unwrap();
    let d = Manifest::default();
    assert_eq!(m.extension(), d.extension());
    assert_eq!(m.target_version(), d.target_version());
    assert_eq!(m.minify, d.minify);
    assert!(m.modifiers().is_empty());
    assert!(m.to_document().globals.is_empty());
    assert_eq!(m.require_input(None), Err(ConfigError::MissingField("input".to_owned())));
}

#[test]
fn override_wins_over_stored_input() {
    let m = Manifest::from_document(&full_document()).unwrap();
    assert_eq!(m.require_input(Some("other".to_owned())), Ok("other".to_owned()));
    assert_eq!(m.require_input(None), Ok("src".to_owned()));
    assert_eq!(m.require_output(Some("dist".to_owned())), Ok("dist".to_owned()));
    assert_eq!(m.require_output(None), Ok("out".to_owned()));
}

#[test]
fn override_wins_when_nothing_is_stored() {
    let m = Manifest::default();
    assert_eq!(m.require_input(Some("a.lua".to_owned())), Ok("a.lua".to_owned()));
    assert_eq!(m.require_output(Some("b.lua".to_owned())), Ok("b.lua".to_owned()));
}

#[test]
fn missing_input_and_output_are_reported() {
    let m = Manifest::default();
    assert_eq!(m.require_input(None), Err(ConfigError::MissingField("input".to_owned())));
    assert_eq!(m.require_output(None), Err(ConfigError::MissingField("output".to_owned())));
}

#[test]
fn inserting_a_modifier_twice_keeps_one_entry() {
    let mut m = Manifest::default();
    m.insert_modifier("a".to_owned(), true);
    m.insert_modifier("b".to_owned(), true);
    m.insert_modifier("a".to_owned(), false);
    assert_eq!(m.modifiers().len(), 2);
    assert_eq!(m.modifiers().get("a"), Some(&false));
    assert_eq!(pairs(&m), vec![("a".to_owned(), false), ("b".to_owned(), true)]);
}

#[test]
fn repeated_document_names_keep_first_place_and_last_flag() {
    let mut doc = empty_document();
    doc.modifiers = vec![
        ("x".to_owned(), true),
        ("y".to_owned(), false),
        ("x".to_owned(), false),
    ];
    let m = Manifest::from_document(&doc).unwrap();
    assert_eq!(pairs(&m), vec![("x".to_owned(), false), ("y".to_owned(), false)]);
}

#[test]
fn minify_false_lua54_document() {
    let mut doc = empty_document();
    doc.minify = Some(false);
    doc.target_version = Some("lua54".to_owned());
    let m = Manifest::from_document(&doc).unwrap();
    assert!(!m.minify);
    assert_eq!(*m.target_version(), TargetVersion::Lua54);
    assert_eq!(m.extension(), &Some("lua".to_owned()));
    assert!(m.modifiers().is_empty());
    let stored = m.to_document();
    assert!(stored.globals.is_empty());
    assert_eq!(stored.input, None);
    assert_eq!(stored.output, None);
    assert_eq!(m.require_output(None), Err(ConfigError::MissingField("output".to_owned())));
}

#[test]
fn store_then_load_keeps_every_field() {
    let m = Manifest::from_document(&full_document()).unwrap();
    let d = m.to_document();
    assert_eq!(d.target_version, Some("luau".to_owned()));
    assert_eq!(d.minify, Some(false));
    assert_eq!(
        d.modifiers,
        vec![("remove_types".to_owned(), true), ("inline".to_owned(), false)]
    );
    let back = Manifest::from_document(&d).unwrap();
    assert_eq!(back.extension(), &Some("luau".to_owned()));
    assert_eq!(*back.target_version(), TargetVersion::Luau);
    assert!(!back.minify);
    assert_eq!(pairs(&back), pairs(&m));
    let again = back.to_document();
    assert_eq!(again.output, Some("out".to_owned()));
    assert_eq!(again.input, Some("src".to_owned()));
    assert_eq!(again.file_extension, Some("luau".to_owned()));
    assert_eq!(again.globals, vec![("game".to_owned(), true)]);
}

#[test]
fn unknown_target_version_is_a_format_error() {
    let mut doc = empty_document();
    doc.target_version = Some("lua99".to_owned());
    match Manifest::from_document(&doc) {
        Err(e) => assert_eq!(
            e,
            ConfigError::Format("unknown target version: lua99".to_owned())
        ),
        Ok(_) => panic!("an unknown dialect was accepted"),
    }
}

#[test]
fn target_version_names() {
    assert_eq!(TargetVersion::Lua53.name(), "lua53");
    assert_eq!(TargetVersion::Lua54.name(), "lua54");
    assert_eq!(TargetVersion::Luau.name(), "luau");
    assert_eq!(parse_target_version(&"lua53".to_owned()), Some(TargetVersion::Lua53));
    assert_eq!(parse_target_version(&"luau".to_owned()), Some(TargetVersion::Luau));
    assert_eq!(parse_target_version(&"LUA54".to_owned()), None);
    assert_eq!(TargetVersion::default(), TargetVersion::Lua53);
}
