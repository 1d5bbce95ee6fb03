use workbench::theme::{all_token_paths, token_mapping, ThemeError};

#[test]
fn all_token_paths_covers_mapping() {
    let paths = all_token_paths();
    assert_eq!(
        paths.len(),
        token_mapping().len(),
        "all_token_paths count should match the token mapping"
    );
}

#[test]
fn theme_error_display() {
    let err = ThemeError::NotFound("Foo".into());
    assert_eq!(err.to_string(), "theme not found: 'Foo'");

    let err = ThemeError::UnknownTokenPath("bad.path".into());
    assert_eq!(err.to_string(), "unknown token path: 'bad.path'");

    let err = ThemeError::InvalidColor("xyz".into());
    assert_eq!(err.to_string(), "invalid hex color: 'xyz'");
}

#[test]
fn token_mapping_table_covers_all_categories() {
    let categories: Vec<String> = token_mapping()
        .iter()
        .map(|(internal, _)| internal.split('.').next().unwrap().to_string())
        .collect();
    for expected in &[
        "border",
        "surface",
        "element",
        "ghost_element",
        "text",
        "icon",
        "status",
        "tab",
        "panel",
        "chrome",
        "scrollbar",
        "player",
        "link",
    ] {
        assert!(
            categories.iter().any(|c| c == expected),
            "Token mapping missing category: {expected}"
        );
    }
}

#[test]
fn token_paths_follow_mapping_order() {
    let paths = all_token_paths();
    let mapping = token_mapping();
    for (i, p) in paths.iter().enumerate() {
        assert_eq!(*p, mapping[i].0);
    }
    assert_eq!(paths[0], "border.default");
}
