use vimming::marker::{analyze_file, is_marker_name, ConfigurationFile, Warning};

#[test]
fn marker_id_and_name() {
    let file = analyze_file("id:5\nname:foo");
    assert_eq!(file.id, Some(5));
    assert_eq!(file.name, Some(String::from("foo")));
    assert!(file.warnings.is_empty());
    assert!(!file.empty());
}

#[test]
fn marker_later_id_overrides() {
    let file = analyze_file("id:5\nid:7");
    assert_eq!(file.id, Some(7));
    assert_eq!(file.name, None);
    assert_eq!(file.warnings, vec![Warning::Overridden { previous: 5, id: 7, line: 2 }]);
}

#[test]
fn marker_empty_text_sets_nothing() {
    let file = analyze_file("");
    assert_eq!(file, ConfigurationFile { id: None, name: None, warnings: vec![] });
    assert!(file.empty());
}

#[test]
fn marker_ignores_other_lines() {
    let file = analyze_file("# launch settings\n\nmy id:4\n name:indented\n:id:5\nNAME x\n");
    assert!(file.empty());
    assert!(file.warnings.is_empty());
}

#[test]
fn marker_prefix_needs_no_separator() {
    let file = analyze_file("identity:4\nnamespace x");
    assert_eq!(file.id, None);
    assert_eq!(file.name, Some(String::from("space x")));
    assert_eq!(file.warnings, vec![Warning::Malformed { line: 1 }]);
    assert_eq!(analyze_file("id5").id, Some(5));
    assert_eq!(analyze_file("namefoo").name, Some(String::from("foo")));
}

#[test]
fn marker_separator_is_a_colon_or_white_space() {
    for text in ["id:5", "id: 5", "id :5", "id : 5", "id 5", "id\t5", "id   :   5   "] {
        let file = analyze_file(text);
        assert_eq!(file.id, Some(5), "{text:?}");
        assert!(file.warnings.is_empty(), "{text:?}");
    }
    for text in ["name:foo", "name: foo", "name :foo", "name foo", "name\tfoo "] {
        assert_eq!(analyze_file(text).name, Some(String::from("foo")), "{text:?}");
    }
}

#[test]
fn marker_only_one_colon_separates() {
    assert_eq!(analyze_file("name::foo").name, Some(String::from(":foo")));
    assert_eq!(analyze_file("name: : foo").name, Some(String::from(": foo")));
    let file = analyze_file("id::5");
    assert_eq!(file.id, None);
    assert_eq!(file.warnings, vec![Warning::Malformed { line: 1 }]);
}

#[test]
fn marker_values_are_trimmed() {
    let file = analyze_file("id: \t 42 \r\nname:   my editor  \r\n");
    assert_eq!(file.id, Some(42));
    assert_eq!(file.name, Some(String::from("my editor")));
    assert!(file.warnings.is_empty());
}

#[test]
fn marker_trims_unicode_white_space() {
    let file = analyze_file("name:\u{a0}\u{2003}caf\u{e9}\u{3000}\u{85}");
    assert_eq!(file.name, Some(String::from("caf\u{e9}")));
}

#[test]
fn marker_keeps_inner_white_space_and_colons() {
    let file = analyze_file("name:a: b\tc");
    assert_eq!(file.name, Some(String::from("a: b\tc")));
}

#[test]
fn marker_empty_name_is_a_name() {
    let file = analyze_file("name:   ");
    assert_eq!(file.name, Some(String::new()));
    assert!(!file.empty());
}

#[test]
fn marker_last_name_wins_without_warning() {
    let file = analyze_file("name:first\nname:second");
    assert_eq!(file.name, Some(String::from("second")));
    assert!(file.warnings.is_empty());
}

#[test]
fn marker_malformed_id_is_ignored_with_a_warning() {
    let file = analyze_file("id:5\nid:seven\nname:x");
    assert_eq!(file.id, Some(5));
    assert_eq!(file.name, Some(String::from("x")));
    assert_eq!(file.warnings, vec![Warning::Malformed { line: 2 }]);
}

#[test]
fn marker_malformed_forms() {
    for text in
        ["id", "id:", "id:   ", "id:+", "id:-", "id:1 2", "id:1.5", "id:0x10", "id:--1", "id:1_000", "id:\u{661}"]
    {
        let file = analyze_file(text);
        assert_eq!(file.id, None, "{text:?}");
        assert_eq!(file.warnings, vec![Warning::Malformed { line: 1 }], "{text:?}");
    }
}

#[test]
fn marker_signs_and_leading_zeros() {
    assert_eq!(analyze_file("id:+12").id, Some(12));
    assert_eq!(analyze_file("id:-12").id, Some(-12));
    assert_eq!(analyze_file("id:000000000000000000007").id, Some(7));
    assert_eq!(analyze_file("id:-0").id, Some(0));
}

#[test]
fn marker_range_of_identifiers() {
    assert_eq!(analyze_file("id:2147483647").id, Some(i32::MAX));
    assert_eq!(analyze_file("id:-2147483648").id, Some(i32::MIN));
    let over = analyze_file("id:2147483648");
    assert_eq!(over.id, None);
    assert_eq!(over.warnings, vec![Warning::Malformed { line: 1 }]);
    let under = analyze_file("id:-2147483649");
    assert_eq!(under.id, None);
    assert_eq!(under.warnings, vec![Warning::Malformed { line: 1 }]);
    let huge = analyze_file("id:99999999999999999999999999999999999999");
    assert_eq!(huge.id, None);
    assert_eq!(huge.warnings, vec![Warning::Malformed { line: 1 }]);
}

#[test]
fn marker_agrees_with_std_on_integers() {
    for text in [
        "5", "+5", "-5", "", "+", "-", "05", "2147483647", "2147483648", "-2147483648",
        "-2147483649", "12a", "a12", " 12", "1 2", "\u{ff14}",
    ] {
        let file = analyze_file(&format!("id:{text}"));
        assert_eq!(file.id, text.trim().parse::<i32>().ok(), "{text:?}");
    }
}

#[test]
fn marker_lines_are_numbered_from_one() {
    let file = analyze_file("\n\nid:x\nid:1\n\nid:2\nid:y\nid:3");
    assert_eq!(file.id, Some(3));
    assert_eq!(
        file.warnings,
        vec![
            Warning::Malformed { line: 3 },
            Warning::Overridden { previous: 1, id: 2, line: 6 },
            Warning::Malformed { line: 7 },
            Warning::Overridden { previous: 2, id: 3, line: 8 },
        ]
    );
}

#[test]
fn marker_override_by_the_same_id_warns() {
    let file = analyze_file("id:5\nid:5");
    assert_eq!(file.id, Some(5));
    assert_eq!(file.warnings, vec![Warning::Overridden { previous: 5, id: 5, line: 2 }]);
}

#[test]
fn marker_prefix_is_case_sensitive() {
    assert!(analyze_file("ID:5").empty());
    assert!(analyze_file("Id 5").empty());
    assert!(analyze_file("Name:x").empty());
    assert!(analyze_file("NAME x").empty());
}

#[test]
fn marker_agrees_with_prefix_stripping_of_std() {
    for line in ["id 12", "id12", "id\t-3 ", "id", "id x", "name a b ", "name", "names", "idname 4"] {
        let file = analyze_file(line);
        let id = line.strip_prefix("id").and_then(|rest| rest.trim().parse::<i32>().ok());
        let name = line.strip_prefix("name").map(|rest| rest.trim().to_string());
        assert_eq!(file.id, id, "{line:?}");
        assert_eq!(file.name, name, "{line:?}");
    }
}

#[test]
fn marker_name_order_does_not_matter() {
    let file = analyze_file("name:foo\nid:5");
    assert_eq!(file.id, Some(5));
    assert_eq!(file.name, Some(String::from("foo")));
}

#[test]
fn marker_file_names() {
    assert!(is_marker_name("project.envcfg"));
    assert!(is_marker_name("a.envcfg"));
    assert!(is_marker_name("a.b.envcfg"));
    assert!(is_marker_name("..envcfg"));
    assert!(is_marker_name("\u{e9}.envcfg"));
    assert!(!is_marker_name(".envcfg"));
    assert!(!is_marker_name("envcfg"));
    assert!(!is_marker_name("project.envcfg.bak"));
    assert!(!is_marker_name("project.ENVCFG"));
    assert!(!is_marker_name("projectenvcfg"));
    assert!(!is_marker_name(""));
}

#[test]
fn marker_file_names_agree_with_std_paths() {
    for name in ["x.envcfg", ".envcfg", "envcfg", "a.b.envcfg", "x.envcfg.", "x.envcf", "..envcfg", "x."] {
        let expected = std::path::Path::new(name).extension().map_or(false, |e| e == "envcfg");
        assert_eq!(is_marker_name(name), expected, "{name:?}");
    }
}
