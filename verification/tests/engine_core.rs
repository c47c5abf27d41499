//! Tests of the text utilities, the license resolver and the metadata codec.

use sliderule::licenses::{amalgamate_licenses, resolve_license_pair, resolve_licenses, LicensePair};
use sliderule::metadata::{
    extract_manifest_license, parse_descriptor, render_bom, render_descriptor, render_manifest,
    render_readme, update_manifest_license, Descriptor,
};
use sliderule::text::{munge_component_description, replace_first};

fn pair(s: &str, d: &str) -> LicensePair {
    LicensePair {
        source: String::from(s),
        documentation: String::from(d),
    }
}

#[test]
fn effective_license_of_a_single_component() {
    let chain = vec![pair("MIT", "CC-BY-4.0")];
    assert_eq!(amalgamate_licenses(&chain), "(MIT AND CC-BY-4.0)");
}

#[test]
fn effective_license_inherited_by_child_collapses_duplicates() {
    // A child created with no explicit licenses declares its parent's pair;
    // the effective license keeps each license once.
    let chain = vec![pair("A", "B"), pair("A", "B")];
    assert_eq!(amalgamate_licenses(&chain), "(A AND B)");
}

#[test]
fn effective_license_of_grandchild_with_own_licenses() {
    let chain = vec![pair("A", "B"), pair("A", "B"), pair("C", "D")];
    assert_eq!(amalgamate_licenses(&chain), "(A AND B AND C AND D)");
}

#[test]
fn effective_license_deduplicates_across_distance() {
    let chain = vec![pair("A", "B"), pair("C", "A")];
    assert_eq!(amalgamate_licenses(&chain), "(A AND B AND C)");
}

#[test]
fn effective_license_of_empty_chain() {
    let chain: Vec<LicensePair> = vec![];
    assert_eq!(amalgamate_licenses(&chain), "()");
}

#[test]
fn resolve_licenses_fall_back_to_global_defaults() {
    let r = resolve_license_pair(&String::new(), &String::new(), None);
    assert_eq!(r.source, "Unlicense");
    assert_eq!(r.documentation, "CC-BY-4.0");
}

#[test]
fn resolve_licenses_inherit_from_parent() {
    let p = pair("MIT", "CC-BY-4.0");
    let r = resolve_license_pair(&String::new(), &String::new(), Some(&p));
    assert_eq!(r.source, "MIT");
    assert_eq!(r.documentation, "CC-BY-4.0");
}

#[test]
fn resolve_licenses_requested_wins_over_parent() {
    let p = pair("MIT", "CC-BY-4.0");
    let r = resolve_license_pair(&String::from("Apache-2.0"), &String::new(), Some(&p));
    assert_eq!(r.source, "Apache-2.0");
    assert_eq!(r.documentation, "CC-BY-4.0");
}

#[test]
fn resolve_licenses_reports_the_effective_string() {
    // grandchild with its own licenses under a root and a parent that share
    // a pair: the chain keeps each license once, in root-to-leaf order
    let ancestors = vec![pair("A", "B"), pair("A", "B")];
    let parent = pair("A", "B");
    let (declared, effective) = resolve_licenses(
        &String::from("C"),
        &String::from("D"),
        Some(&parent),
        &ancestors,
    );
    assert_eq!(declared.source, "C");
    assert_eq!(declared.documentation, "D");
    assert_eq!(effective, "(A AND B AND C AND D)");
}

#[test]
fn munge_lowercases_and_collapses_separators() {
    assert_eq!(munge_component_description("My Cool Component!"), "my_cool_component");
}

#[test]
fn munge_drops_leading_and_trailing_separators() {
    assert_eq!(munge_component_description("  --Blinky 5:  "), "blinky_5");
}

#[test]
fn munge_keeps_plain_names() {
    assert_eq!(munge_component_description("blink_firmware"), "blink_firmware");
}

#[test]
fn descriptor_renders_on_fixed_lines() {
    let d = Descriptor {
        source_license: String::from("TestSourceLicense"),
        documentation_license: String::from("TestDocLicense"),
        is_top_level: true,
    };
    let text = render_descriptor(&d);
    let lines: Vec<&str> = text.lines().collect();
    assert_eq!(lines[0], "source_license: TestSourceLicense,");
    assert_eq!(lines[1], "documentation_license: TestDocLicense");
    assert_eq!(lines[2], "is_top_level: true");
}

#[test]
fn descriptor_round_trips() {
    let d = Descriptor {
        source_license: String::from("NotASourceLicense"),
        documentation_license: String::from("NotADocLicense"),
        is_top_level: false,
    };
    let text = render_descriptor(&d);
    let back = parse_descriptor(&text).expect("rendered descriptor must parse");
    assert_eq!(back.source_license, "NotASourceLicense");
    assert_eq!(back.documentation_license, "NotADocLicense");
    assert!(!back.is_top_level);
}

#[test]
fn descriptor_rejects_malformed_text() {
    assert!(parse_descriptor("").is_none());
    assert!(parse_descriptor("source_license: MIT,\n").is_none());
    assert!(parse_descriptor("nonsense\nmore nonsense\n").is_none());
    assert!(
        parse_descriptor("source_license: MIT,\ndocumentation_license: CC0-1.0\n").is_none(),
        "a descriptor without the top-level flag is rejected"
    );
}

#[test]
fn descriptor_rejects_trailing_text() {
    let d = Descriptor {
        source_license: String::from("MIT"),
        documentation_license: String::from("CC0-1.0"),
        is_top_level: true,
    };
    let mut text = render_descriptor(&d);
    text.push_str("extra\n");
    assert!(parse_descriptor(&text).is_none());
}

#[test]
fn manifest_layout_matches_expected_lines() {
    let m = render_manifest("test_top", "(TestSourceLicense AND TestDocLicense)");
    let lines: Vec<&str> = m.lines().collect();
    assert_eq!(lines[1].trim(), "\"name\": \"test_top\",");
    assert_eq!(
        lines[4].trim(),
        "\"license\": \"(TestSourceLicense AND TestDocLicense)\","
    );
}

#[test]
fn manifest_license_field_extracts() {
    let m = render_manifest("widget", "(MIT AND CC-BY-4.0)");
    assert_eq!(
        extract_manifest_license(&m).expect("license field present"),
        "(MIT AND CC-BY-4.0)"
    );
}

#[test]
fn manifest_license_field_updates_in_place() {
    let m = render_manifest("widget", "(MIT AND CC-BY-4.0)");
    let m2 = update_manifest_license(&m, "(Apache-2.0 AND CC0-1.0)").expect("field present");
    assert_eq!(
        extract_manifest_license(&m2).expect("license field present"),
        "(Apache-2.0 AND CC0-1.0)"
    );
    // only the license value changed
    let expected = render_manifest("widget", "(Apache-2.0 AND CC0-1.0)");
    assert_eq!(m2, expected);
}

#[test]
fn manifest_without_license_field_is_refused() {
    assert!(extract_manifest_license("{}").is_none());
    assert!(update_manifest_license("{}", "(MIT)").is_none());
}

#[test]
fn readme_template_lines() {
    let r = render_readme("test_top");
    let lines: Vec<&str> = r.lines().collect();
    assert_eq!(lines[0], "# test_top");
    assert_eq!(lines[1], "New Sliderule component.");
}

#[test]
fn bom_template_lines() {
    let b = render_bom("test_top");
    let lines: Vec<&str> = b.lines().collect();
    assert_eq!(lines[0], "# Bill of Materials Data for test_top");
    assert_eq!(lines[12].trim(), "-component_1");
}

#[test]
fn replace_first_replaces_only_the_first_occurrence() {
    assert_eq!(replace_first("ababab", "ab", "x"), "xabab");
    assert_eq!(replace_first("nothing here", "zz", "x"), "nothing here");
}
