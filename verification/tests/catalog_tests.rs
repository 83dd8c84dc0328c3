use slm_aim::catalog::build_catalog;
use slm_aim::schema::{APattern, AvailablePatterns};
use slm_aim::text::{decimal_string, file_stem, split, text_lt};

fn strings(items: &[&str]) -> Vec<String> {
    items.iter().map(|s| s.to_string()).collect()
}

fn values(family: &APattern) -> Vec<Vec<String>> {
    family.property_values.iter().map(|p| p.values.clone()).collect()
}

#[test]
fn gauss_family_keeps_first_seen_order() {
    let stems = strings(&["gauss_size_10.png", "gauss_size_20.png", "gauss_shape_round.png"]);
    let catalog = build_catalog(&stems, &Vec::new());
    assert_eq!(catalog.pattern_names, strings(&["gauss"]));
    assert_eq!(catalog.patterns.len(), 1);
    assert_eq!(catalog.patterns[0].properties, strings(&["size", "shape"]));
    assert_eq!(
        values(&catalog.patterns[0]),
        vec![strings(&["10", "20"]), strings(&["round"])]
    );
}

#[test]
fn names_are_sorted_and_values_repeat() {
    let stems = strings(&["ring_r_5.png", "airy", "gauss_size_10.bmp", "ring_r_5.bmp", "Zed_a_b_c_d.png"]);
    let customs = strings(&["mine.png", "other.bmp"]);
    let catalog = build_catalog(&stems, &customs);
    assert_eq!(catalog.pattern_names, strings(&["Zed", "airy", "custom", "gauss", "ring"]));
    assert_eq!(catalog.patterns[0].properties, strings(&["a", "c"]));
    assert_eq!(values(&catalog.patterns[0]), vec![strings(&["b"]), strings(&["d"])]);
    assert!(catalog.patterns[1].properties.is_empty());
    assert_eq!(catalog.patterns[2].properties, strings(&["filename"]));
    assert_eq!(values(&catalog.patterns[2]), vec![strings(&["mine.png", "other.bmp"])]);
    assert_eq!(values(&catalog.patterns[4]), vec![strings(&["5", "5"])]);
}

#[test]
fn property_without_value_skips_the_file() {
    let stems = strings(&["gauss_size.png", "gauss_size_10_shape.png", "bessel_order_2.png"]);
    let catalog = build_catalog(&stems, &Vec::new());
    assert_eq!(catalog.pattern_names, strings(&["bessel"]));
    assert_eq!(catalog.patterns[0].properties, strings(&["order"]));
}

#[test]
fn empty_directory_gives_empty_catalog() {
    let catalog = build_catalog(&Vec::new(), &Vec::new());
    assert_eq!(catalog, AvailablePatterns { pattern_names: vec![], patterns: vec![] });
}

#[test]
fn building_twice_gives_the_same_catalog() {
    let stems = strings(&["b_x_1.png", "a_y_2.png", "b_x_3.png"]);
    let customs = strings(&["u.png"]);
    assert_eq!(build_catalog(&stems, &customs), build_catalog(&stems, &customs));
}

#[test]
fn split_keeps_empty_pieces() {
    assert_eq!(split("a_b_c", '_'), strings(&["a", "b", "c"]));
    assert_eq!(split("", '_'), strings(&[""]));
    assert_eq!(split("_a__", '_'), strings(&["", "a", "", ""]));
    assert_eq!(split("é_ü", '_'), strings(&["é", "ü"]));
}

#[test]
fn decimal_numerals() {
    assert_eq!(decimal_string(0), "0");
    assert_eq!(decimal_string(7), "7");
    assert_eq!(decimal_string(1883), "1883");
    assert_eq!(decimal_string(u64::MAX), "18446744073709551615");
}

#[test]
fn lexical_order() {
    assert!(text_lt("a", "b"));
    assert!(text_lt("a", "ab"));
    assert!(text_lt("", "a"));
    assert!(text_lt("Z", "a"));
    assert!(!text_lt("a", "a"));
    assert!(!text_lt("b", "a"));
    assert!(!text_lt("ab", "a"));
    assert!(!text_lt("", ""));
}

#[test]
fn stem_stands_in_front_of_the_last_dot() {
    assert_eq!(file_stem("gauss_size_10.png"), "gauss_size_10");
    assert_eq!(file_stem("gauss_size_1.5.png"), "gauss_size_1.5");
    assert_eq!(file_stem("plain"), "plain");
    assert_eq!(file_stem(".hidden"), ".hidden");
    assert_eq!(file_stem(".hidden.png"), ".hidden");
    assert_eq!(file_stem("dot."), "dot");
    assert_eq!(file_stem(""), "");
}

#[test]
fn stems_decide_the_family() {
    let catalog = build_catalog(&strings(&["gauss_size_1.5.png", ".x_a_b"]), &Vec::new());
    assert_eq!(catalog.pattern_names, strings(&[".x", "gauss"]));
    assert_eq!(values(&catalog.patterns[1]), vec![strings(&["1.5"])]);
}
