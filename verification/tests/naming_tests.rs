use porovnavac::naming::{build_display_name, build_file_prefix, normalize_edition, slugify};

#[test]
fn prefix_of_a_lite_pack() {
    assert_eq!(build_file_prefix("My Pack", "Lite", "1.2.3"), "my-pack-1.2.3-lite");
}

#[test]
fn display_name_of_the_full_edition_has_no_edition() {
    assert_eq!(build_display_name("My Pack", "Full", "1.2.3"), "My Pack 1.2.3");
    assert_eq!(build_display_name("My Pack", "normal", "1.2.3"), "My Pack 1.2.3");
    assert_eq!(build_display_name("My Pack", "", "1.2.3"), "My Pack 1.2.3");
}

#[test]
fn display_name_of_another_edition_names_it() {
    assert_eq!(build_display_name("My Pack", "Lite", "1.2.3"), "My Pack Lite 1.2.3");
    assert_eq!(build_display_name("My Pack", "minimal", "1.2.3"), "My Pack Lite 1.2.3");
    assert_eq!(build_display_name("My Pack", "Ultra", "1.2.3"), "My Pack Ultra 1.2.3");
}

#[test]
fn display_name_is_trimmed() {
    assert_eq!(build_display_name("  My Pack ", " full ", " 1.0 "), "My Pack 1.0");
    assert_eq!(build_display_name("My Pack", "Full", ""), "My Pack");
    assert_eq!(build_display_name("My Pack", "Lite", "  "), "My Pack Lite");
}

#[test]
fn display_name_without_base_uses_the_default() {
    assert_eq!(build_display_name("", "Full", "2.0"), "Agonia 2.0");
    assert_eq!(build_display_name("   ", "light", "2.0"), "Agonia Lite 2.0");
}

#[test]
fn editions_are_normalized() {
    assert_eq!(normalize_edition("full"), "Full");
    assert_eq!(normalize_edition("NORMAL"), "Full");
    assert_eq!(normalize_edition(" Default "), "Full");
    assert_eq!(normalize_edition(""), "Full");
    assert_eq!(normalize_edition("   "), "Full");
    assert_eq!(normalize_edition("lite"), "Lite");
    assert_eq!(normalize_edition("Light"), "Lite");
    assert_eq!(normalize_edition("MINIMAL"), "Lite");
}

#[test]
fn an_unknown_edition_passes_as_it_is() {
    assert_eq!(normalize_edition("Ultra"), "Ultra");
    assert_eq!(normalize_edition(" Ultra "), " Ultra ");
    assert_eq!(normalize_edition("fuller"), "fuller");
}

#[test]
fn slugs() {
    assert_eq!(slugify("My Pack"), "my-pack");
    assert_eq!(slugify("  My   Fancy\tPack  "), "my-fancy-pack");
    assert_eq!(slugify("Pack (v2)!"), "pack-v2");
    assert_eq!(slugify("a - b"), "a-b");
    assert_eq!(slugify("a--b---c"), "a-b-c");
    assert_eq!(slugify("1.2.3_beta"), "1.2.3_beta");
    assert_eq!(slugify("Příliš žluťoučký"), "pli-luouk");
}

#[test]
fn a_slug_of_nothing_is_pack() {
    assert_eq!(slugify(""), "pack");
    assert_eq!(slugify("   "), "pack");
    assert_eq!(slugify("!!!"), "pack");
}

#[test]
fn prefix_parts() {
    assert_eq!(build_file_prefix("Agonia", "Full", "26.1.0"), "agonia-26.1.0-full");
    assert_eq!(build_file_prefix("Agonia", "default", " "), "agonia-unknown-full");
    assert_eq!(build_file_prefix("", "Lite", "1"), "pack-1-lite");
    assert_eq!(build_file_prefix("A", "Special Edition", "v 1"), "a-v-1-special-edition");
    assert_eq!(build_file_prefix("A", "Full", "!"), "a-pack-full");
}
