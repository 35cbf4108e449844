use cover_art::sanitize::sanitize_filename;
use cover_art::sanitize::trim_str;

#[test]
fn slash_becomes_underscore() {
    assert_eq!(sanitize_filename("A/B"), "A_B");
}

#[test]
fn every_forbidden_character_is_replaced() {
    assert_eq!(
        sanitize_filename("a/b\\c:d*e?f\"g<h>i|j"),
        "a_b_c_d_e_f_g_h_i_j"
    );
}

#[test]
fn surrounding_whitespace_is_trimmed() {
    assert_eq!(sanitize_filename("  Discovery  "), "Discovery");
    assert_eq!(sanitize_filename("\tAlive 2007\n"), "Alive 2007");
}

#[test]
fn replacement_happens_before_trimming() {
    // the slash becomes '_' first, so it survives the trim
    assert_eq!(sanitize_filename(" / "), "_");
}

#[test]
fn sanitizing_twice_changes_nothing() {
    let inputs = ["A/B", "  x : y  ", "plain", " \\*?\" ", ""];
    for input in inputs {
        let once = sanitize_filename(input);
        let twice = sanitize_filename(&once);
        assert_eq!(twice, once);
    }
}

#[test]
fn output_never_holds_a_forbidden_character() {
    let inputs = ["a/b\\c:d*e?f\"g<h>i|j", "///", "no bad chars", "<>|"];
    for input in inputs {
        let out = sanitize_filename(input);
        for c in out.chars() {
            assert!(!matches!(
                c,
                '/' | '\\' | ':' | '*' | '?' | '"' | '<' | '>' | '|'
            ));
        }
    }
}

#[test]
fn trim_str_trims_both_ends_only() {
    assert_eq!(trim_str("  Daft Punk\n"), "Daft Punk");
    assert_eq!(trim_str("inner  space"), "inner  space");
    assert_eq!(trim_str("   "), "");
}
