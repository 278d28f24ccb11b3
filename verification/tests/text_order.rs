use specta_export::model::{ImplLocation, RegistrationError};
use specta_export::text::str_before;

fn error(location: &str, reason: &str) -> RegistrationError {
    RegistrationError { impl_location: ImplLocation(location.to_string()), reason: reason.to_string() }
}

#[test]
fn a_proper_prefix_sorts_first() {
    assert!(str_before("ab", "abc"));
    assert!(!str_before("abc", "ab"));
}

#[test]
fn the_empty_text_sorts_before_any_other() {
    assert!(str_before("", "a"));
    assert!(!str_before("a", ""));
    assert!(!str_before("", ""));
}

#[test]
fn no_text_sorts_before_itself() {
    assert!(!str_before("src/lib.rs:10", "src/lib.rs:10"));
}

#[test]
fn the_first_differing_byte_decides() {
    assert!(str_before("abd", "abe"));
    assert!(!str_before("abe", "abd"));
    assert!(str_before("abd", "b"));
    assert!(str_before("Zebra", "apple"));
}

#[test]
fn text_beyond_ascii_goes_by_its_bytes() {
    assert!(str_before("z", "é"));
    assert!(!str_before("é", "z"));
    assert!(str_before("é", "ü"));
    assert!(str_before("é", "日本"));
}

#[test]
fn the_order_is_that_of_rust_strings() {
    let samples = ["", "a", "ab", "abc", "b", "B", "src/a.rs:1", "src/a.rs:10", "src/b.rs:1", "é", "日本", "~"];
    for x in samples {
        for y in samples {
            assert_eq!(str_before(x, y), x < y);
        }
    }
}

#[test]
fn the_order_is_transitive_on_samples() {
    let samples = ["", "a", "ab", "b", "ba", "é"];
    for x in samples {
        for y in samples {
            for z in samples {
                if str_before(x, y) && str_before(y, z) {
                    assert!(str_before(x, z));
                }
            }
        }
    }
}

#[test]
fn errors_sort_by_location_first() {
    assert!(error("a.rs:1", "zzz").precedes(&error("b.rs:1", "aaa")));
    assert!(!error("b.rs:1", "aaa").precedes(&error("a.rs:1", "zzz")));
}

#[test]
fn errors_of_one_location_sort_by_reason() {
    assert!(error("a.rs:1", "bad field").precedes(&error("a.rs:1", "bad name")));
    assert!(!error("a.rs:1", "bad name").precedes(&error("a.rs:1", "bad field")));
}

#[test]
fn an_error_does_not_sort_before_its_like() {
    assert!(!error("a.rs:1", "bad name").precedes(&error("a.rs:1", "bad name")));
}
