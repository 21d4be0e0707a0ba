use lyssg::text::{chars_of, cut, encloses, same_text};

#[test]
fn chars_come_in_order() {
    assert_eq!(chars_of("a☃b"), vec!['a', '☃', 'b']);
    assert_eq!(chars_of(""), Vec::<char>::new());
}

#[test]
fn cut_counts_bytes() {
    // `☃` takes three bytes.
    assert_eq!(cut("a☃b", 0, 1), "a");
    assert_eq!(cut("a☃b", 1, 4), "☃");
    assert_eq!(cut("a☃b", 1, 5), "☃b");
    assert_eq!(cut("a☃b", 0, 5), "a☃b");
    assert_eq!(cut("a☃b", 5, 5), "");
    assert_eq!(cut("", 0, 0), "");
}

#[test]
fn encloses_refuses_bad_offsets() {
    assert!(encloses("a☃b", 1, 4));
    assert!(encloses("a☃b", 5, 5));
    assert!(encloses("", 0, 0));
    assert!(!encloses("a☃b", 2, 4));
    assert!(!encloses("a☃b", 1, 3));
    assert!(!encloses("a☃b", 4, 1));
    assert!(!encloses("a☃b", 0, 6));
    assert!(!encloses("a☃b", 6, 6));
    assert!(!encloses("", 0, 1));
}

#[test]
fn encloses_agrees_with_std() {
    let text = "aé☃🔑";
    for from in 0..12 {
        for to in 0..12 {
            assert_eq!(encloses(text, from, to), from <= to && text.get(from..to).is_some());
        }
    }
}

#[test]
fn cut_takes_what_std_takes() {
    let text = "aé☃🔑z";
    for from in 0..=text.len() {
        for to in from..=text.len() {
            if encloses(text, from, to) {
                assert_eq!(cut(text, from, to), &text[from..to]);
            }
        }
    }
}

#[test]
fn same_text_compares_characters() {
    assert!(same_text("", ""));
    assert!(same_text("/blog", "/blog"));
    assert!(same_text("café", "café"));
    assert!(!same_text("/blog", "/blo"));
    assert!(!same_text("/blog", "/blof"));
    assert!(!same_text("cafe", "café"));
    assert!(!same_text("", " "));
}
