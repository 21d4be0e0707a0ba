use lyssg::placeholder::{contains, fill};
use lyssg::ssg::LyWebpage;

#[test]
fn from_str_keeps_text() {
    assert_eq!(LyWebpage::from_str("<p>plain text</p>").contents, "<p>plain text</p>");
    assert_eq!(LyWebpage::from_str("").contents, "");
    assert_eq!(LyWebpage::from_str("[[kept]] as it is").contents, "[[kept]] as it is");
}

#[test]
fn fill_replaces_single_placeholder() {
    let page = LyWebpage::from_str("<div id=\"contents\">\n    [[content]]\n</div>")
        .fill_with_str("content", "<p>hi</p>");
    assert_eq!(page.contents, "<div id=\"contents\">\n    <p>hi</p>\n</div>");
}

#[test]
fn fill_replaces_every_occurrence() {
    let page = LyWebpage::from_str("[[x]]-[[x]]-[[y]]-[[x]]").fill_with_str("x", "1");
    assert_eq!(page.contents, "1-1-[[y]]-1");
}

#[test]
fn absent_key_leaves_page_unchanged() {
    let text = "<h1>[[title]]</h1> [[ title ]] [title] [[titles]]";
    let page = LyWebpage::from_str(text).fill_with_str("missing", "value");
    assert_eq!(page.contents, text);
    let page = LyWebpage::from_str(text).fill_with_str("titl", "value");
    assert_eq!(page.contents, text);
}

#[test]
fn second_fill_of_used_up_key_changes_nothing() {
    let first = LyWebpage::from_str("a [[k]] b").fill_with_str("k", "one");
    assert_eq!(first.contents, "a one b");
    let second = first.fill_with_str("k", "two");
    assert_eq!(second.contents, "a one b");
}

#[test]
fn inserted_text_is_not_searched() {
    let first = LyWebpage::from_str("[[k]]").fill_with_str("k", "<[[k]]>");
    assert_eq!(first.contents, "<[[k]]>");
    // The value has put a placeholder back, which the next call finds.
    let second = first.fill_with_str("k", "x");
    assert_eq!(second.contents, "<x>");
}

#[test]
fn value_may_complete_a_placeholder_with_its_surroundings() {
    let first = LyWebpage::from_str("[[[k]]k]]").fill_with_str("k", "[");
    assert_eq!(first.contents, "[[k]]");
    let second = first.fill_with_str("k", "x");
    assert_eq!(second.contents, "x");
}

#[test]
fn key_is_taken_literally() {
    let page = LyWebpage::from_str("[[a.c]] [[abc]] [[.*]] [[a+]]").fill_with_str("a.c", "dot");
    assert_eq!(page.contents, "dot [[abc]] [[.*]] [[a+]]");
    let page = page.fill_with_str(".*", "star").fill_with_str("a+", "plus");
    assert_eq!(page.contents, "dot [[abc]] star plus");
}

#[test]
fn occurrences_do_not_overlap() {
    // With the key `]][[`, the placeholder is `[[]][[]]`; in the text two
    // candidates share their middle, and only the left one is replaced.
    assert_eq!(fill("[[]][[]][[]]", "]][[", "x"), "x[[]]");
    assert_eq!(fill("[[[k]]]", "k", "v"), "[v]");
    assert_eq!(fill("[[[[k]]", "k", "v"), "[[v");
}

#[test]
fn empty_key_and_empty_value() {
    assert_eq!(fill("a[[]]b", "", "-"), "a-b");
    assert_eq!(fill("a[[k]]b[[k]]", "k", ""), "ab");
    assert_eq!(fill("", "k", "v"), "");
    assert_eq!(fill("[[k", "k", "v"), "[[k");
    assert_eq!(fill("k]]", "k", "v"), "k]]");
}

#[test]
fn text_beyond_ascii_is_kept_whole() {
    assert_eq!(fill("héllo [[nom]] — ça va?", "nom", "Zoë ☃"), "héllo Zoë ☃ — ça va?");
    assert_eq!(fill("日本[[鍵]]語", "鍵", "🔑"), "日本🔑語");
}

#[test]
fn fills_chain() {
    let page = LyWebpage::from_str("<title>[[title]]</title><body>[[body]]</body>")
        .fill_with_str("title", "Home")
        .fill_with_str("body", "<p>welcome</p>");
    assert_eq!(page.contents, "<title>Home</title><body><p>welcome</p></body>");
}

#[test]
fn contains_finds_what_stands_in_the_text() {
    assert!(contains("a[[k]]b", "[[k]]"));
    assert!(contains("a[[k]]b", "a"));
    assert!(contains("a[[k]]b", "b"));
    assert!(contains("a[[k]]b", "a[[k]]b"));
    assert!(contains("héllo ☃", "o ☃"));
    assert!(contains("abc", ""));
    assert!(contains("", ""));
    assert!(!contains("a[[k]]b", "[[k]]]"));
    assert!(!contains("a[[k]]b", "a[[k]]bc"));
    assert!(!contains("abab", "abb"));
    assert!(!contains("", "a"));
    assert!(!contains("héllo", "hello"));
}

#[test]
fn contains_agrees_with_std() {
    let texts = ["", "[", "[[", "a[[b]]", "[a[", "é[[é", "[[[[", "]][["];
    let patterns = ["", "[", "[[", "]]", "[[b", "é[", "[[[", "a[[b]]c"];
    for text in texts {
        for pattern in patterns {
            assert_eq!(contains(text, pattern), text.contains(pattern));
        }
    }
}
