use andrust::text::{chars_of, join_path, same_text, trim_line_end};

#[test]
fn join_path_puts_one_slash_between() {
    assert_eq!(join_path("/opt/ndk", "bin/ar"), "/opt/ndk/bin/ar");
    assert_eq!(join_path("", "x"), "/x");
    assert_eq!(join_path("root", ""), "root/");
}

#[test]
fn same_text_compares_characters() {
    assert!(same_text("--root", "--root"));
    assert!(!same_text("--root", "--roof"));
    assert!(!same_text("-r", "-ro"));
    assert!(same_text("", ""));
    assert!(same_text("añ/é", "añ/é"));
}

#[test]
fn trim_line_end_removes_one_line_ending() {
    assert_eq!(trim_line_end("/opt/ndk\n"), "/opt/ndk");
    assert_eq!(trim_line_end("/opt/ndk\r\n"), "/opt/ndk");
    assert_eq!(trim_line_end("/opt/ndk\r"), "/opt/ndk");
    assert_eq!(trim_line_end("/opt/ndk"), "/opt/ndk");
    assert_eq!(trim_line_end("/opt/ndk\n\n"), "/opt/ndk\n");
    assert_eq!(trim_line_end("/opt/ndk\n\r"), "/opt/ndk\n");
    assert_eq!(trim_line_end(""), "");
    assert_eq!(trim_line_end("\n"), "");
}

#[test]
fn chars_of_lists_the_characters() {
    assert_eq!(chars_of("a/é"), vec!['a', '/', 'é']);
    assert!(chars_of("").is_empty());
}
