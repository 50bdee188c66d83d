use glitchup::mutations::operation::describe;
use glitchup::kind::MutationKind;
use glitchup::text::find_last;
use glitchup::text::join;
use glitchup::text::same_text;
use glitchup::text::split_path;
use glitchup::text::truncate;
use glitchup::text::write_decimal;

#[test]
fn numbers_are_written_in_decimal() {
    assert_eq!(write_decimal(0), "0");
    assert_eq!(write_decimal(7), "7");
    assert_eq!(write_decimal(10), "10");
    assert_eq!(write_decimal(128), "128");
    assert_eq!(write_decimal(9_007_199), "9007199");
    assert_eq!(write_decimal(usize::MAX), usize::MAX.to_string());
}

#[test]
fn descriptions_hold_the_parameters() {
    assert_eq!(describe(MutationKind::Void, 3, 128, ""), "VOID_it=3_ch=128");
    assert_eq!(describe(MutationKind::Gradient, 0, 1, "_by=2_in=3"), "GRT_it=0_ch=1_by=2_in=3");
}

#[test]
fn texts_compare_by_their_characters() {
    assert!(same_text("Void", "Void"));
    assert!(!same_text("Void", "void"));
    assert!(!same_text("Void", "Voi"));
    assert!(same_text("", ""));
}

#[test]
fn parts_are_joined() {
    assert_eq!(join(&Vec::new(), "---"), "");
    assert_eq!(join(&vec!["a".to_string()], "---"), "a");
    assert_eq!(join(&vec!["a".to_string(), "b".to_string(), "".to_string()], "---"), "a---b---");
}

#[test]
fn texts_are_cut_off_by_characters() {
    assert_eq!(truncate("hello", 3), "hel");
    assert_eq!(truncate("hello", 5), "hello");
    assert_eq!(truncate("hello", 9), "hello");
    assert_eq!(truncate("hello", 0), "");
    assert_eq!(truncate("h\u{e9}llo", 2), "h\u{e9}");
}

#[test]
fn the_last_mark_is_found() {
    assert_eq!(find_last("a/b/c", '/'), Some(3));
    assert_eq!(find_last("/abc", '/'), Some(0));
    assert_eq!(find_last("abc", '/'), None);
    assert_eq!(find_last("", '/'), None);
    assert_eq!(find_last("\u{e9}/x", '/'), Some(1));
}

#[test]
fn paths_are_split() {
    let parts = |d: &str, s: &str, e: &str| Some((d.to_string(), s.to_string(), e.to_string()));
    assert_eq!(split_path("a/b/c.png"), parts("a/b/", "c", "png"));
    assert_eq!(split_path("c.png"), parts("", "c", "png"));
    assert_eq!(split_path("/c.tar.gz"), parts("/", "c.tar", "gz"));
    assert_eq!(split_path("a.b/c.d"), parts("a.b/", "c", "d"));
    assert_eq!(split_path("x/c."), parts("x/", "c", ""));
    assert_eq!(split_path("a.b/c"), None);
    assert_eq!(split_path("a/.c"), None);
    assert_eq!(split_path("a/"), None);
    assert_eq!(split_path(""), None);
}

#[test]
fn different_numbers_are_written_differently() {
    let written: Vec<String> = (0..1200usize).map(write_decimal).collect();
    for (n, text) in written.iter().enumerate() {
        assert_eq!(text.parse::<usize>().unwrap(), n);
    }
}
