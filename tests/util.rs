use pass_craft::output::{append_line, save_record, status_line, step_line};
use pass_craft::platform::PlatformInfo;
use pass_craft::util::{
    everyof, html_comment_unwrap, html_comment_wrap, mlt_del_emptyline, mlt_get_lastline, oneof,
    path_get_dirs, path_get_name, path_normalize, shtkv_get_pure_v, slkv_get, sslf_get_head,
    sslf_get_tail, string_get, string_is_empty,
};

#[test]
fn test_platform_info() {
    let platform = PlatformInfo::new("linux", "x86_64", "unix");

    assert!(!platform.os.is_empty());
    assert!(!platform.arch.is_empty());
    assert!(!platform.family.is_empty());

    let display = platform.display();
    assert!(display.contains(&platform.os));
    assert!(display.contains(&platform.arch));
}

#[test]
fn platform_display_format() {
    assert_eq!(PlatformInfo::new("linux", "x86_64", "unix").display(), "linux-x86_64");
}

#[test]
fn list_membership() {
    let list = ["a", "b", "c"];
    assert!(oneof("x, b ,y", &list));
    assert!(!oneof("x,y", &list));
    assert!(!oneof("", &list));
    assert!(everyof(" a,b , c", &list));
    assert!(!everyof("a,b,z", &list));
    assert!(!everyof("", &list));
    assert!(!everyof("a,,b", &list));
}

#[test]
fn blank_strings() {
    assert!(string_is_empty(" \t\n"));
    assert!(string_is_empty(""));
    assert!(!string_is_empty(" x "));
    assert_eq!(string_get("  ", "dflt"), "dflt");
    assert_eq!(string_get(" v ", "dflt"), " v ");
}

#[test]
fn line_lists() {
    let lines = vec!["a".to_string(), "  ".to_string(), "".to_string(), "b".to_string()];
    assert_eq!(mlt_del_emptyline(&lines), vec!["a".to_string(), "b".to_string()]);
    assert_eq!(mlt_get_lastline(&lines), "b");
    assert_eq!(mlt_get_lastline(&[]), "");
}

#[test]
fn key_lookup() {
    let kv = "name : john, site:ex.com ,Mode:x:y";
    assert_eq!(slkv_get("name", kv, true), "john");
    assert_eq!(slkv_get(" site ", kv, true), "ex.com");
    assert_eq!(slkv_get("mode", kv, true), "");
    assert_eq!(slkv_get("mode", kv, false), "x:y");
    assert_eq!(slkv_get("name", "", true), "");
    assert_eq!(slkv_get("a", "a:1,a:2", true), "1");
    assert_eq!(slkv_get("\u{e9}", "\u{c9}:v", false), "v");
    assert_eq!(slkv_get("\u{e9}", "\u{c9}:v", true), "");
}

#[test]
fn compact_head_and_tail() {
    assert_eq!(sslf_get_head("name:a;cut:4"), "name:a");
    assert_eq!(sslf_get_tail("name:a;cut:4"), "cut:4");
    assert_eq!(sslf_get_head("name:a"), "name:a");
    assert_eq!(sslf_get_tail("name:a"), "");
}

#[test]
fn replace_in_path() {
    assert_eq!(path_normalize("a\\b\\c", "\\", "/"), "a/b/c");
    assert_eq!(path_normalize("aaa", "aa", "b"), "ba");
    assert_eq!(path_normalize("ab", "", "-"), "-a-b-");
    assert_eq!(path_normalize("", "x", "y"), "");
}

#[test]
fn path_parts() {
    assert_eq!(path_get_name("dir/sub/file.txt"), "file.txt");
    assert_eq!(path_get_dirs("dir/sub/file.txt"), "dir/sub");
    assert_eq!(path_get_name(".."), "");
    assert_eq!(path_get_dirs(""), "");
    assert_eq!(path_get_name("file.txt"), "file.txt");
    assert_eq!(path_get_dirs("file.txt"), "");
}

#[test]
fn html_comments() {
    assert_eq!(html_comment_wrap("a,b,c"), "<!-- a,b,c -->");
    assert_eq!(html_comment_unwrap("  <!-- a,b,c -->  "), "a,b,c");
    assert_eq!(html_comment_unwrap("<!--<!--x-->-->"), "x");
    assert_eq!(html_comment_unwrap("plain"), "plain");
}

#[test]
fn pure_values() {
    assert_eq!(shtkv_get_pure_v("name:john,site:ex.com,"), "john,ex.com");
    assert_eq!(shtkv_get_pure_v(""), "");
    assert_eq!(shtkv_get_pure_v(" email:e@x "), "e@x");
}

#[test]
fn step_headers() {
    assert_eq!(step_line("Test", 20, '*'), "********Test********");
    assert_eq!(step_line("A", 10, '-'), "----A----");
    assert_eq!(step_line("This is long", 5, '+'), "This is long");
}

#[test]
fn status_lines() {
    assert_eq!(status_line("ok", 0), "✅ ok");
    assert_eq!(status_line("bad", 1), "❌ bad");
    assert_eq!(status_line("hm", 2), "⚠️ hm");
    assert_eq!(status_line("fyi", 99), "ℹ️ fyi");
}

#[test]
fn saved_records() {
    assert_eq!(save_record("n,H,s", true, "ignored"), "<!-- n,H,s -->");
    assert_eq!(save_record("n,H,s", false, "name:n;cut:4"), "name:n;cut:4\n<!-- n,H,s -->");
    assert_eq!(append_line("a\nb\n", "c"), "a\nb\nc");
    assert_eq!(append_line("", "c"), "c");
    assert_eq!(append_line("a\r\nb", "c"), "a\nb\nc");
}
