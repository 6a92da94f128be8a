use git_las::git::{ensure_remote, git_dir, remote_listed, RemoteUpdate};
use git_las::text::{is_blank, is_whitespace, join_path, trim, trim_end_slashes};

#[test]
fn trim_drops_surrounding_whitespace() {
    assert_eq!(trim("  a b \t\n"), "a b");
    assert_eq!(trim(" \u{3000}x\u{a0}"), "x");
    assert_eq!(trim("   "), "");
    assert_eq!(trim(""), "");
    assert_eq!(trim("x"), "x");
}

#[test]
fn whitespace_is_what_std_calls_whitespace() {
    assert!(is_whitespace(' '));
    assert!(is_whitespace('\u{85}'));
    assert!(is_whitespace('\u{3000}'));
    assert!(!is_whitespace('a'));
    assert!(!is_whitespace('\u{180e}'));
    assert!(!is_whitespace('\u{200b}'));
    for c in (0u32..=0x10ffff).filter_map(char::from_u32) {
        assert_eq!(is_whitespace(c), c.is_whitespace(), "{:?}", c);
    }
    for s in [" \u{2028}x\u{205f}", "\u{200b}y\u{200b}", "\u{b}\u{c}z\u{1680}"] {
        assert_eq!(trim(s), s.trim());
    }
}

#[test]
fn blank_means_only_whitespace() {
    assert!(is_blank(""));
    assert!(is_blank(" \r\n\t"));
    assert!(!is_blank("  M a.txt\n"));
    for s in ["", " ", "a", " a ", "\u{2003}"] {
        assert_eq!(is_blank(s), trim(s).is_empty());
    }
}

#[test]
fn trailing_slashes_are_dropped() {
    assert_eq!(trim_end_slashes("https://gitea.io//"), "https://gitea.io");
    assert_eq!(trim_end_slashes("https://gitea.io"), "https://gitea.io");
    assert_eq!(trim_end_slashes("///"), "");
}

#[test]
fn paths_join_like_std() {
    assert_eq!(join_path("/work", ".gitlas"), "/work/.gitlas");
    assert_eq!(join_path("/work/", "a"), "/work/a");
    assert_eq!(join_path("", "a"), "a");
    assert_eq!(join_path("/work", "/abs"), "/abs");
    assert_eq!(git_dir("/work/a"), "/work/a/.git");
    for (b, n) in [("/work", ".gitlas"), ("/work/", "a"), ("", "a"), ("/w", "/x"), ("w", "")] {
        let expected = std::path::Path::new(b).join(n);
        assert_eq!(join_path(b, n), expected.to_str().unwrap());
    }
}

#[test]
fn remote_listing_is_read_by_lines() {
    assert!(remote_listed("origin\ngithub\n", "github"));
    assert!(remote_listed("origin\r\ngithub\r\n", "github"));
    assert!(remote_listed("github", "github"));
    assert!(!remote_listed("githubx\n", "github"));
    assert!(!remote_listed("", "github"));
    assert!(!remote_listed("a\n", ""));
    assert!(remote_listed("a\n\nb", ""));
    assert!(remote_listed("x\r", "x\r"));
    for (s, n) in [("a\nb\n", "b"), ("a\r\nb", "a"), ("\n", ""), ("a\r", "a"), ("x\ny", "x\ny")] {
        assert_eq!(remote_listed(s, n), s.lines().any(|l| l == n));
    }
    assert_eq!(ensure_remote("origin\ngithub\n", "github"), RemoteUpdate::SetUrl);
    assert_eq!(ensure_remote("origin\n", "github"), RemoteUpdate::Add);
}
