use tinywrite::args::{args_from_query_pairs, create_args};
use tinywrite::chat::{extract_data_lines, select_github_token, token_is_fresh};
use tinywrite::debounce::Debouncer;

// Five edits to one path within 100 ms of each other produce exactly one
// disk write once the quiet interval has elapsed.
#[test]
fn debounce_coalesces_rapid_edits() {
    let quiet: u64 = 3000;
    let mut d = Debouncer::new();
    d.record_edit("/w/a.md", 0, quiet);
    d.record_edit("/w/a.md", 20, quiet);
    d.record_edit("/w/a.md", 40, quiet);
    d.record_edit("/w/a.md", 60, quiet);
    d.record_edit("/w/a.md", 80, quiet);

    // Before the last edit's quiet period elapses, nothing is due.
    assert!(d.due(3079).is_empty());

    // Once it elapses, exactly one write for the path comes out.
    let writes = d.due(3080);
    assert_eq!(writes, vec![String::from("/w/a.md")]);

    // And it is not emitted again.
    assert!(d.due(10000).is_empty());
}

#[test]
fn debounce_paths_are_independent() {
    let mut d = Debouncer::new();
    d.record_edit("/a", 0, 1000);
    d.record_edit("/b", 500, 1000);

    let first = d.due(1000);
    assert_eq!(first, vec![String::from("/a")]);

    // A new edit resets the timer for its path only.
    d.record_edit("/b", 1200, 1000);
    assert!(d.due(1500).is_empty());
    assert_eq!(d.due(2200), vec![String::from("/b")]);
}

#[test]
fn test_create_args() {
    let home = Some(String::from("/home/u"));
    let cwd = Some(String::from("/cur"));

    // Empty source: only the working directory.
    let args = create_args("", &home, &None, false, &cwd);
    assert_eq!(args.cwd, Some(String::from("/cur")));
    assert!(args.file.is_none());
    assert!(args.new_file.is_none());
    assert!(args.room.is_none());
    assert!(args.text.is_none());

    // An existing file: opened, with its directory as working directory.
    let args = create_args(
        "../README.md",
        &home,
        &Some((String::from("/repo/README.md"), false)),
        false,
        &cwd,
    );
    assert_eq!(args.file, Some(String::from("/repo/README.md")));
    assert_eq!(args.cwd, Some(String::from("/repo")));
    assert!(args.new_file.is_none());

    // An existing directory becomes the working directory.
    let args = create_args("../repo", &home, &Some((String::from("/repo"), true)), false, &cwd);
    assert_eq!(args.cwd, Some(String::from("/repo")));
    assert!(args.file.is_none());

    // Not found and its directory not found either: nothing to open.
    let args = create_args("../xyz/README.md", &home, &None, false, &cwd);
    assert!(args.file.is_none());
    assert!(args.new_file.is_none());

    // Not found but its directory exists: a file to create.
    let args = create_args("../README.m", &home, &None, true, &cwd);
    assert!(args.file.is_none());
    assert_eq!(args.new_file, Some(String::from("../README.m")));

    // A deeplink carrying a collaboration room.
    let args = create_args("tinywrite://test?room=123", &home, &None, false, &cwd);
    assert_eq!(args.room, Some(String::from("123")));
    assert!(args.file.is_none());

    // A deeplink carrying base64 text.
    let args = create_args("tinywrite://test?text=dGVzdA==", &home, &None, false, &cwd);
    assert_eq!(args.text, Some(String::from("test")));
}

#[test]
fn query_pairs_take_last_and_decode() {
    let pairs = vec![
        (String::from("room"), String::from("old")),
        (String::from("other"), String::from("x")),
        (String::from("room"), String::from("new")),
        (String::from("text"), String::from("aGk=")),
    ];
    let args = args_from_query_pairs(&pairs, &None);
    assert_eq!(args.room, Some(String::from("new")));
    assert_eq!(args.text, Some(String::from("hi")));
    assert!(args.cwd.is_none());

    // Invalid base64 yields no text.
    let bad = vec![(String::from("text"), String::from("!!!"))];
    assert!(args_from_query_pairs(&bad, &None).text.is_none());
}

#[test]
fn data_lines_are_extracted() {
    let body = "data: one\nignored\ndata: two\n\ndata: three";
    let lines = extract_data_lines(body);
    assert_eq!(
        lines,
        vec![String::from("one"), String::from("two"), String::from("three")]
    );
    assert!(extract_data_lines("nothing here").is_empty());
    assert_eq!(extract_data_lines("data: "), vec![String::from("")]);
}

#[test]
fn token_freshness() {
    assert!(token_is_fresh(100, 99));
    assert!(!token_is_fresh(100, 100));
    assert!(!token_is_fresh(100, 101));
}

#[test]
fn github_token_selection() {
    let entries = vec![
        (String::from("example.org"), String::from("no")),
        (String::from("github.com:alpha"), String::from("tok1")),
        (String::from("github.com"), String::from("tok2")),
    ];
    assert_eq!(select_github_token(&entries), Some(String::from("tok1")));
    let none = vec![(String::from("example.org"), String::from("no"))];
    assert_eq!(select_github_token(&none), None);
}
