use tinywrite::pathutil::{
    dirname, expand_tilde, get_home, get_home_as_string, get_test_dir, get_test_dir_as_string,
    parent_path, to_absolute_path, to_relative_path, PathError,
};

fn home() -> String {
    get_home().unwrap_or(String::from("/root"))
}

#[test]
fn pathutil_test_dirname() {
    let h = Some(home());

    assert_eq!(
        dirname("../src-tauri/Cargo.lock", false, &h).unwrap(),
        String::from("../src-tauri")
    );

    assert_eq!(dirname("../src-tauri", true, &h).unwrap(), String::from("../src-tauri"));

    assert_eq!(dirname("./Cargo.lock", false, &h).unwrap(), String::from("."));

    assert_eq!(dirname("Cargo.lock", false, &h).unwrap(), String::from(""));

    assert!(dirname("", false, &h).is_err());
    assert_eq!(dirname("", false, &h).err(), Some(PathError::NoParent));

    assert_eq!(
        dirname("~/src-tauri/Cargo.lock", false, &h).unwrap(),
        format!("{}/src-tauri", home())
    );

    assert_eq!(dirname("~/", true, &h).unwrap(), home());
}

#[test]
fn path_test_to_relative_path() {
    let test_base_path = format!("{}/foo", home());
    let test_path = format!("{}/foo/bar", home());
    let h = Some(home());
    let cwd = "/nowhere-in-particular";

    assert_eq!(
        to_relative_path(&test_path, &None, cwd, &h).unwrap(),
        String::from("~/foo/bar")
    );

    assert_eq!(
        to_relative_path(&test_path, &Some(test_base_path.clone()), cwd, &h).unwrap(),
        String::from("./bar")
    );

    assert_eq!(
        to_relative_path(&test_base_path, &Some(test_path), cwd, &h).unwrap(),
        String::from("~/foo")
    );
}

#[test]
fn path_test_to_absolute_path() {
    let test_base_path = format!("{}/foo", home());
    let h = Some(home());
    let cwd = "/cwd";

    assert_eq!(
        to_absolute_path("~/foo/bar", &None, cwd, &h),
        format!("{}/foo/bar", home())
    );

    assert_eq!(
        to_absolute_path("~/../foo/bar", &None, cwd, &h),
        format!("{}/../foo/bar", home())
    );

    assert_eq!(
        to_absolute_path("./foo/bar", &Some(test_base_path), cwd, &h),
        format!("{}/foo/foo/bar", home())
    );

    assert_eq!(
        to_absolute_path("./foo/bar", &Some(String::from("/")), cwd, &h),
        String::from("/foo/bar")
    );
}

#[test]
fn expand_tilde_cases() {
    let h = Some(String::from("/home/u"));
    assert_eq!(expand_tilde("plain/path", &h), Some(String::from("plain/path")));
    assert_eq!(expand_tilde("~", &h), Some(String::from("/home/u")));
    assert_eq!(expand_tilde("~/", &h), Some(String::from("/home/u")));
    assert_eq!(expand_tilde("~/x/y", &h), Some(String::from("/home/u/x/y")));
    assert_eq!(expand_tilde("~/x", &Some(String::from("/"))), Some(String::from("x")));
    assert_eq!(expand_tilde("~/x", &None), None);
    // A path merely starting with a tilde character is no home reference.
    assert_eq!(expand_tilde("~abc", &None), Some(String::from("~abc")));
}

#[test]
fn parent_path_cases() {
    assert_eq!(parent_path("/a/b/c"), Some(String::from("/a/b")));
    assert_eq!(parent_path("/a"), Some(String::from("/")));
    assert_eq!(parent_path("a"), Some(String::from("")));
    assert_eq!(parent_path("a/b/"), Some(String::from("a")));
    assert_eq!(parent_path("/"), None);
    assert_eq!(parent_path(""), None);
}

#[test]
fn home_helpers_agree() {
    assert_eq!(get_home(), get_home_as_string());
    let td = get_test_dir();
    assert_eq!(td, get_test_dir_as_string());
    if let (Some(h), Some(t)) = (get_home(), td) {
        assert_eq!(t, format!("{}/tinywrite", h));
    }
}
