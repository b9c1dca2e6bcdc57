use paddock_core::proc::child_path;

#[test]
fn the_binarys_own_directory_leads_the_path() {
    let path = child_path("/opt/homebrew/bin/paddock", None);
    assert!(path.starts_with("/opt/homebrew/bin:"), "{path}");
}

#[test]
fn the_child_path_can_find_docker() {
    // The failure this guards against: paddock exits 3 "Docker is not
    // running" because the app handed it a PATH with no Homebrew in it.
    let path = child_path("/Users/x/.local/bin/paddock", None);
    assert!(path.contains("/opt/homebrew/bin"), "{path}");
    assert!(path.contains("/usr/local/bin"), "{path}");
}

#[test]
fn the_path_has_no_duplicates() {
    let home = String::from("/Users/x");
    let path = child_path("/usr/local/bin/paddock", Some(&home));
    let dirs: Vec<&str> = path.split(':').collect();
    let mut unique = dirs.clone();
    unique.sort_unstable();
    unique.dedup();
    assert_eq!(dirs.len(), unique.len(), "{path}");
}

#[test]
fn home_local_bin_is_on_the_child_path() {
    let home = String::from("/Users/x");
    let path = child_path("/usr/local/bin/paddock", Some(&home));
    assert!(path.contains("/Users/x/.local/bin"), "{path}");
}

#[test]
fn the_path_is_never_empty_even_with_a_bare_binary_name() {
    let path = child_path("paddock", None);
    assert!(path.contains("/usr/bin"), "{path}");
}

#[test]
fn scratch_child_path_bare_name() {
    let p = child_path("paddock", None);
    println!("PATH = {p:?}");
    println!("first element = {:?}", p.split(':').next());
}

#[test]
fn the_child_path_is_exactly_the_ladder_without_repeats() {
    let path = child_path("/usr/local/bin/paddock", Some("/Users/x"));
    assert_eq!(
        path,
        "/usr/local/bin:/Users/x/.local/bin:/opt/homebrew/bin:/usr/bin:/bin:/usr/sbin:/sbin"
    );
}

#[test]
fn a_bare_binary_name_leads_with_an_empty_directory() {
    // `Path::parent` of a one-component relative path is the empty path.
    let path = child_path("paddock", None);
    assert_eq!(path, ":/opt/homebrew/bin:/usr/local/bin:/usr/bin:/bin:/usr/sbin:/sbin");
}

#[test]
fn directories_equal_as_paths_are_not_repeated() {
    // A doubled separator names the same directory as `Path` compares them.
    let path = child_path("/opt//homebrew/bin/paddock", None);
    assert_eq!(path, "/opt//homebrew/bin:/usr/local/bin:/usr/bin:/bin:/usr/sbin:/sbin");
}

#[test]
fn a_home_with_a_trailing_slash_gets_one_separator() {
    let path = child_path("/x/paddock", Some("/Users/x/"));
    assert_eq!(
        path,
        "/x:/Users/x/.local/bin:/opt/homebrew/bin:/usr/local/bin:/usr/bin:/bin:/usr/sbin:/sbin"
    );
}

#[test]
fn the_root_binary_has_the_root_as_its_directory() {
    let path = child_path("/paddock", None);
    assert!(path.starts_with("/:/opt/homebrew/bin"), "{path}");
}

#[test]
fn split_at_colons_the_path_holds_every_fixed_directory_once() {
    let path = child_path("/Users/x/.local/bin/paddock", Some("/Users/x"));
    let dirs: Vec<&str> = path.split(':').collect();
    assert_eq!(
        dirs,
        vec!["/Users/x/.local/bin", "/opt/homebrew/bin", "/usr/local/bin", "/usr/bin", "/bin", "/usr/sbin", "/sbin"]
    );
}
