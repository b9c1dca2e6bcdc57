use paddock_core::resolve::{
    ladder_outcome, login_shell_command, nonblank_answer, shell_lookup_outcome, override_outcome, resolve, shell_answer_path, shell_outcome,
    Probe, ResolveError, Source,
};

/// A probe over a fixed set of "executable" paths and a canned shell answer.
struct FakeProbe {
    executables: Vec<String>,
    shell: Option<String>,
}

impl FakeProbe {
    fn new(executables: &[&str]) -> Self {
        Self { executables: executables.iter().map(|s| s.to_string()).collect(), shell: None }
    }
    fn with_shell(mut self, answer: &str) -> Self {
        self.shell = Some(answer.to_string());
        self
    }
}

impl Probe for FakeProbe {
    fn is_executable_file(&self, path: &str) -> bool {
        self.executables.iter().any(|p| p == path)
    }
    fn login_shell_lookup(&self, _binary: &str) -> Option<String> {
        self.shell.clone()
    }
}

fn home() -> String {
    String::from("/Users/someone")
}

#[test]
fn override_wins_over_every_other_rung() {
    let probe = FakeProbe::new(&["/custom/paddock", "/opt/homebrew/bin/paddock"]);
    let got = resolve("paddock", Some("/custom/paddock"), Some(&home()), &probe).unwrap();
    assert_eq!(got.path, "/custom/paddock");
    assert_eq!(got.source, Source::Override);
}

#[test]
fn a_missing_override_is_an_error_not_a_fallback() {
    let probe = FakeProbe::new(&["/opt/homebrew/bin/paddock"]);
    let err = resolve("paddock", Some("/custom/paddock"), Some(&home()), &probe).unwrap_err();
    assert_eq!(err, ResolveError::OverrideUnusable { path: String::from("/custom/paddock") });
}

#[test]
fn a_relative_override_is_refused() {
    let probe = FakeProbe::new(&["paddock"]);
    let err = resolve("paddock", Some("paddock"), Some(&home()), &probe).unwrap_err();
    assert_eq!(err, ResolveError::OverrideNotAbsolute { path: String::from("paddock") });
}

#[test]
fn home_local_bin_is_searched_first() {
    let probe = FakeProbe::new(&[
        "/Users/someone/.local/bin/paddock",
        "/opt/homebrew/bin/paddock",
        "/usr/local/bin/paddock",
    ]);
    let got = resolve("paddock", None, Some(&home()), &probe).unwrap();
    assert_eq!(got.path, "/Users/someone/.local/bin/paddock");
    assert_eq!(got.source, Source::HomeLocalBin);
}

#[test]
fn homebrew_beats_usr_local() {
    let probe = FakeProbe::new(&["/opt/homebrew/bin/paddock", "/usr/local/bin/paddock"]);
    let got = resolve("paddock", None, Some(&home()), &probe).unwrap();
    assert_eq!(got.source, Source::Homebrew);
}

#[test]
fn usr_local_is_the_last_fixed_rung() {
    let probe = FakeProbe::new(&["/usr/local/bin/paddock"]);
    let got = resolve("paddock", None, Some(&home()), &probe).unwrap();
    assert_eq!(got.path, "/usr/local/bin/paddock");
    assert_eq!(got.source, Source::UsrLocalBin);
}

#[test]
fn without_a_home_the_search_still_covers_the_system_dirs() {
    let probe = FakeProbe::new(&["/opt/homebrew/bin/paddock"]);
    let got = resolve("paddock", None, None, &probe).unwrap();
    assert_eq!(got.source, Source::Homebrew);
}

#[test]
fn the_login_shell_is_the_last_resort() {
    let probe = FakeProbe::new(&["/weird/prefix/paddock"]).with_shell("/weird/prefix/paddock\n");
    let got = resolve("paddock", None, Some(&home()), &probe).unwrap();
    assert_eq!(got.path, "/weird/prefix/paddock");
    assert_eq!(got.source, Source::LoginShell);
}

#[test]
fn a_relative_answer_from_the_login_shell_is_refused() {
    let probe = FakeProbe::new(&["paddock"]).with_shell("paddock\n");
    let err = resolve("paddock", None, Some(&home()), &probe).unwrap_err();
    assert!(matches!(err, ResolveError::LoginShellUnusable { .. }));
}

#[test]
fn a_login_shell_answer_that_is_not_executable_is_refused() {
    let probe = FakeProbe::new(&[]).with_shell("/weird/prefix/paddock\n");
    let err = resolve("paddock", None, Some(&home()), &probe).unwrap_err();
    assert!(matches!(err, ResolveError::LoginShellUnusable { .. }));
}

#[test]
fn noise_before_the_path_is_refused_rather_than_trimmed() {
    let probe = FakeProbe::new(&["/usr/bin/paddock"]).with_shell("welcome!\n/usr/bin/paddock\n");
    let err = resolve("paddock", None, Some(&home()), &probe).unwrap_err();
    assert!(matches!(err, ResolveError::LoginShellUnusable { .. }));
}

#[test]
fn not_found_lists_every_path_it_probed() {
    let probe = FakeProbe::new(&[]);
    let err = resolve("paddock", None, Some(&home()), &probe).unwrap_err();
    match err {
        ResolveError::NotFound { binary, looked } => {
            assert_eq!(binary, "paddock");
            assert_eq!(
                looked,
                vec![
                    String::from("/Users/someone/.local/bin/paddock"),
                    String::from("/opt/homebrew/bin/paddock"),
                    String::from("/usr/local/bin/paddock"),
                ]
            );
        }
        other => panic!("expected NotFound, got {other:?}"),
    }
}

#[test]
fn the_error_message_names_where_it_looked() {
    let probe = FakeProbe::new(&[]);
    let err = resolve("paddock", None, Some(&home()), &probe).unwrap_err();
    let msg = err.message();
    assert!(msg.contains("/opt/homebrew/bin/paddock"), "{msg}");
    assert!(msg.contains("login shell"), "{msg}");
}

#[test]
fn every_error_message_reads_in_full() {
    let e = ResolveError::OverrideUnusable { path: "/custom/paddock".into() };
    assert_eq!(e.message(), "the configured paddock path is not an executable file: /custom/paddock");
    let e = ResolveError::OverrideNotAbsolute { path: "paddock".into() };
    assert_eq!(e.message(), "the configured paddock path must be absolute, got: paddock");
    let e = ResolveError::NotFound {
        binary: "paddock".into(),
        looked: vec!["/a/paddock".into(), "/b/paddock".into()],
    };
    assert_eq!(
        e.message(),
        "could not find `paddock`. Looked in: /a/paddock, /b/paddock, and the login shell"
    );
    let e = ResolveError::LoginShellUnusable { binary: "paddock".into(), got: "paddock\n".into() };
    assert_eq!(
        e.message(),
        "the login shell located `paddock` at \"paddock\\n\", which is not an absolute path to an executable file"
    );
}

#[test]
fn sources_name_where_the_binary_came_from() {
    assert_eq!(Source::Override.as_str(), "configured override");
    assert_eq!(Source::HomeLocalBin.as_str(), "~/.local/bin");
    assert_eq!(Source::Homebrew.as_str(), "/opt/homebrew/bin");
    assert_eq!(Source::UsrLocalBin.as_str(), "/usr/local/bin");
    assert_eq!(Source::LoginShell.as_str(), "login shell");
}

#[test]
fn the_shell_answer_is_its_first_line_trimmed() {
    assert_eq!(shell_answer_path("  /usr/bin/paddock  \r\nmore\n"), Some("/usr/bin/paddock".into()));
    assert_eq!(shell_answer_path("/usr/bin/paddock"), Some("/usr/bin/paddock".into()));
    assert_eq!(shell_answer_path("alias paddock='x'\n"), None);
    assert_eq!(shell_answer_path(""), None);
    assert_eq!(shell_answer_path("\n/usr/bin/paddock\n"), None);
}

#[test]
fn only_a_bare_word_reaches_the_shell() {
    assert_eq!(login_shell_command("paddock"), Some("command -v paddock".into()));
    assert_eq!(login_shell_command("pad-dock_2"), Some("command -v pad-dock_2".into()));
    assert_eq!(login_shell_command(""), None);
    assert_eq!(login_shell_command("paddock; rm -rf ~"), None);
    assert_eq!(login_shell_command("$(id)"), None);
    assert_eq!(login_shell_command("pädock"), None);
}

#[test]
fn a_blank_shell_answer_is_no_answer() {
    assert_eq!(nonblank_answer("  \n".into()), None);
    assert_eq!(nonblank_answer(String::new()), None);
    assert_eq!(nonblank_answer("/usr/bin/paddock\n".into()), Some("/usr/bin/paddock\n".into()));
}

#[test]
fn an_override_resolves_to_itself_or_fails_naming_itself() {
    let got = override_outcome("/custom/paddock", true).unwrap();
    assert_eq!(got.path, "/custom/paddock");
    assert_eq!(got.source, Source::Override);
    assert_eq!(
        override_outcome("/custom/paddock", false),
        Err(ResolveError::OverrideUnusable { path: "/custom/paddock".into() })
    );
    assert_eq!(
        override_outcome("bin/paddock", true),
        Err(ResolveError::OverrideNotAbsolute { path: "bin/paddock".into() })
    );
}

#[test]
fn the_last_rung_settles_on_the_shells_answer() {
    let looked = vec![String::from("/opt/homebrew/bin/paddock")];
    assert_eq!(
        shell_outcome("paddock", looked.clone(), None, false),
        Err(ResolveError::NotFound { binary: "paddock".into(), looked: looked.clone() })
    );
    let got = shell_outcome("paddock", looked.clone(), Some("/x/paddock\n".into()), true).unwrap();
    assert_eq!(got.path, "/x/paddock");
    assert_eq!(got.source, Source::LoginShell);
    assert_eq!(
        shell_outcome("paddock", looked.clone(), Some("/x/paddock\n".into()), false),
        Err(ResolveError::LoginShellUnusable { binary: "paddock".into(), got: "/x/paddock\n".into() })
    );
    assert_eq!(
        shell_outcome("paddock", looked, Some("x/paddock".into()), true),
        Err(ResolveError::LoginShellUnusable { binary: "paddock".into(), got: "x/paddock".into() })
    );
}

#[test]
fn a_resolved_binary_path_is_absolute() {
    let probe = FakeProbe::new(&["/Users/someone/.local/bin/paddock"]);
    let got = resolve("paddock", None, Some(&home()), &probe).unwrap();
    assert!(got.path.starts_with('/'));
    let probe = FakeProbe::new(&[]).with_shell("  /weird/paddock  \n");
    let err = resolve("paddock", None, None, &probe).unwrap_err();
    assert!(matches!(err, ResolveError::LoginShellUnusable { .. }));
}

#[test]
fn the_first_accepted_rung_wins() {
    let got = ladder_outcome("paddock", Some("/Users/someone"), &vec![false, true, true]).unwrap();
    assert_eq!(got.path, "/opt/homebrew/bin/paddock");
    assert_eq!(got.source, Source::Homebrew);
    let got = ladder_outcome("paddock", Some("/Users/someone"), &vec![true]).unwrap();
    assert_eq!(got.path, "/Users/someone/.local/bin/paddock");
    assert_eq!(got.source, Source::HomeLocalBin);
    let got = ladder_outcome("paddock", None, &vec![false, true]).unwrap();
    assert_eq!(got.source, Source::UsrLocalBin);
}

#[test]
fn refused_rungs_are_listed_in_search_order() {
    assert_eq!(
        ladder_outcome("paddock", Some("/Users/someone"), &vec![false, false, false]),
        Err(vec![
            String::from("/Users/someone/.local/bin/paddock"),
            String::from("/opt/homebrew/bin/paddock"),
            String::from("/usr/local/bin/paddock"),
        ])
    );
    assert_eq!(
        ladder_outcome("paddock", None, &vec![false]),
        Err(vec![String::from("/opt/homebrew/bin/paddock")])
    );
    assert_eq!(ladder_outcome("paddock", None, &vec![]), Err(vec![]));
}

/// A probe that records every question it is asked.
struct RecordingProbe {
    executables: Vec<String>,
    asked: std::cell::RefCell<Vec<String>>,
    shell_asked: std::cell::Cell<bool>,
}

impl Probe for RecordingProbe {
    fn is_executable_file(&self, path: &str) -> bool {
        self.asked.borrow_mut().push(path.to_string());
        self.executables.iter().any(|p| p == path)
    }
    fn login_shell_lookup(&self, _binary: &str) -> Option<String> {
        self.shell_asked.set(true);
        None
    }
}

#[test]
fn the_probe_is_asked_in_order_and_stops_at_the_first_yes() {
    let probe = RecordingProbe {
        executables: vec!["/opt/homebrew/bin/paddock".into(), "/usr/local/bin/paddock".into()],
        asked: Default::default(),
        shell_asked: Default::default(),
    };
    let got = resolve("paddock", None, Some("/Users/someone"), &probe).unwrap();
    assert_eq!(got.source, Source::Homebrew);
    assert_eq!(
        *probe.asked.borrow(),
        vec![String::from("/Users/someone/.local/bin/paddock"), String::from("/opt/homebrew/bin/paddock")]
    );
    assert!(!probe.shell_asked.get());
}

#[test]
fn an_override_is_the_only_question_asked() {
    let probe = RecordingProbe {
        executables: vec![],
        asked: Default::default(),
        shell_asked: Default::default(),
    };
    let _ = resolve("paddock", Some("/custom/paddock"), Some("/Users/someone"), &probe);
    assert_eq!(*probe.asked.borrow(), vec![String::from("/custom/paddock")]);
    assert!(!probe.shell_asked.get());
    let probe = RecordingProbe {
        executables: vec![],
        asked: Default::default(),
        shell_asked: Default::default(),
    };
    let _ = resolve("paddock", Some("custom/paddock"), None, &probe);
    assert!(probe.asked.borrow().is_empty());
}

#[test]
fn unicode_whitespace_is_trimmed_from_the_shell_answer() {
    assert_eq!(shell_answer_path("\u{3000}/usr/bin/paddock\u{a0}\n"), Some("/usr/bin/paddock".into()));
    assert_eq!(nonblank_answer("\u{2028}\t".into()), None);
}

#[test]
fn only_a_successful_nonblank_shell_run_answers() {
    assert_eq!(shell_lookup_outcome(None), None);
    assert_eq!(shell_lookup_outcome(Some((false, "/usr/bin/paddock\n".into()))), None);
    assert_eq!(shell_lookup_outcome(Some((true, " \n".into()))), None);
    assert_eq!(
        shell_lookup_outcome(Some((true, "/usr/bin/paddock\n".into()))),
        Some("/usr/bin/paddock\n".into())
    );
}
