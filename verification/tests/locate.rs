use bitgraph::locate::{trim_end, white_space, Action, Event, Locator, Place, State};

fn check(dir: &str, subdir: Option<&str>, file: &str) -> Action {
    Action::Check { dir: dir.to_string(), subdir: subdir.map(str::to_string), file: file.to_string() }
}

/// Runs a search against a made-up file system and PATH search, and returns
/// the path found with the number of times the PATH search was run.
fn drive(mut locator: Locator, present: &[&str], search: Option<&str>) -> (Option<String>, usize) {
    let mut searches = 0;
    for _ in 0..20 {
        match locator.action() {
            Action::Check { dir, subdir, file } => {
                let path = match subdir {
                    Some(subdir) => format!("{dir}/{subdir}/{file}"),
                    None => format!("{dir}/{file}"),
                };
                if present.contains(&path.as_str()) {
                    locator.report(Event::Present(path));
                } else {
                    locator.report(Event::Absent);
                }
            }
            Action::Search { .. } => {
                searches += 1;
                locator.report(Event::Searched(search.map(str::to_string)));
            }
            Action::Confirm { path } => {
                if present.contains(&path.as_str()) {
                    locator.report(Event::Present(path));
                } else {
                    locator.report(Event::Absent);
                }
            }
            Action::Done(path) => {
                assert!(locator.is_over());
                assert_eq!(locator.located(), path);
                return (path, searches);
            }
        }
    }
    panic!("the search did not end");
}

#[test]
fn the_places_are_asked_in_order() {
    let mut locator = Locator::new("ffprobe", "/opt/app", "/home/u/work", false);
    let expected = [
        check("/opt/app", None, "ffprobe"),
        check("/opt/app", Some("lib"), "ffprobe"),
        check("/home/u/work", None, "ffprobe"),
        check("/home/u/work", Some("lib"), "ffprobe"),
        check("/usr/local/bin", None, "ffprobe"),
        check("/usr/bin", None, "ffprobe"),
    ];
    for action in expected {
        assert!(!locator.is_over());
        assert_eq!(locator.action(), action);
        locator.report(Event::Absent);
    }
    assert_eq!(
        locator.action(),
        Action::Search { program: "which".to_string(), name: "ffprobe".to_string() }
    );
}

#[test]
fn windows_names_carry_the_suffix() {
    let mut locator = Locator::new("ffprobe", "C:\\app", "D:\\work", true);
    assert_eq!(locator.action(), check("C:\\app", None, "ffprobe.exe"));
    for _ in 0..6 {
        locator.report(Event::Absent);
    }
    assert_eq!(
        locator.action(),
        Action::Search { program: "where.exe".to_string(), name: "ffprobe".to_string() }
    );
}

#[test]
fn a_file_in_the_working_directory_lib_is_found_without_a_search() {
    let locator = Locator::new("ffprobe", "/opt/app", "/home/u/work", false);
    let (found, searches) = drive(locator, &["/home/u/work/lib/ffprobe"], Some("/usr/bin/other\n"));
    assert_eq!(found, Some("/home/u/work/lib/ffprobe".to_string()));
    assert_eq!(searches, 0);
}

#[test]
fn the_first_place_that_has_the_file_wins() {
    let locator = Locator::new("ffprobe", "/opt/app", "/home/u/work", false);
    let (found, searches) = drive(locator, &["/usr/bin/ffprobe", "/opt/app/lib/ffprobe"], None);
    assert_eq!(found, Some("/opt/app/lib/ffprobe".to_string()));
    assert_eq!(searches, 0);
}

#[test]
fn the_search_is_the_last_resort() {
    let locator = Locator::new("ffprobe", "/opt/app", "/home/u/work", false);
    let (found, searches) = drive(locator, &["/snap/bin/ffprobe"], Some("/snap/bin/ffprobe\n"));
    assert_eq!(found, Some("/snap/bin/ffprobe".to_string()));
    assert_eq!(searches, 1);
}

#[test]
fn what_the_search_prints_must_exist() {
    let locator = Locator::new("ffprobe", "/opt/app", "/home/u/work", false);
    assert_eq!(drive(locator.clone(), &[], Some("/snap/bin/ffprobe\n")), (None, 1));
    assert_eq!(drive(locator.clone(), &[], Some("")), (None, 1));
    assert_eq!(drive(locator, &[], None), (None, 1));
}

#[test]
fn the_search_output_is_trimmed_at_its_end_only() {
    let mut locator = Locator::new("x", "/a", "/b", false);
    locator.state = State::Search;
    locator.report(Event::Searched(Some("  /bin/x \r\n\t".to_string())));
    assert_eq!(locator.state, State::Confirm("  /bin/x".to_string()));
    assert_eq!(locator.action(), Action::Confirm { path: "  /bin/x".to_string() });
    locator.report(Event::Present(String::new()));
    assert_eq!(locator.state, State::Found("  /bin/x".to_string()));
    assert_eq!(locator.action(), Action::Done(Some("  /bin/x".to_string())));
}

#[test]
fn a_report_that_answers_nothing_changes_nothing() {
    let mut locator = Locator::new("x", "/a", "/b", false);
    locator.report(Event::Searched(Some("/bin/x".to_string())));
    assert_eq!(locator.state, State::Check(Place::ExeDir));
    locator.state = State::Search;
    locator.report(Event::Absent);
    locator.report(Event::Present("/bin/x".to_string()));
    assert_eq!(locator.state, State::Search);
    locator.state = State::Confirm("/p".to_string());
    locator.report(Event::Searched(None));
    assert_eq!(locator.state, State::Confirm("/p".to_string()));
    for over in [State::Found("/p".to_string()), State::NotFound] {
        for event in [Event::Absent, Event::Present("/q".to_string()), Event::Searched(None)] {
            locator.state = over.clone();
            locator.report(event);
            assert_eq!(locator.state, over);
        }
    }
}

#[test]
fn places_follow_one_another() {
    assert_eq!(Place::ExeDir.following(), Some(Place::ExeDirLib));
    assert_eq!(Place::ExeDirLib.following(), Some(Place::WorkDir));
    assert_eq!(Place::WorkDir.following(), Some(Place::WorkDirLib));
    assert_eq!(Place::WorkDirLib.following(), Some(Place::UsrLocalBin));
    assert_eq!(Place::UsrLocalBin.following(), Some(Place::UsrBin));
    assert_eq!(Place::UsrBin.following(), None);
}

#[test]
fn trim_end_agrees_with_the_standard_trim() {
    let samples = [
        "", " ", "a", "a ", " a", "a\n", "a\r\n", "a \t\u{b}\u{c}", "a\u{85}", "a\u{a0}", "a\u{1680}",
        "a\u{2000}\u{2001}\u{200a}", "a\u{2028}\u{2029}", "a\u{202f}\u{205f}\u{3000}", "a\u{200b}",
        "a\u{180e}", "a\u{feff}", "é \u{3000}", "/usr/bin/ffprobe\n", "a b \n c",
    ];
    for text in samples {
        assert_eq!(trim_end(text), text.trim_end(), "{text:?}");
    }
}

#[test]
fn white_space_agrees_with_the_standard_test() {
    for code in 0..0x3100u32 {
        if let Some(c) = char::from_u32(code) {
            assert_eq!(white_space(c), c.is_whitespace(), "{code:#x}");
        }
    }
    assert!(!white_space('\u{feff}'));
    assert!(!white_space('\u{10ffff}'));
}
