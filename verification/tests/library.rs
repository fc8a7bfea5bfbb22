use cargo_binlist::cli::{Cli, ListOpts, Opts, RunState, UpdateOpts};
use cargo_binlist::data::{PackageInfo, VersionCheck};
use cargo_binlist::flow::{CargoOutput, Effect, Event, LogLevel, LogLine};
use cargo_binlist::text;
use cargo_binlist::{latest_installable_version, logic, utils, Error, Version};
use log::LevelFilter;

fn texts(logs: &[LogLine]) -> Vec<String> {
    logs.iter().map(|l| l.text.clone()).collect()
}

fn out(success: bool, stdout: &str, stderr: &str) -> CargoOutput {
    CargoOutput {
        success,
        stdout: stdout.to_owned(),
        stderr: stderr.to_owned(),
    }
}

fn pkg(name: &str, version: Version, info: VersionCheck) -> PackageInfo {
    PackageInfo {
        name: name.to_owned(),
        version,
        info,
    }
}

fn v(text: &str) -> Version {
    Version::parse(text).unwrap()
}

#[test]
fn words_split_at_unicode_white_space() {
    let words = text::split_whitespace("  a\u{3000}b\tc\u{a0}\u{2009}d  ");
    assert_eq!(words, vec!["a", "b", "c", "d"]);
    assert!(text::split_whitespace(" \n\t ").is_empty());
    assert!(text::is_whitespace('\u{85}'));
    assert!(!text::is_whitespace('x'));
    assert!(!text::is_whitespace('\u{200b}'));
}

#[test]
fn lines_split_like_str_lines() {
    assert_eq!(text::split_lines("a\r\nb\n\nc"), vec!["a", "b", "", "c"]);
    assert_eq!(text::split_lines("a\n"), vec!["a"]);
    assert_eq!(text::split_lines("a\r"), vec!["a\r"]);
    assert!(text::split_lines("").is_empty());
    assert_eq!(text::split_lines("\n"), vec![""]);
}

#[test]
fn decimal_text() {
    assert_eq!(text::decimal_string(0), "0");
    assert_eq!(text::decimal_string(12345), "12345");
    assert_eq!(text::decimal_string(u64::MAX), u64::MAX.to_string());
}

#[test]
fn join_and_compare_texts() {
    let parts = vec!["a".to_owned(), "bc".to_owned(), "d".to_owned()];
    assert_eq!(text::join_strings(&parts, ", "), "a, bc, d");
    assert_eq!(text::join_strings(&Vec::new(), ", "), "");
    assert!(text::same_text("abc", "abc"));
    assert!(!text::same_text("abc", "abd"));
    let a: Vec<char> = "apple".chars().collect();
    let b: Vec<char> = "apples".chars().collect();
    let c: Vec<char> = "b".chars().collect();
    assert!(text::lex_le_chars(&a, &b));
    assert!(!text::lex_le_chars(&b, &a));
    assert!(text::lex_le_chars(&b, &c));
    assert!(text::lex_le_chars(&a, &a));
    let word: Vec<char> = "vv1.v0::".chars().collect();
    assert_eq!(text::remove_char(&text::trim_end_char(&word, ':'), 'v'), vec!['1', '.', '0']);
}

#[test]
fn versions_parse_into_their_parts() {
    let version = v("1.2.3-alpha.1+build.5");
    assert_eq!(version.major(), 1);
    assert_eq!(version.minor(), 2);
    assert_eq!(version.patch(), 3);
    assert_eq!(version.pre(), "alpha.1");
    assert_eq!(version.build(), "build.5");
    assert_eq!(version.to_string(), "1.2.3-alpha.1+build.5");
    assert_eq!(v("0.16.1").to_string(), "0.16.1");
    assert_eq!(Version::new(4, 5, 6), v("4.5.6"));
}

#[test]
fn version_errors_carry_semvers_message() {
    assert_eq!(
        Version::parse("1.0").unwrap_err(),
        "unexpected end of input while parsing minor version number"
    );
    assert_eq!(
        Version::parse("1.0.01").unwrap_err(),
        "invalid leading zero in patch version number"
    );
    assert!(Version::parse("").is_err());
}

#[test]
fn versions_order_like_semver() {
    let ordered = [
        "1.0.0-alpha",
        "1.0.0-alpha.1",
        "1.0.0-alpha.beta",
        "1.0.0-beta",
        "1.0.0-beta.2",
        "1.0.0-beta.11",
        "1.0.0-rc.1",
        "1.0.0",
        "1.0.1",
        "1.2.0",
        "2.0.0",
    ];
    for i in 0..ordered.len() {
        for j in 0..ordered.len() {
            let expected = if i < j {
                -1
            } else if i > j {
                1
            } else {
                0
            };
            assert_eq!(v(ordered[i]).order(&v(ordered[j])), expected, "{} vs {}", ordered[i], ordered[j]);
        }
    }
    assert_eq!(v("1.20.0").order(&v("1.20.0+bc17664")), -1);
    assert_eq!(v("1.20.0+bc17664").order(&v("1.20.0+c144a98")), -1);
    assert_eq!(v("1.20.0+c144a98").order(&v("1.20.0+c144a98")), 0);
}

#[test]
fn set_info_follows_the_order_of_versions() {
    let mut p = PackageInfo::new("x".to_owned(), v("1.0.0-rc.1"));
    assert_eq!(p.info, VersionCheck::UnAvailable);
    p.set_info(&v("1.0.0"));
    assert_eq!(p.info, VersionCheck::NewerAvailable(v("1.0.0")));
    p.set_info(&v("1.0.0-beta"));
    assert_eq!(p.info, VersionCheck::LocalNewer);
    p.set_info(&v("1.0.0-rc.1"));
    assert_eq!(p.info, VersionCheck::UpToDate);
    assert_eq!(VersionCheck::default(), VersionCheck::UnAvailable);
}

#[test]
fn latest_installable_version_needs_a_stable_release() {
    let err = latest_installable_version("2.0.0-rc.1", None).unwrap_err();
    assert_eq!(err, Error::NoStableVersion("2.0.0-rc.1".to_owned()));
    assert_eq!(
        err.message(),
        "No stable version is available; latest release is 2.0.0-rc.1"
    );

    let err = latest_installable_version("2.0.0", Some("two")).unwrap_err();
    assert_eq!(err.message(), "Failed to parse latest stable version");
    assert_eq!(
        err.full_message(),
        "Failed to parse latest stable version: unexpected character 't' while parsing major version number"
    );

    let latest = latest_installable_version("2.0.0-rc.1", Some("1.9.3")).unwrap();
    assert_eq!(latest, Version::new(1, 9, 3));
}

#[test]
fn every_error_has_its_message() {
    let cases = [
        (Error::InvalidPackageLine("x".to_owned()), "Failed to parse package line: x"),
        (Error::MalformedPackageLine("x".to_owned()), "Invalid package line: x"),
        (Error::InvalidVersion("bad".to_owned()), "bad"),
        (Error::InstalledBins("boom".to_owned()), "Failed to get installed binaries: boom"),
        (Error::UpdateFailed, "Failed to update packages"),
        (Error::InstallFailed("nope".to_owned()), "Failed to install cargo-binstall: nope"),
        (Error::Environment("tty".to_owned()), "tty"),
        (Error::UnexpectedEvent, "unexpected event for the current step"),
    ];
    for (err, message) in cases {
        assert_eq!(err.message(), message);
        assert_eq!(err.full_message(), message);
    }
}

#[test]
fn package_lines_with_a_path_or_without_colon() {
    let p = logic::parse_package_line("my-tool v0.1.0 (/home/me/my-tool):").unwrap();
    assert_eq!(p.name, "my-tool");
    assert_eq!(p.version, Version::new(0, 1, 0));
    let p = logic::parse_package_line("cargo-v v2.0.0").unwrap();
    assert_eq!(p.name, "cargo-v");
    assert_eq!(p.version, Version::new(2, 0, 0));
    assert!(logic::parse_package_line("a b c d").is_err());
    assert!(logic::parse_package_line("").is_err());
    assert!(logic::parse_package_line("    cargo-add").is_err());
}

#[test]
fn strict_package_lines_need_two_words_and_a_colon() {
    let p = utils::parse_package_line("tester v1.10.18:").unwrap();
    assert_eq!(p.version, Version::new(1, 10, 18));
    let err = utils::parse_package_line("tester v1.10.18").unwrap_err();
    assert_eq!(err.message(), "Invalid package line: tester v1.10.18");
    assert!(utils::parse_package_line("my-tool v0.1.0 (/path):").is_err());
}

#[test]
fn statuses_sort_newer_first_and_keep_ties_in_order() {
    let output = "a v1.0.0:\nb v1.0.0:\nc v1.0.0:\nd v1.0.0:\ne v1.0.0:\n";
    let infos = logic::get_package_infos_with_latest(output, |p: &PackageInfo| {
        match p.name.as_str() {
            "a" => Ok(v("1.0.0")),
            "b" => Ok(v("3.0.0")),
            "c" => Ok(v("0.5.0")),
            "d" => Ok(v("2.0.0")),
            _ => Err(()),
        }
    });
    let names: Vec<&str> = infos.iter().map(|p| p.name.as_str()).collect();
    assert_eq!(names, vec!["d", "b", "a", "c", "e"]);

    let same = logic::get_package_infos_with_latest("x v1.0.0:\ny v2.0.0:\n", |_: &PackageInfo| {
        Ok::<Version, ()>(v("0.1.0"))
    });
    let names: Vec<&str> = same.iter().map(|p| p.name.as_str()).collect();
    assert_eq!(names, vec!["x", "y"]);
}

#[test]
fn missing_outcomes_leave_packages_unavailable() {
    let pkgs = logic::parse_package_lines("a v1.0.0:\nb v1.0.0:\n");
    let sorted = logic::apply_latest_versions(pkgs, vec![None]);
    assert!(sorted.iter().all(|p| p.info == VersionCheck::UnAvailable));
    let names: Vec<&str> = sorted.iter().map(|p| p.name.as_str()).collect();
    assert_eq!(names, vec!["a", "b"]);
}

#[test]
fn update_asks_before_going_ahead() {
    let packages = vec![
        pkg("cargo-binstall", v("1.0.0"), VersionCheck::UpToDate),
        pkg("a", v("1.0.0"), VersionCheck::NewerAvailable(v("1.1.0"))),
        pkg("b", v("1.0.0"), VersionCheck::NewerAvailable(v("2.0.0"))),
    ];
    let step = logic::update(&packages, false);
    assert_eq!(texts(&step.logs), vec!["Updating packages: a, b"]);
    match &step.effect {
        Effect::Confirm(q) => assert_eq!(q, "Do you want to continue?"),
        other => panic!("unexpected effect: {other:?}"),
    }
    let no = logic::update(&packages, false)
        .state
        .resume(Event::Answered(Ok(false)));
    assert_eq!(texts(&no.logs), vec!["Aborting update"]);
    assert!(matches!(no.effect, Effect::Finish(Ok(()))));

    let yes = step.state.resume(Event::Answered(Ok(true)));
    assert_eq!(texts(&yes.logs), vec!["Using cargo-binstall to update packages"]);
    match &yes.effect {
        Effect::RunCargo { args, .. } => assert_eq!(args, &vec!["binstall", "a", "b", "-y"]),
        other => panic!("unexpected effect: {other:?}"),
    }
    let done = yes
        .state
        .resume(Event::CargoFinished(Ok(out(true, "", ""))));
    assert_eq!(texts(&done.logs), vec!["Packages updated successfully: a, b"]);
    assert!(matches!(done.effect, Effect::Finish(Ok(()))));
}

#[test]
fn update_reports_failures_of_the_environment() {
    let packages = vec![pkg("a", v("1.0.0"), VersionCheck::NewerAvailable(v("1.1.0")))];
    let step = logic::update(&packages, false);
    let failed = step.state.resume(Event::Answered(Err("no terminal".to_owned())));
    match failed.effect {
        Effect::Finish(Err(e)) => assert_eq!(e, Error::Environment("no terminal".to_owned())),
        other => panic!("unexpected effect: {other:?}"),
    }
    let odd = logic::update(&packages, false).state.resume(Event::Shown);
    match odd.effect {
        Effect::Finish(Err(e)) => assert_eq!(e, Error::UnexpectedEvent),
        other => panic!("unexpected effect: {other:?}"),
    }
}

#[test]
fn strict_update_never_updates_binstall_itself() {
    let packages = vec![
        pkg("cargo-binstall", v("1.0.0"), VersionCheck::NewerAvailable(v("1.1.0"))),
        pkg("cargo-deny", v("0.16.0"), VersionCheck::NewerAvailable(v("0.16.1"))),
    ];
    let step = utils::update(&packages);
    assert_eq!(step.logs[0].level, LogLevel::Print);
    assert_eq!(
        step.logs[0].text,
        "cargo-binstall cannot update itself, please update it manually"
    );
    match &step.effect {
        Effect::RunCargo { args, .. } => assert_eq!(args, &vec!["binstall", "cargo-deny", "-y"]),
        other => panic!("unexpected effect: {other:?}"),
    }
    let only_binstall = utils::update(&packages[..1]);
    assert_eq!(
        texts(&only_binstall.logs),
        vec![
            "cargo-binstall cannot update itself, please update it manually",
            "No packages to update"
        ]
    );
}

#[test]
fn strict_list_prints_headings_and_keeps_order() {
    let packages = vec![
        pkg("z", v("1.0.0"), VersionCheck::UpToDate),
        pkg("a", v("1.0.0"), VersionCheck::NewerAvailable(v("1.1.0"))),
    ];
    let report = utils::list_pkgs(packages, false);
    assert_eq!(report.logs[0].level, LogLevel::Print);
    assert_eq!(report.logs[0].text, "All installed packages:");
    let table = report.table.unwrap();
    let names: Vec<String> = table.rows.iter().map(|r| r[0].content()).collect();
    assert_eq!(names, vec!["z", "a"]);
    assert!(report.count_line.is_none());
}

#[test]
fn list_counts_all_packages_when_showing_outdated_ones() {
    let packages = vec![
        pkg("z", v("1.0.0"), VersionCheck::UpToDate),
        pkg("a", v("1.0.0"), VersionCheck::NewerAvailable(v("1.1.0"))),
        pkg("m", v("1.0.0"), VersionCheck::LocalNewer),
    ];
    let report = logic::list_pkgs(packages, true, false);
    let table = report.table.unwrap();
    assert_eq!(table.rows.len(), 1);
    assert_eq!(table.rows[0][1].content(), "1.0.0");
    assert_eq!(table.rows[0][2].content(), "Update Available (1.1.0)");
    assert_eq!(report.count_line.unwrap(), "Count: 3");
}

#[test]
fn init_installs_binstall_after_asking() {
    let cli = Cli::Init(Opts {
        filter: LevelFilter::Info,
    });
    let step = cli.run(RunState::Start, Event::Started);
    let step = cli.run(step.state, Event::LoggerReady(Ok(())));
    let step = cli.run(step.state, Event::BinstallFound(false));
    assert_eq!(texts(&step.logs), vec!["cargo-binstall is not installed"]);
    assert!(matches!(&step.effect, Effect::Confirm(q) if q == "Do you want to install cargo-binstall now?"));
    let step = cli.run(step.state, Event::Answered(Ok(true)));
    match &step.effect {
        Effect::RunCargo { args, captured } => {
            assert_eq!(args, &vec!["install", "cargo-binstall"]);
            assert!(!captured);
        }
        other => panic!("unexpected effect: {other:?}"),
    }
    let failed = cli.run(step.state, Event::CargoFinished(Ok(out(false, "", ""))));
    match failed.effect {
        Effect::Finish(Err(e)) => assert_eq!(e.message(), "Failed to install cargo-binstall: "),
        other => panic!("unexpected effect: {other:?}"),
    }
}

#[test]
fn init_aborts_when_refused() {
    let step = logic::init();
    assert!(matches!(step.effect, Effect::FindBinstall));
    let step = step.state.resume(Event::BinstallFound(false));
    let step = step.state.resume(Event::Answered(Ok(false)));
    assert_eq!(texts(&step.logs), vec!["Aborting installation"]);
    assert!(matches!(step.effect, Effect::Finish(Ok(()))));
}

#[test]
fn run_stops_when_the_logger_fails() {
    let cli = Cli::List(ListOpts {
        filter: LevelFilter::Warn,
        outdated: true,
        uncondensed: false,
    });
    let step = cli.run(RunState::Start, Event::Started);
    assert!(matches!(step.effect, Effect::InitLogger(LevelFilter::Warn)));
    let step = cli.run(step.state, Event::LoggerReady(Err("no logger".to_owned())));
    match step.effect {
        Effect::Finish(Err(e)) => assert_eq!(e, Error::Environment("no logger".to_owned())),
        other => panic!("unexpected effect: {other:?}"),
    }
}

#[test]
fn run_update_logs_occurrences_then_updates() {
    let cli = Cli::Update(UpdateOpts {
        filter: LevelFilter::Info,
        no_confirm: true,
    });
    let step = cli.run(RunState::Start, Event::Started);
    let step = cli.run(step.state, Event::LoggerReady(Ok(())));
    let listing = "cargo-binstall v1.0.0:\n    cargo-binstall\nripgrep v13.0.0:\n    rg\n";
    let step = cli.run(step.state, Event::CargoFinished(Ok(out(true, listing, ""))));
    match &step.effect {
        Effect::LookUpLatest(names) => assert_eq!(names, &vec!["cargo-binstall", "ripgrep"]),
        other => panic!("unexpected effect: {other:?}"),
    }
    let step = cli.run(
        step.state,
        Event::LatestVersions(vec![Some(v("1.0.0")), Some(v("14.1.0"))]),
    );
    assert_eq!(
        texts(&step.logs),
        vec![
            "ripgrep has a newer version available",
            "1/2 packages are up-to-date",
            "Updating packages: ripgrep",
            "Using cargo-binstall to update packages",
        ]
    );
    match &step.effect {
        Effect::RunCargo { args, captured } => {
            assert_eq!(args, &vec!["binstall", "ripgrep", "-y"]);
            assert!(captured);
        }
        other => panic!("unexpected effect: {other:?}"),
    }
    let step = cli.run(step.state, Event::CargoFinished(Err("no cargo".to_owned())));
    match step.effect {
        Effect::Finish(Err(e)) => assert_eq!(e, Error::Environment("no cargo".to_owned())),
        other => panic!("unexpected effect: {other:?}"),
    }
}
