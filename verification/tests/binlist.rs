use cargo_binlist::cli::{Cli, ListOpts, Opts, RunState, UpdateOpts};
use cargo_binlist::data::{CellAttribute, CellColor, PackageInfo, StyledCell, VersionCheck};
use cargo_binlist::flow::{CargoOutput, Effect, Event, LogLevel, Step, TablePreset};
use cargo_binlist::logic;
use cargo_binlist::Version;
use log::LevelFilter;

fn cargo_output(success: bool, stdout: &str, stderr: &str) -> CargoOutput {
    CargoOutput {
        success,
        stdout: stdout.to_owned(),
        stderr: stderr.to_owned(),
    }
}

fn log_texts(logs: &[cargo_binlist::flow::LogLine]) -> Vec<String> {
    logs.iter().map(|l| l.text.clone()).collect()
}

#[test]
fn test_get_package_infos() {
    let output = r"
cargo-binstall v1.10.18:
    cargo-binstall
cargo-bloat v0.12.1:
    cargo-bloat
cargo-deny v0.16.1:
    cargo-deny
cargo-edit v0.13.0:
    cargo-add
    cargo-rm
    cargo-set-version
    cargo-upgrade
";

    let mut parsed = logic::get_package_infos_with_latest(output, |pkg: &PackageInfo| {
        let version = match pkg.name.as_str() {
            "cargo-binstall" => Version::new(1, 10, 18),
            "cargo-bloat" => Version::new(0, 12, 2),
            "cargo-deny" => Version::new(0, 16, 1),
            "cargo-edit" => Version::new(0, 12, 9),
            _ => return Err("unexpected package".to_owned()),
        };
        Ok(version)
    });
    parsed.sort_by(|a, b| a.name.cmp(&b.name));
    assert_eq!(parsed.len(), 4);
    assert_eq!(parsed[0].name, "cargo-binstall");
    assert_eq!(parsed[0].version.to_string(), "1.10.18");
    assert_eq!(parsed[1].name, "cargo-bloat");
    assert_eq!(parsed[1].version.to_string(), "0.12.1");
    assert_eq!(parsed[2].name, "cargo-deny");
    assert_eq!(parsed[2].version.to_string(), "0.16.1");
    assert_eq!(parsed[3].name, "cargo-edit");
    assert_eq!(parsed[3].version.to_string(), "0.13.0");

    assert!(matches!(parsed[0].info, VersionCheck::UpToDate));
    assert!(matches!(parsed[1].info, VersionCheck::NewerAvailable(_)));
    assert!(matches!(parsed[2].info, VersionCheck::UpToDate));
    assert!(matches!(parsed[3].info, VersionCheck::LocalNewer));
}

#[test]
fn test_get_package_infos_ignores_invalid_lines_and_failed_lookups() {
    let output = r"
not a package
cargo-deny v0.16.1:
    cargo-deny
";

    let parsed = logic::get_package_infos_with_latest(output, |_: &PackageInfo| {
        Err::<Version, String>("crate is unavailable".to_owned())
    });

    assert_eq!(parsed.len(), 1);
    assert_eq!(parsed[0].name, "cargo-deny");
    assert_eq!(parsed[0].info, VersionCheck::UnAvailable);
}

#[test]
fn test_parse_package_line() {
    let line = "tester v1.10.18:";
    let parsed = logic::parse_package_line(line).unwrap();
    assert_eq!(parsed.name, "tester");
    assert_eq!(parsed.version.to_string(), "1.10.18");
}

#[test]
fn test_parse_package_line_invalid() {
    let line = "not a package line";
    let err = logic::parse_package_line(line).err().unwrap();
    assert!(err.message().contains("Failed to parse package line"));
}

#[test]
fn test_parse_package_line_invalid_version() {
    let err = logic::parse_package_line("tester not-a-version:")
        .err()
        .unwrap();
    assert!(
        err.message().contains("unexpected character"),
        "unexpected parse error: {}",
        err.message()
    );
}

#[test]
fn test_packageinfo() {
    let mut pkg = PackageInfo::new("serde".to_owned(), Version::new(1, 0, 0));
    pkg.set_info(&Version::new(1, 0, 1));
    assert!(matches!(pkg.info, VersionCheck::NewerAvailable(_)));

    pkg.set_info(&Version::new(1, 0, 0));
    assert_eq!(pkg.info, VersionCheck::UpToDate);

    pkg.set_info(&Version::new(0, 9, 9));
    assert_eq!(pkg.info, VersionCheck::LocalNewer);
}

#[test]
fn test_cli_update() {
    let step = logic::update(&[], true);
    assert!(matches!(step.effect, Effect::Finish(Ok(()))));
}

fn package(name: &str, version: Version, info: VersionCheck) -> PackageInfo {
    PackageInfo {
        name: name.to_owned(),
        version,
        info,
    }
}

#[test]
fn test_update_ignores_packages_without_updates() {
    let packages = vec![
        package("cargo-binstall", Version::new(1, 0, 0), VersionCheck::UpToDate),
        package("cargo-deny", Version::new(0, 16, 1), VersionCheck::LocalNewer),
    ];

    let step = logic::update(&packages, true);

    assert!(matches!(step.effect, Effect::Finish(Ok(()))));
    assert_eq!(log_texts(&step.logs), vec!["No packages to update"]);
}

#[test]
fn test_get_installed_bins_uses_fake_cargo() {
    let output = logic::installed_bins_from_output(cargo_output(
        true,
        "cargo-binstall v1.10.18:\n",
        "",
    ))
    .unwrap();
    assert!(output.contains("cargo-binstall v1.10.18:"));
}

#[test]
fn test_update_uses_fake_cargo_binstall() {
    let packages = vec![
        package(
            "cargo-binstall",
            Version::new(1, 0, 0),
            VersionCheck::NewerAvailable(Version::new(1, 1, 0)),
        ),
        package(
            "cargo-deny",
            Version::new(0, 16, 0),
            VersionCheck::NewerAvailable(Version::new(0, 16, 1)),
        ),
    ];

    let step = logic::update(&packages, true);

    match step.effect {
        Effect::RunCargo { args, captured } => {
            assert!(captured);
            assert_eq!(args, vec!["binstall", "cargo-binstall", "cargo-deny", "-y"]);
        }
        other => panic!("unexpected effect: {other:?}"),
    }
}

#[test]
fn test_get_installed_bins_error_when_cargo_fails() {
    let err = logic::installed_bins_from_output(cargo_output(false, "", "boom\n"))
        .err()
        .unwrap();
    assert!(err.message().contains("Failed to get installed binaries"));
    assert!(err.message().contains("boom"));
}

#[test]
fn test_update_skips_when_cargo_binstall_missing() {
    let packages = vec![package(
        "cargo-deny",
        Version::new(0, 16, 0),
        VersionCheck::NewerAvailable(Version::new(0, 16, 1)),
    )];

    let step = logic::update(&packages, true);

    assert!(matches!(step.effect, Effect::Finish(Ok(()))));
    assert_eq!(
        log_texts(&step.logs),
        vec![
            "Updating packages: cargo-deny",
            "Not updating packages",
            "cargo-binstall is not installed",
            "Run `cargo install cargo-binstall` to install it",
        ]
    );
}

#[test]
fn test_update_returns_error_on_cargo_failure() {
    let packages = vec![package(
        "cargo-binstall",
        Version::new(1, 0, 0),
        VersionCheck::NewerAvailable(Version::new(1, 1, 0)),
    )];

    let step = logic::update(&packages, true);
    assert!(matches!(step.effect, Effect::RunCargo { .. }));
    let next = step
        .state
        .resume(Event::CargoFinished(Ok(cargo_output(false, "", "nope\n"))));

    match next.effect {
        Effect::Finish(Err(err)) => assert!(err.message().contains("Failed to update packages")),
        other => panic!("unexpected effect: {other:?}"),
    }
    assert_eq!(next.logs[0].level, LogLevel::Error);
    assert_eq!(next.logs[0].text, "nope\n");
}

#[test]
fn test_version_occurrences() {
    let pkgs = vec![
        package(
            "cargo-binstall",
            Version::new(1, 10, 18),
            VersionCheck::NewerAvailable(Version::new(1, 10, 19)),
        ),
        package("cargo-bloat", Version::new(0, 12, 1), VersionCheck::UpToDate),
        package("cargo-deny", Version::new(0, 16, 1), VersionCheck::LocalNewer),
        PackageInfo::new("cargo-edit".to_owned(), Version::new(0, 13, 0)),
    ];

    let logs = logic::version_occurrences(&pkgs);
    assert_eq!(
        log_texts(&logs),
        vec![
            "cargo-binstall has a newer version available",
            "1/4 packages are up-to-date",
        ]
    );
    assert_eq!(logs[0].level, LogLevel::Debug);
    assert_eq!(logs[1].level, LogLevel::Info);
}

#[test]
fn test_create_table_sorts_updates_first_and_supports_both_layouts() {
    let packages = vec![
        package("z-current", Version::new(1, 0, 0), VersionCheck::UpToDate),
        package(
            "b-update",
            Version::new(1, 0, 0),
            VersionCheck::NewerAvailable(Version::new(1, 1, 0)),
        ),
        package(
            "a-update",
            Version::new(1, 0, 0),
            VersionCheck::NewerAvailable(Version::new(1, 2, 0)),
        ),
    ];

    let condensed = logic::create_table(&packages, false);
    let uncondensed = logic::create_table(&packages, true);

    let names: Vec<String> = condensed
        .rows
        .iter()
        .map(|row| row[0].content())
        .collect();
    assert_eq!(names, vec!["a-update", "b-update", "z-current"]);
    assert_eq!(condensed.preset, TablePreset::FullCondensed);
    assert_eq!(uncondensed.preset, TablePreset::Full);
    assert_eq!(condensed.rows, uncondensed.rows);
}

#[test]
fn test_list_pkgs_handles_filters_and_empty_results() {
    let current = package("cargo-current", Version::new(1, 0, 0), VersionCheck::UpToDate);
    let update = package(
        "cargo-update",
        Version::new(1, 0, 0),
        VersionCheck::NewerAvailable(Version::new(1, 1, 0)),
    );

    let empty = logic::list_pkgs(Vec::new(), false, false);
    assert_eq!(log_texts(&empty.logs), vec!["No packages found"]);
    assert!(empty.table.is_none());

    let no_updates = logic::list_pkgs(vec![current], true, false);
    assert_eq!(
        log_texts(&no_updates.logs),
        vec!["No packages with newer versions found"]
    );
    assert!(no_updates.table.is_none());

    let updates = logic::list_pkgs(vec![update], true, true);
    assert_eq!(log_texts(&updates.logs), vec!["Packages with newer versions:"]);
    let table = updates.table.unwrap();
    assert_eq!(table.rows.len(), 1);
    assert_eq!(table.preset, TablePreset::Full);
    assert_eq!(updates.count_line.unwrap(), "Count: 1");
}

#[test]
fn test_colored_cell() {
    let local_newer_cell = StyledCell::new("No Update").add_attribute(CellAttribute::Dim);
    let cell = VersionCheck::LocalNewer.colored_cell();
    assert_eq!(cell.content(), "No Update");
    assert_eq!(cell, local_newer_cell);

    let newer_available_cell = StyledCell::new("Update Available (2.0.0)")
        .fg(CellColor::Green)
        .add_attribute(CellAttribute::Bold);
    let cell = VersionCheck::NewerAvailable(Version::new(2, 0, 0)).colored_cell();
    assert_eq!(cell.content(), "Update Available (2.0.0)");
    assert_eq!(cell, newer_available_cell);

    let unavailable_cell = StyledCell::new("Not Available").fg(CellColor::Red);
    let cell = VersionCheck::UnAvailable.colored_cell();
    assert_eq!(cell.content(), "Not Available");
    assert_eq!(cell, unavailable_cell);

    let up_to_date_cell = StyledCell::new("Up to date").fg(CellColor::Blue);
    let cell = VersionCheck::UpToDate.colored_cell();
    assert_eq!(cell.content(), "Up to date");
    assert_eq!(cell, up_to_date_cell);
}

#[test]
fn test_needs_binlist() {
    assert!(Cli::List(ListOpts {
        filter: LevelFilter::Info,
        outdated: false,
        uncondensed: false,
    })
    .needs_binlist());
    assert!(Cli::Update(UpdateOpts {
        filter: LevelFilter::Warn,
        no_confirm: true,
    })
    .needs_binlist());
    assert!(!Cli::Init(Opts {
        filter: LevelFilter::Error,
    })
    .needs_binlist());
}

#[test]
fn test_get_filter() {
    let list = Cli::List(ListOpts {
        filter: LevelFilter::Trace,
        outdated: false,
        uncondensed: false,
    });
    assert_eq!(list.get_filter(), LevelFilter::Trace);

    let update = Cli::Update(UpdateOpts {
        filter: LevelFilter::Debug,
        no_confirm: true,
    });
    assert_eq!(update.get_filter(), LevelFilter::Debug);

    let init = Cli::Init(Opts {
        filter: LevelFilter::Warn,
    });
    assert_eq!(init.get_filter(), LevelFilter::Warn);
}

/// Drives a run through the steps before the outside work of the subcommand itself.
fn run_until_listed(cli: &Cli, installed: CargoOutput) -> Step<RunState> {
    let step = cli.run(RunState::Start, Event::Started);
    assert!(matches!(step.effect, Effect::InitLogger(_)));
    let step = cli.run(step.state, Event::LoggerReady(Ok(())));
    match &step.effect {
        Effect::RunCargo { args, captured } => {
            assert_eq!(args, &vec!["install", "--list"]);
            assert!(captured);
        }
        other => panic!("unexpected effect: {other:?}"),
    }
    cli.run(step.state, Event::CargoFinished(Ok(installed)))
}

#[test]
fn init_succeeds_when_cargo_binstall_is_available() {
    let cli = Cli::Init(Opts {
        filter: LevelFilter::Info,
    });
    let step = cli.run(RunState::Start, Event::Started);
    let step = cli.run(step.state, Event::LoggerReady(Ok(())));
    assert!(matches!(step.effect, Effect::FindBinstall));
    let step = cli.run(step.state, Event::BinstallFound(true));
    assert!(matches!(step.effect, Effect::Finish(Ok(()))));
}

#[test]
fn list_handles_an_empty_installation() {
    let cli = Cli::List(ListOpts {
        filter: LevelFilter::Info,
        outdated: false,
        uncondensed: false,
    });
    let step = run_until_listed(&cli, cargo_output(true, "", ""));
    match &step.effect {
        Effect::LookUpLatest(names) => assert!(names.is_empty()),
        other => panic!("unexpected effect: {other:?}"),
    }
    let step = cli.run(step.state, Event::LatestVersions(Vec::new()));
    match &step.effect {
        Effect::ShowList(report) => {
            assert_eq!(log_texts(&report.logs), vec!["No packages found"]);
        }
        other => panic!("unexpected effect: {other:?}"),
    }
    let step = cli.run(step.state, Event::Shown);
    assert!(matches!(step.effect, Effect::Finish(Ok(()))));
}

#[test]
fn update_handles_an_empty_installation() {
    let cli = Cli::Update(UpdateOpts {
        filter: LevelFilter::Info,
        no_confirm: true,
    });
    let step = run_until_listed(&cli, cargo_output(true, "", ""));
    let step = cli.run(step.state, Event::LatestVersions(Vec::new()));
    assert!(log_texts(&step.logs).contains(&"No packages to update".to_owned()));
    assert!(matches!(step.effect, Effect::Finish(Ok(()))));
}

#[test]
fn list_reports_cargo_failures() {
    let cli = Cli::List(ListOpts {
        filter: LevelFilter::Info,
        outdated: false,
        uncondensed: false,
    });
    let step = run_until_listed(&cli, cargo_output(false, "", "boom\n"));
    match step.effect {
        Effect::Finish(Err(err)) => {
            assert!(err
                .message()
                .contains("Failed to get installed binaries: boom"));
        }
        other => panic!("unexpected effect: {other:?}"),
    }
}
