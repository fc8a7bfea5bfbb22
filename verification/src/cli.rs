use vstd::prelude::*;

use crate::data::{has_update, CellView, PackageInfo, PackageView};
use crate::error::{Error, ErrorView};
use crate::flow::{
    info, log_views, Effect, EffectView, Event, EventView, LogLine, LogView, Step, StepView,
    TablePreset,
};
use crate::logic::{
    apply_latest_versions, init, init_resume, init_start, installed_bins_from_output,
    list_pkgs, list_report, listed_packages, looked_up, occurrence_logs, package_views,
    parse_package_lines, sort_by_status, update, update_resume, update_start,
    version_occurrences, InitState, UpdateState, UpdateView, lemma_list_shows_all,
    lemma_list_shows_only_outdated, lemma_package_infos_keep_packages,
    has_row_of, lemma_same_packages_contain, row_shows, rows_in_order, shows_outdated_of,
    table_shows,
};
use crate::text::{decimal, string_views};
use crate::version::VersionView;

verus! {

/// `log::LevelFilter`, the verbosity that the logger is set up with. The library only carries
/// it from the options to the logger; nothing is claimed of it.
#[verifier::external_type_specification]
#[verifier::external_body]
pub struct ExLevelFilter(log::LevelFilter);

/// The subcommands of `cargo binlist`.
pub enum Cli {
    /// List all installed crates
    List(ListOpts),
    /// Update all crates which are outdated
    Update(UpdateOpts),
    /// Initialize everything to use this crate
    Init(Opts),
}

/// The options of `cargo binlist list`.
pub struct ListOpts {
    /// Verbosity level
    pub filter: log::LevelFilter,
    /// Show only outdated crates
    pub outdated: bool,
    /// Use a uncondensed layout
    pub uncondensed: bool,
}

/// The options of `cargo binlist update`.
pub struct UpdateOpts {
    /// Verbosity level
    pub filter: log::LevelFilter,
    /// Update without confirmation
    pub no_confirm: bool,
}

/// The options of `cargo binlist init`.
pub struct Opts {
    /// Verbosity level
    pub filter: log::LevelFilter,
}

impl Cli {
    /// Whether the subcommand works on the list of installed binaries.
    pub fn needs_binlist(&self) -> (r: bool)
        ensures
            r == !(self is Init),
    {
        !matches!(self, Cli::Init(_))
    }

    /// The verbosity that the subcommand was given.
    pub fn get_filter(&self) -> (r: log::LevelFilter)
        ensures
            r == match self {
                Cli::List(opts) => opts.filter,
                Cli::Update(opts) => opts.filter,
                Cli::Init(opts) => opts.filter,
            },
    {
        match self {
            Cli::List(opts) => opts.filter,
            Cli::Update(opts) => opts.filter,
            Cli::Init(opts) => opts.filter,
        }
    }
}

/// Where a run of the tool stands.
#[derive(Debug)]
pub enum RunState {
    /// It has not started.
    Start,
    /// It sets up the logger.
    AwaitLogger,
    /// It asked cargo for the installed binaries.
    AwaitInstalled,
    /// It looks up the latest versions of these installed packages.
    AwaitLatest(Vec<PackageInfo>),
    /// It shows the list of packages.
    AwaitShown,
    /// It updates packages.
    Update(UpdateState),
    /// It sets things up.
    Init(InitState),
    /// It is over.
    Done,
}

/// The mathematical value of a [`RunState`].
pub enum RunView {
    Start,
    AwaitLogger,
    AwaitInstalled,
    AwaitLatest(Seq<PackageView>),
    AwaitShown,
    Update(UpdateView),
    Init(InitState),
    Done,
}

impl View for RunState {
    type V = RunView;

    open spec fn view(&self) -> RunView {
        match self {
            RunState::Start => RunView::Start,
            RunState::AwaitLogger => RunView::AwaitLogger,
            RunState::AwaitInstalled => RunView::AwaitInstalled,
            RunState::AwaitLatest(ps) => RunView::AwaitLatest(package_views(ps@)),
            RunState::AwaitShown => RunView::AwaitShown,
            RunState::Update(u) => RunView::Update(u@),
            RunState::Init(i) => RunView::Init(*i),
            RunState::Done => RunView::Done,
        }
    }
}

/// The verbosity of a subcommand.
pub open spec fn filter_of(cli: Cli) -> log::LevelFilter {
    match cli {
        Cli::List(opts) => opts.filter,
        Cli::Update(opts) => opts.filter,
        Cli::Init(opts) => opts.filter,
    }
}

/// The arguments of the cargo command that lists the installed binaries.
pub open spec fn list_args() -> Seq<Seq<char>> {
    seq!["install"@, "--list"@]
}

/// A run that ends here with this outcome.
pub open spec fn run_finish(outcome: Result<(), ErrorView>) -> StepView<RunView> {
    StepView { state: RunView::Done, logs: Seq::empty(), effect: EffectView::Finish(outcome) }
}

/// A step of the update command as a step of the run.
pub open spec fn in_update(s: StepView<UpdateView>) -> StepView<RunView> {
    StepView { state: RunView::Update(s.state), logs: s.logs, effect: s.effect }
}

/// A step of the init command as a step of the run.
pub open spec fn in_init(s: StepView<InitState>) -> StepView<RunView> {
    StepView { state: RunView::Init(s.state), logs: s.logs, effect: s.effect }
}

/// The step of a run of the subcommand `cli` that follows the event `e` in state `s`: set up
/// the logger; for list and update, ask cargo for the installed binaries, look up their latest
/// versions, sort them by status, then show them or update them; for init, set things up.
pub open spec fn run_step(cli: Cli, s: RunView, e: EventView) -> StepView<RunView> {
    match (s, e) {
        (RunView::Start, EventView::Started) => StepView {
            state: RunView::AwaitLogger,
            logs: Seq::empty(),
            effect: EffectView::InitLogger(filter_of(cli)),
        },
        (RunView::AwaitLogger, EventView::LoggerReady(Err(m))) => run_finish(
            Err(ErrorView::Environment(m)),
        ),
        (RunView::AwaitLogger, EventView::LoggerReady(Ok(()))) => if cli is Init {
            in_init(init_start())
        } else {
            StepView {
                state: RunView::AwaitInstalled,
                logs: Seq::empty(),
                effect: EffectView::RunCargo { args: list_args(), captured: true },
            }
        },
        (RunView::AwaitInstalled, EventView::CargoFinished(Err(m))) => run_finish(
            Err(ErrorView::Environment(m)),
        ),
        (RunView::AwaitInstalled, EventView::CargoFinished(Ok(out))) => if out.success {
            let ps = listed_packages(out.stdout);
            StepView {
                state: RunView::AwaitLatest(ps),
                logs: Seq::empty(),
                effect: EffectView::LookUpLatest(ps.map_values(|p: PackageView| p.name)),
            }
        } else {
            run_finish(Err(ErrorView::InstalledBins(out.stderr)))
        },
        (RunView::AwaitLatest(ps), EventView::LatestVersions(found)) => {
            let packages = sort_by_status(looked_up(ps, found));
            match cli {
                Cli::List(opts) => StepView {
                    state: RunView::AwaitShown,
                    logs: Seq::empty(),
                    effect: EffectView::ShowList(
                        list_report(packages, opts.outdated, opts.uncondensed),
                    ),
                },
                Cli::Update(opts) => {
                    let first = update_start(packages, opts.no_confirm);
                    StepView {
                        state: RunView::Update(first.state),
                        logs: occurrence_logs(packages) + first.logs,
                        effect: first.effect,
                    }
                },
                Cli::Init(_) => run_finish(Err(ErrorView::UnexpectedEvent)),
            }
        },
        (RunView::AwaitShown, EventView::Shown) => run_finish(Ok(())),
        (RunView::Update(u), e) => in_update(update_resume(u, e)),
        (RunView::Init(i), e) => in_init(init_resume(i, e)),
        _ => run_finish(Err(ErrorView::UnexpectedEvent)),
    }
}

fn finish_run(outcome: Result<(), Error>) -> (r: Step<RunState>)
    ensures
        r@ == run_finish(
            match outcome {
                Ok(()) => Ok(()),
                Err(e) => Err(e@),
            },
        ),
{
    let logs: Vec<LogLine> = Vec::new();
    assert(log_views(logs@) =~= Seq::<LogView>::empty());
    Step { state: RunState::Done, logs, effect: Effect::Finish(outcome) }
}

fn in_update_step(s: Step<UpdateState>) -> (r: Step<RunState>)
    ensures
        r@ == in_update(s@),
{
    Step { state: RunState::Update(s.state), logs: s.logs, effect: s.effect }
}

fn in_init_step(s: Step<InitState>) -> (r: Step<RunState>)
    ensures
        r@ == in_init(s@),
{
    Step { state: RunState::Init(s.state), logs: s.logs, effect: s.effect }
}

fn package_names(ps: &Vec<PackageInfo>) -> (r: Vec<String>)
    ensures
        string_views(r@) == package_views(ps@).map_values(|p: PackageView| p.name),
{
    let mut r: Vec<String> = Vec::new();
    let mut i: usize = 0;
    while i < ps.len()
        invariant
            i <= ps.len(),
            string_views(r@) == package_views(ps@).map_values(|p: PackageView| p.name).take(
                i as int,
            ),
        decreases ps.len() - i,
    {
        let ghost before = r@;
        r.push(ps[i].name.clone());
        assert(string_views(r@) =~= string_views(before).push(ps@[i as int].name@));
        i += 1;
        assert(package_views(ps@).map_values(|p: PackageView| p.name).take(i as int)
            =~= package_views(ps@).map_values(|p: PackageView| p.name).take(i - 1).push(
            ps@[i - 1].name@,
        ));
    }
    assert(package_views(ps@).map_values(|p: PackageView| p.name).take(ps.len() as int)
        =~= package_views(ps@).map_values(|p: PackageView| p.name));
    r
}

impl Cli {
    /// Runs the subcommand one step: given the state it is in and the event that answers the
    /// work it asked for last, it says what to log and what to do next, and the state it then
    /// is in. A run starts in [`RunState::Start`] with [`Event::Started`] and ends with
    /// [`Effect::Finish`].
    pub fn run(&self, state: RunState, event: Event) -> (r: Step<RunState>)
        ensures
            r@ == run_step(*self, state@, event@),
    {
        match (state, event) {
            (RunState::Start, Event::Started) => {
                let logs: Vec<LogLine> = Vec::new();
                assert(log_views(logs@) =~= Seq::<LogView>::empty());
                Step { state: RunState::AwaitLogger, logs, effect: Effect::InitLogger(self.get_filter()) }
            },
            (RunState::AwaitLogger, Event::LoggerReady(Err(m))) => finish_run(
                Err(Error::Environment(m)),
            ),
            (RunState::AwaitLogger, Event::LoggerReady(Ok(()))) => {
                if self.needs_binlist() {
                    let logs: Vec<LogLine> = Vec::new();
                    assert(log_views(logs@) =~= Seq::<LogView>::empty());
                    let mut args: Vec<String> = Vec::new();
                    args.push("install".to_owned());
                    args.push("--list".to_owned());
                    assert(string_views(args@) =~= list_args());
                    Step {
                        state: RunState::AwaitInstalled,
                        logs,
                        effect: Effect::RunCargo { args, captured: true },
                    }
                } else {
                    in_init_step(init())
                }
            },
            (RunState::AwaitInstalled, Event::CargoFinished(Err(m))) => finish_run(
                Err(Error::Environment(m)),
            ),
            (RunState::AwaitInstalled, Event::CargoFinished(Ok(out))) => {
                match installed_bins_from_output(out) {
                    Err(e) => finish_run(Err(e)),
                    Ok(text) => {
                        let pkgs = parse_package_lines(text.as_str());
                        let names = package_names(&pkgs);
                        let logs: Vec<LogLine> = Vec::new();
                        assert(log_views(logs@) =~= Seq::<LogView>::empty());
                        Step {
                            state: RunState::AwaitLatest(pkgs),
                            logs,
                            effect: Effect::LookUpLatest(names),
                        }
                    },
                }
            },
            (RunState::AwaitLatest(pkgs), Event::LatestVersions(found)) => {
                let packages = apply_latest_versions(pkgs, found);
                match self {
                    Cli::List(opts) => {
                        let logs: Vec<LogLine> = Vec::new();
                        assert(log_views(logs@) =~= Seq::<LogView>::empty());
                        Step {
                            state: RunState::AwaitShown,
                            logs,
                            effect: Effect::ShowList(
                                list_pkgs(packages, opts.outdated, opts.uncondensed),
                            ),
                        }
                    },
                    Cli::Update(opts) => {
                        let mut logs = version_occurrences(packages.as_slice());
                        let first = update(packages.as_slice(), opts.no_confirm);
                        let ghost occurrences = logs@;
                        let mut rest = first.logs;
                        let ghost rest_before = rest@;
                        logs.append(&mut rest);
                        assert(log_views(logs@) =~= log_views(occurrences) + log_views(rest_before));
                        Step { state: RunState::Update(first.state), logs, effect: first.effect }
                    },
                    Cli::Init(_) => finish_run(Err(Error::UnexpectedEvent)),
                }
            },
            (RunState::AwaitShown, Event::Shown) => finish_run(Ok(())),
            (RunState::Update(u), e) => in_update_step(u.resume(e)),
            (RunState::Init(i), e) => in_init_step(i.resume(e)),
            _ => finish_run(Err(Error::UnexpectedEvent)),
        }
    }
}

/// Once the latest versions are known, the list command shows what its options ask for: all
/// the packages as looked up, or, with `outdated`, only packages that have a newer version; the
/// full layout exactly when `uncondensed`; and the count of all installed packages.
pub proof fn lemma_run_lists_as_asked(
    opts: ListOpts,
    ps: Seq<PackageView>,
    found: Seq<Option<VersionView>>,
)
    ensures
        ({
            let step = run_step(Cli::List(opts), RunView::AwaitLatest(ps), EventView::LatestVersions(found));
            let now = looked_up(ps, found);
            step.effect matches EffectView::ShowList(rep) && {
                &&& rep.table matches Some(t) ==> t.preset == (if opts.uncondensed {
                    TablePreset::Full
                } else {
                    TablePreset::FullCondensed
                })
                &&& !opts.outdated && ps.len() > 0 ==> rep.logs == seq![
                    info("All installed packages:"@),
                ]
                &&& !opts.outdated && ps.len() > 0 ==> (rep.table matches Some(t) && table_shows(
                    t,
                    now,
                ) && t.rows.len() == ps.len())
                &&& opts.outdated ==> (rep.table matches Some(t) ==> {
                    &&& forall|i: int|
                        0 <= i < t.rows.len() ==> #[trigger] shows_outdated_of(t.rows[i], now)
                    &&& forall|k: int|
                        0 <= k < now.len() && has_update(now[k].info) ==> #[trigger] has_row_of(
                            t.rows,
                            now[k],
                        )
                })
                &&& rep.count_line matches Some(c) ==> c == "Count: "@ + decimal(ps.len())
            }
        }),
{
    let now = looked_up(ps, found);
    let sorted = sort_by_status(now);
    lemma_package_infos_keep_packages(ps, found);
    if !opts.outdated && ps.len() > 0 {
        lemma_list_shows_all(sorted, opts.uncondensed);
        let t = list_report(sorted, false, opts.uncondensed).table->0;
        let q = choose|q: Seq<PackageView>| #[trigger] rows_in_order(t, sorted, q);
        assert(rows_in_order(t, now, q));
    }
    if opts.outdated {
        lemma_list_shows_only_outdated(sorted, opts.uncondensed);
        let rep = list_report(sorted, true, opts.uncondensed);
        if rep.table is Some {
            lemma_rows_among(rep.table->0.rows, sorted, now);
        }
    }
}

/// Rows that each show a package with a newer version from `a`, and that show each such
/// package of `a`, do the same for `b`, where `b` holds the same packages as `a`.
proof fn lemma_rows_among(rows: Seq<Seq<CellView>>, a: Seq<PackageView>, b: Seq<PackageView>)
    requires
        a.to_multiset() == b.to_multiset(),
        forall|i: int| 0 <= i < rows.len() ==> #[trigger] shows_outdated_of(rows[i], a),
        forall|k: int|
            0 <= k < a.len() && has_update(a[k].info) ==> #[trigger] has_row_of(rows, a[k]),
    ensures
        forall|i: int| 0 <= i < rows.len() ==> #[trigger] shows_outdated_of(rows[i], b),
        forall|k: int|
            0 <= k < b.len() && has_update(b[k].info) ==> #[trigger] has_row_of(rows, b[k]),
{
    assert forall|i: int| 0 <= i < rows.len() implies #[trigger] shows_outdated_of(rows[i], b) by {
        assert(shows_outdated_of(rows[i], a));
        let k = choose|k: int|
            0 <= k < a.len() && has_update(a[k].info) && #[trigger] row_shows(rows[i], a[k]);
        assert(a.contains(a[k]));
        lemma_same_packages_contain(a, b, a[k]);
        let m = choose|m: int| 0 <= m < b.len() && b[m] == a[k];
        assert(row_shows(rows[i], b[m]));
    }
    assert forall|k: int| 0 <= k < b.len() && has_update(b[k].info) implies #[trigger] has_row_of(
        rows,
        b[k],
    ) by {
        assert(b.contains(b[k]));
        lemma_same_packages_contain(b, a, b[k]);
        let m = choose|m: int| 0 <= m < a.len() && a[m] == b[k];
        assert(has_row_of(rows, a[m]));
    }
}

} // verus!
