use vstd::prelude::*;

use crate::data::{check_against, check_ok, check_order, check_rank, has_update, plain_cell, status_cell, CellAttribute, CellView, CheckView, PackageInfo, PackageView, StyledCell, VersionCheck};
use crate::flow::{cell_views, ListReport, ListView, TablePreset, TableSpec, TableView};
use crate::error::{Error, ErrorView};
use crate::flow::{debug, error, info, log_views, CargoOutput, Effect, EffectView, Event, EventView, LogLevel, LogLine, LogView, Step, StepView};
use crate::sort::{fully_sorted_by, insert_position, lemma_stable_sort_permutes, lemma_stable_sort_sorted, stable_sort, total, transitive};
use crate::text::{lemma_lex_le_total, lemma_lex_le_transitive, lex_le, lex_le_chars, concat, decimal, decimal_string, join, join_strings, same_text, chars_of, lines, remove_char, split_lines, split_whitespace, string_of, string_views, trim_end, trim_end_char, without_char, words};
use crate::version::{parts_view, semver_parse, version_text, Version, VersionView};

verus! {

/// The views of a sequence of packages.
pub open spec fn package_views(s: Seq<PackageInfo>) -> Seq<PackageView> {
    s.map_values(|p: PackageInfo| p@)
}

/// The views of a sequence of optional versions.
pub open spec fn version_views(s: Seq<Option<Version>>) -> Seq<Option<VersionView>> {
    s.map_values(|o: Option<Version>| match o {
        Some(v) => Some(v@),
        None => None,
    })
}

/// The text of the version in the second word of a package line: without the `:` that ends
/// it and without any `v`.
pub open spec fn version_word(word: Seq<char>) -> Seq<char> {
    without_char(trim_end(word, ':'), 'v')
}

/// The package that a line of `cargo install --list` names, if it names one: a line of two or
/// three words whose second word holds a version that semver accepts.
pub open spec fn line_package(line: Seq<char>) -> Option<PackageView> {
    let ws = words(line);
    if ws.len() == 2 || ws.len() == 3 {
        match semver_parse(version_word(ws[1])) {
            Ok(p) => Some(
                PackageView { name: ws[0], version: parts_view(p), info: CheckView::UnAvailable },
            ),
            Err(_) => None,
        }
    } else {
        None
    }
}

/// The packages that the lines name, in order; lines that name none are skipped.
pub open spec fn packages_of_lines(ls: Seq<Seq<char>>) -> Seq<PackageView>
    decreases ls.len(),
{
    if ls.len() == 0 {
        Seq::empty()
    } else {
        let rest = packages_of_lines(ls.drop_last());
        match line_package(ls.last()) {
            Some(p) => rest.push(p),
            None => rest,
        }
    }
}

/// The packages that an output of `cargo install --list` names.
pub open spec fn listed_packages(output: Seq<char>) -> Seq<PackageView> {
    packages_of_lines(lines(output))
}

/// Parses a line of `cargo install --list` such as `cargo-binstall v1.10.18:`.
pub fn parse_package_line(line: &str) -> (r: Result<PackageInfo, Error>)
    ensures
        ({
            let ws = words(line@);
            if ws.len() == 2 || ws.len() == 3 {
                match semver_parse(version_word(ws[1])) {
                    Ok(p) => r matches Ok(pkg) && pkg@ == (PackageView {
                        name: ws[0],
                        version: parts_view(p),
                        info: CheckView::UnAvailable,
                    }),
                    Err(m) => r matches Err(Error::InvalidVersion(msg)) && msg@ == m,
                }
            } else {
                r matches Err(Error::InvalidPackageLine(l)) && l@ == line@
            }
        }),
        r is Ok <==> line_package(line@) is Some,
        r matches Ok(pkg) ==> line_package(line@) == Some(pkg@),
{
    let parts = split_whitespace(line);
    assert(string_views(parts@) == words(line@));
    if parts.len() == 2 || parts.len() == 3 {
        assert(parts@[0]@ == words(line@)[0]);
        assert(parts@[1]@ == words(line@)[1]);
        let name = parts[0].clone();
        let word = chars_of(parts[1].as_str());
        let text = string_of(&remove_char(&trim_end_char(&word, ':'), 'v'));
        return match Version::parse(text.as_str()) {
            Ok(version) => Ok(PackageInfo::new(name, version)),
            Err(m) => Err(Error::InvalidVersion(m)),
        };
    }
    Err(Error::InvalidPackageLine(line.to_owned()))
}

/// The packages that an output of `cargo install --list` names, in the order of its lines;
/// lines that name no package are skipped.
pub fn parse_package_lines(output: &str) -> (r: Vec<PackageInfo>)
    ensures
        package_views(r@) == listed_packages(output@),
{
    let ls = split_lines(output);
    let mut r: Vec<PackageInfo> = Vec::new();
    let mut i: usize = 0;
    while i < ls.len()
        invariant
            i <= ls.len(),
            string_views(ls@) == lines(output@),
            package_views(r@) == packages_of_lines(string_views(ls@).take(i as int)),
        decreases ls.len() - i,
    {
        let ghost before = r@;
        assert(string_views(ls@).take(i + 1).drop_last() == string_views(ls@).take(i as int));
        assert(string_views(ls@).take(i + 1).last() == ls@[i as int]@);
        match parse_package_line(ls[i].as_str()) {
            Ok(pkg) => {
                r.push(pkg);
                assert(package_views(r@) =~= package_views(before).push(r@.last()@));
            },
            Err(_) => {},
        }
        i += 1;
    }
    assert(string_views(ls@).take(ls.len() as int) == string_views(ls@));
    r
}

/// `a` comes no later than `b` when packages are ordered by their status.
pub open spec fn status_le(a: PackageView, b: PackageView) -> bool {
    check_order(a.info, b.info) <= 0
}

/// The order of packages by status, as a relation.
pub open spec fn by_status() -> spec_fn(PackageView, PackageView) -> bool {
    |a: PackageView, b: PackageView| status_le(a, b)
}

/// The packages ordered by status, as a stable sort orders them.
pub open spec fn sort_by_status(s: Seq<PackageView>) -> Seq<PackageView> {
    stable_sort(s, by_status())
}

/// Sorts packages by status, keeping the order of packages of equal status.
pub fn sort_packages_by_status(pkgs: &Vec<PackageInfo>) -> (r: Vec<PackageInfo>)
    ensures
        package_views(r@) == sort_by_status(package_views(pkgs@)),
        fully_sorted_by(package_views(r@), by_status()),
{
    let ghost le = by_status();
    let mut r: Vec<PackageInfo> = Vec::new();
    let mut i: usize = 0;
    while i < pkgs.len()
        invariant
            le == by_status(),
            i <= pkgs.len(),
            package_views(r@) == stable_sort(package_views(pkgs@).take(i as int), le),
            fully_sorted_by(package_views(r@), le),
            forall|k: int| 0 <= k < r.len() ==> #[trigger] check_ok(r@[k]@.info),
        decreases pkgs.len() - i,
    {
        let x = pkgs[i].clone();
        let ghost s = package_views(r@);
        let mut j: usize = r.len();
        assert(s.take(s.len() as int) == s);
        loop
            invariant
                le == by_status(),
                j <= r.len(),
                s == package_views(r@),
                fully_sorted_by(s, le),
                check_ok(x@.info),
                forall|k: int| 0 <= k < r.len() ==> #[trigger] check_ok(r@[k]@.info),
                insert_position(s.take(j as int), x@, le) == insert_position(s, x@, le),
                forall|k: int| j <= k < r.len() ==> check_order(x@.info, #[trigger] s[k].info) < 0,
            ensures
                j <= r.len(),
                insert_position(s, x@, le) == j,
                forall|k: int| j <= k < r.len() ==> check_order(x@.info, #[trigger] s[k].info) < 0,
                forall|k: int| 0 <= k < j ==> check_order(#[trigger] s[k].info, x@.info) <= 0,
            decreases j,
        {
            if j == 0 {
                assert(s.take(0).len() == 0);
                break;
            }
            let o = r[j - 1].info.order(&x.info);
            assert(s.take(j as int).last() == r@[j - 1]@);
            assert(s.take(j as int).drop_last() == s.take(j - 1));
            if o <= 0 {
                assert(le(s.take(j as int).last(), x@));
                assert forall|k: int| 0 <= k < j implies check_order(
                    #[trigger] s[k].info,
                    x@.info,
                ) <= 0 by {
                    if k < j - 1 {
                        assert(le(s[k], s[j - 1]));
                        assert(check_ok(r@[k]@.info));
                    }
                }
                break;
            }
            assert(!le(s.take(j as int).last(), x@));
            j -= 1;
        }
        r.insert(j, x);
        proof {
            assert(package_views(r@) =~= s.insert(j as int, x@));
            assert(package_views(pkgs@).take(i + 1).drop_last() == package_views(pkgs@).take(
                i as int,
            ));
            assert(package_views(pkgs@).take(i + 1).last() == x@);
            let t = package_views(r@);
            assert forall|a: int, b: int| 0 <= a < b < t.len() implies #[trigger] le(t[a], t[b]) by {
                if b < j {
                    assert(le(s[a], s[b]));
                } else if b == j {
                    assert(check_order(s[a].info, x@.info) <= 0);
                } else if a == j {
                    assert(check_order(x@.info, s[b - 1].info) < 0);
                } else if a < j {
                    assert(le(s[a], s[b - 1]));
                } else {
                    assert(le(s[a - 1], s[b - 1]));
                }
            }
            assert forall|k: int| 0 <= k < r.len() implies #[trigger] check_ok(r@[k]@.info) by {
                assert(r@[k]@ == t[k]);
                if k < j {
                    assert(t[k] == s[k]);
                } else if k > j {
                    assert(t[k] == s[k - 1]);
                }
            }
        }
        i += 1;
    }
    assert(package_views(pkgs@).take(pkgs.len() as int) == package_views(pkgs@));
    r
}

/// The packages with the latest versions that were found: where `found` holds a version for
/// a package, its status says how its version stands against that one; the others keep theirs.
pub open spec fn looked_up(ps: Seq<PackageView>, found: Seq<Option<VersionView>>) -> Seq<PackageView> {
    Seq::new(
        ps.len(),
        |i: int|
            if i < found.len() && found[i] is Some {
                PackageView { info: check_against(ps[i].version, found[i]->0), ..ps[i] }
            } else {
                ps[i]
            },
    )
}

/// Records the latest version found for each package (`latest[i]` for `pkgs[i]`, `None` where
/// none was found) and sorts the packages by status, keeping the order of equal ones.
pub fn apply_latest_versions(pkgs: Vec<PackageInfo>, latest: Vec<Option<Version>>) -> (r: Vec<PackageInfo>)
    ensures
        package_views(r@) == sort_by_status(looked_up(package_views(pkgs@), version_views(latest@))),
        fully_sorted_by(package_views(r@), by_status()),
{
    let ghost target = looked_up(package_views(pkgs@), version_views(latest@));
    let mut updated: Vec<PackageInfo> = Vec::new();
    let mut i: usize = 0;
    while i < pkgs.len()
        invariant
            i <= pkgs.len(),
            target == looked_up(package_views(pkgs@), version_views(latest@)),
            package_views(updated@) == target.take(i as int),
        decreases pkgs.len() - i,
    {
        let mut p = pkgs[i].clone();
        if i < latest.len() {
            match &latest[i] {
                Some(v) => p.set_info(v),
                None => {},
            }
        }
        let ghost before = updated@;
        updated.push(p);
        assert(package_views(updated@) =~= package_views(before).push(p@));
        i += 1;
        assert(target.take(i as int) =~= target.take(i - 1).push(target[i - 1]));
    }
    assert(target.take(pkgs.len() as int) =~= target);
    sort_packages_by_status(&updated)
}

/// `o` is an outcome that `latest` may give for `p`: a version it may return, or `None` where
/// it may fail.
pub open spec fn lookup_outcome<F, E>(latest: F, p: PackageInfo, o: Option<VersionView>) -> bool where
    F: Fn(&PackageInfo) -> Result<Version, E>,
 {
    match o {
        Some(v) => exists|found: Version| found@ == v && #[trigger] latest.ensures((&p,), Ok(found)),
        None => exists|e: E| #[trigger] latest.ensures((&p,), Err(e)),
    }
}

/// The packages that an output of `cargo install --list` names, each looked up with `latest`
/// (a failed lookup leaves it unavailable), sorted by status as [`apply_latest_versions`] does.
pub fn get_package_infos_with_latest<F, E>(output: &str, latest: F) -> (r: Vec<PackageInfo>) where
    F: Fn(&PackageInfo) -> Result<Version, E>,

    requires
        forall|p: &PackageInfo| #[trigger] latest.requires((p,)),
    ensures
        exists|ps: Seq<PackageInfo>, found: Seq<Option<VersionView>>|
            {
                &&& package_views(ps) == listed_packages(output@)
                &&& found.len() == ps.len()
                &&& forall|i: int| 0 <= i < ps.len() ==> lookup_outcome(latest, ps[i], found[i])
                &&& package_views(r@) == sort_by_status(looked_up(package_views(ps), found))
            },
        fully_sorted_by(package_views(r@), by_status()),
{
    let pkgs = parse_package_lines(output);
    let mut found: Vec<Option<Version>> = Vec::new();
    let mut i: usize = 0;
    while i < pkgs.len()
        invariant
            i <= pkgs.len(),
            found.len() == i,
            forall|p: &PackageInfo| #[trigger] latest.requires((p,)),
            forall|k: int| 0 <= k < i ==> lookup_outcome(latest, pkgs@[k], version_views(found@)[k]),
        decreases pkgs.len() - i,
    {
        let outcome = latest(&pkgs[i]);
        let ghost before = found@;
        match outcome {
            Ok(v) => {
                found.push(Some(v));
            },
            Err(e) => {
                found.push(None);
            },
        }
        assert forall|k: int| 0 <= k < i + 1 implies lookup_outcome(latest, pkgs@[k], version_views(found@)[k]) by {
            if k < i {
                assert(version_views(found@)[k] == version_views(before)[k]);
            }
        }
        i += 1;
    }
    apply_latest_versions(pkgs, found)
}

/// How many of the packages are up to date.
pub open spec fn up_to_date_count(ps: Seq<PackageView>) -> nat
    decreases ps.len(),
{
    if ps.len() == 0 {
        0
    } else {
        up_to_date_count(ps.drop_last()) + if ps.last().info is UpToDate {
            1nat
        } else {
            0nat
        }
    }
}

/// A debug note for each package that has a newer version, in order.
pub open spec fn update_notes(ps: Seq<PackageView>) -> Seq<LogView>
    decreases ps.len(),
{
    if ps.len() == 0 {
        Seq::empty()
    } else if has_update(ps.last().info) {
        update_notes(ps.drop_last()).push(
            debug(ps.last().name + " has a newer version available"@),
        )
    } else {
        update_notes(ps.drop_last())
    }
}

/// What is logged of the versions of the packages: a note for each package that has a newer
/// version, then how many of all are up to date.
pub open spec fn occurrence_logs(ps: Seq<PackageView>) -> Seq<LogView> {
    update_notes(ps).push(
        info(
            decimal(up_to_date_count(ps)) + "/"@ + decimal(ps.len()) + " packages are up-to-date"@,
        ),
    )
}

/// No more packages are up to date than there are packages.
pub proof fn lemma_up_to_date_count_bounded(ps: Seq<PackageView>)
    ensures
        up_to_date_count(ps) <= ps.len(),
    decreases ps.len(),
{
    if ps.len() > 0 {
        lemma_up_to_date_count_bounded(ps.drop_last());
    }
}

/// The messages that report how the installed versions stand.
pub fn version_occurrences(packages: &[PackageInfo]) -> (r: Vec<LogLine>)
    ensures
        log_views(r@) == occurrence_logs(package_views(packages@)),
{
    let ghost ps = package_views(packages@);
    let mut logs: Vec<LogLine> = Vec::new();
    let mut count: u64 = 0;
    let mut i: usize = 0;
    while i < packages.len()
        invariant
            i <= packages@.len(),
            ps == package_views(packages@),
            log_views(logs@) == update_notes(ps.take(i as int)),
            count == up_to_date_count(ps.take(i as int)),
            count <= i,
        decreases packages@.len() - i,
    {
        assert(ps.take(i + 1).drop_last() == ps.take(i as int));
        assert(ps.take(i + 1).last() == packages@[i as int]@);
        match &packages[i].info {
            VersionCheck::NewerAvailable(_) => {
                let ghost before = logs@;
                let text = concat(packages[i].name.as_str(), " has a newer version available");
                logs.push(LogLine { level: LogLevel::Debug, text });
                assert(log_views(logs@) =~= log_views(before).push(logs@.last()@));
            },
            VersionCheck::UpToDate => {
                count += 1;
            },
            _ => {},
        }
        i += 1;
    }
    assert(ps.take(packages@.len() as int) == ps);
    let counted = concat(decimal_string(count).as_str(), "/");
    let total = concat(counted.as_str(), decimal_string(packages.len() as u64).as_str());
    let text = concat(total.as_str(), " packages are up-to-date");
    let ghost before = logs@;
    logs.push(LogLine { level: LogLevel::Info, text });
    assert(log_views(logs@) =~= log_views(before).push(logs@.last()@));
    logs
}

/// The names of the packages that have a newer version, in order.
pub open spec fn update_names(ps: Seq<PackageView>) -> Seq<Seq<char>>
    decreases ps.len(),
{
    if ps.len() == 0 {
        Seq::empty()
    } else if has_update(ps.last().info) {
        update_names(ps.drop_last()).push(ps.last().name)
    } else {
        update_names(ps.drop_last())
    }
}

/// Whether `cargo-binstall` is among the packages.
pub open spec fn has_binstall(ps: Seq<PackageView>) -> bool {
    exists|i: int| 0 <= i < ps.len() && #[trigger] ps[i].name == "cargo-binstall"@
}

/// The names of the packages that have a newer version, in order.
pub fn names_with_updates(pkgs: &[PackageInfo]) -> (r: Vec<String>)
    ensures
        string_views(r@) == update_names(package_views(pkgs@)),
{
    let ghost ps = package_views(pkgs@);
    let mut names: Vec<String> = Vec::new();
    let mut i: usize = 0;
    while i < pkgs.len()
        invariant
            i <= pkgs@.len(),
            ps == package_views(pkgs@),
            string_views(names@) == update_names(ps.take(i as int)),
        decreases pkgs@.len() - i,
    {
        assert(ps.take(i + 1).drop_last() == ps.take(i as int));
        assert(ps.take(i + 1).last() == pkgs@[i as int]@);
        if pkgs[i].info.has_update() {
            let ghost before = names@;
            names.push(pkgs[i].name.clone());
            assert(string_views(names@) =~= string_views(before).push(names@.last()@));
        }
        i += 1;
    }
    assert(ps.take(pkgs@.len() as int) == ps);
    names
}

/// Whether `cargo-binstall` is among the packages.
pub fn binstall_installed(pkgs: &[PackageInfo]) -> (r: bool)
    ensures
        r == has_binstall(package_views(pkgs@)),
{
    let ghost ps = package_views(pkgs@);
    let mut i: usize = 0;
    while i < pkgs.len()
        invariant
            i <= pkgs@.len(),
            ps == package_views(pkgs@),
            forall|k: int| 0 <= k < i ==> ps[k].name != "cargo-binstall"@,
        decreases pkgs@.len() - i,
    {
        if same_text(pkgs[i].name.as_str(), "cargo-binstall") {
            assert(ps[i as int].name == "cargo-binstall"@);
            return true;
        }
        i += 1;
    }
    false
}

/// Where the update command stands.
#[derive(Debug)]
pub enum UpdateState {
    /// It asked whether to update the named packages; whether cargo-binstall is installed.
    AwaitAnswer { names: Vec<String>, binstall: bool },
    /// It runs `cargo binstall` on the named packages.
    AwaitCargo { names: Vec<String> },
    /// It is over.
    Done,
}

/// The mathematical value of an [`UpdateState`].
pub enum UpdateView {
    AwaitAnswer { names: Seq<Seq<char>>, binstall: bool },
    AwaitCargo { names: Seq<Seq<char>> },
    Done,
}

impl View for UpdateState {
    type V = UpdateView;

    open spec fn view(&self) -> UpdateView {
        match self {
            UpdateState::AwaitAnswer { names, binstall } => UpdateView::AwaitAnswer {
                names: string_views(names@),
                binstall: *binstall,
            },
            UpdateState::AwaitCargo { names } => UpdateView::AwaitCargo {
                names: string_views(names@),
            },
            UpdateState::Done => UpdateView::Done,
        }
    }
}

/// The arguments of the cargo command that updates the named packages with cargo-binstall.
pub open spec fn binstall_args(names: Seq<Seq<char>>) -> Seq<Seq<char>> {
    seq!["binstall"@] + names + seq!["-y"@]
}

/// The update, once it may go ahead: with cargo-binstall where it is installed, else not at all.
pub open spec fn update_proceed(names: Seq<Seq<char>>, binstall: bool, logs: Seq<LogView>) -> StepView<UpdateView> {
    if binstall {
        StepView {
            state: UpdateView::AwaitCargo { names },
            logs: logs.push(info("Using cargo-binstall to update packages"@)),
            effect: EffectView::RunCargo { args: binstall_args(names), captured: true },
        }
    } else {
        StepView {
            state: UpdateView::Done,
            logs: logs + seq![
                info("Not updating packages"@),
                info("cargo-binstall is not installed"@),
                info("Run `cargo install cargo-binstall` to install it"@),
            ],
            effect: EffectView::Finish(Ok(())),
        }
    }
}

/// The first step of the update command on the installed packages `ps`.
pub open spec fn update_start(ps: Seq<PackageView>, no_confirm: bool) -> StepView<UpdateView> {
    let names = update_names(ps);
    if names.len() == 0 {
        StepView {
            state: UpdateView::Done,
            logs: seq![info("No packages to update"@)],
            effect: EffectView::Finish(Ok(())),
        }
    } else {
        let intro = seq![info("Updating packages: "@ + join(names, ", "@))];
        if no_confirm {
            update_proceed(names, has_binstall(ps), intro)
        } else {
            StepView {
                state: UpdateView::AwaitAnswer { names, binstall: has_binstall(ps) },
                logs: intro,
                effect: EffectView::Confirm("Do you want to continue?"@),
            }
        }
    }
}

/// The step of the update command that follows the event `e` in state `s`.
pub open spec fn update_resume(s: UpdateView, e: EventView) -> StepView<UpdateView> {
    match (s, e) {
        (UpdateView::AwaitAnswer { names, binstall }, EventView::Answered(Ok(yes))) => if yes {
            update_proceed(names, binstall, Seq::empty())
        } else {
            StepView {
                state: UpdateView::Done,
                logs: seq![info("Aborting update"@)],
                effect: EffectView::Finish(Ok(())),
            }
        },
        (UpdateView::AwaitAnswer { .. }, EventView::Answered(Err(m))) => StepView {
            state: UpdateView::Done,
            logs: Seq::empty(),
            effect: EffectView::Finish(Err(ErrorView::Environment(m))),
        },
        (UpdateView::AwaitCargo { names }, EventView::CargoFinished(Ok(out))) => if out.success {
            StepView {
                state: UpdateView::Done,
                logs: seq![info("Packages updated successfully: "@ + join(names, ", "@))],
                effect: EffectView::Finish(Ok(())),
            }
        } else {
            StepView {
                state: UpdateView::Done,
                logs: seq![error(out.stderr), error(out.stdout)],
                effect: EffectView::Finish(Err(ErrorView::UpdateFailed)),
            }
        },
        (UpdateView::AwaitCargo { .. }, EventView::CargoFinished(Err(m))) => StepView {
            state: UpdateView::Done,
            logs: Seq::empty(),
            effect: EffectView::Finish(Err(ErrorView::Environment(m))),
        },
        _ => StepView {
            state: UpdateView::Done,
            logs: Seq::empty(),
            effect: EffectView::Finish(Err(ErrorView::UnexpectedEvent)),
        },
    }
}

fn info_line(text: String) -> (r: LogLine)
    ensures
        r@ == info(text@),
{
    LogLine { level: LogLevel::Info, text }
}

pub(crate) fn push_info(logs: &mut Vec<LogLine>, text: &str)
    ensures
        log_views(final(logs)@) == log_views(old(logs)@).push(info(text@)),
{
    let ghost before = logs@;
    logs.push(info_line(text.to_owned()));
    assert(log_views(logs@) =~= log_views(before).push(info(text@)));
}

/// A finished step with no messages.
fn finish_update(outcome: Result<(), Error>) -> (r: Step<UpdateState>)
    ensures
        r@ == (StepView {
            state: UpdateView::Done,
            logs: Seq::empty(),
            effect: EffectView::Finish(
                match outcome {
                    Ok(()) => Ok(()),
                    Err(e) => Err(e@),
                },
            ),
        }),
{
    let r = Step { state: UpdateState::Done, logs: Vec::new(), effect: Effect::Finish(outcome) };
    assert(log_views(r.logs@) =~= Seq::<LogView>::empty());
    r
}

pub(crate) fn update_go_ahead(names: Vec<String>, binstall: bool, logs: Vec<LogLine>) -> (r: Step<UpdateState>)
    ensures
        r@ == update_proceed(string_views(names@), binstall, log_views(logs@)),
{
    let mut logs = logs;
    if binstall {
        push_info(&mut logs, "Using cargo-binstall to update packages");
        let mut args: Vec<String> = Vec::new();
        args.push("binstall".to_owned());
        let mut i: usize = 0;
        while i < names.len()
            invariant
                i <= names.len(),
                string_views(args@) == seq!["binstall"@] + string_views(names@).take(i as int),
            decreases names.len() - i,
        {
            let ghost before = args@;
            args.push(names[i].clone());
            assert(string_views(args@) =~= string_views(before).push(names@[i as int]@));
            i += 1;
            assert(string_views(names@).take(i as int) =~= string_views(names@).take(i - 1).push(
                names@[i - 1]@,
            ));
        }
        let ghost before = args@;
        args.push("-y".to_owned());
        assert(string_views(names@).take(names.len() as int) =~= string_views(names@));
        assert(string_views(args@) =~= binstall_args(string_views(names@))) by {
            assert(string_views(args@) =~= string_views(before).push("-y"@));
        }
        Step {
            state: UpdateState::AwaitCargo { names },
            logs,
            effect: Effect::RunCargo { args, captured: true },
        }
    } else {
        let ghost before = log_views(logs@);
        push_info(&mut logs, "Not updating packages");
        push_info(&mut logs, "cargo-binstall is not installed");
        push_info(&mut logs, "Run `cargo install cargo-binstall` to install it");
        assert(log_views(logs@) =~= before + seq![
            info("Not updating packages"@),
            info("cargo-binstall is not installed"@),
            info("Run `cargo install cargo-binstall` to install it"@),
        ]);
        Step { state: UpdateState::Done, logs, effect: Effect::Finish(Ok(())) }
    }
}

/// The first step of updating the installed packages `pkgs`: the packages that have a newer
/// version are updated with cargo-binstall, where it is installed, after the user agreed
/// (unless `no_confirm`).
pub fn update(pkgs: &[PackageInfo], no_confirm: bool) -> (r: Step<UpdateState>)
    ensures
        r@ == update_start(package_views(pkgs@), no_confirm),
{
    let names = names_with_updates(pkgs);
    let mut logs: Vec<LogLine> = Vec::new();
    if names.len() == 0 {
        push_info(&mut logs, "No packages to update");
        assert(log_views(logs@) =~= seq![info("No packages to update"@)]);
        return Step { state: UpdateState::Done, logs, effect: Effect::Finish(Ok(())) };
    }
    let listed = join_strings(&names, ", ");
    let intro = concat("Updating packages: ", listed.as_str());
    push_info(&mut logs, intro.as_str());
    assert(log_views(logs@) =~= seq![info("Updating packages: "@ + join(string_views(names@), ", "@))]);
    let binstall = binstall_installed(pkgs);
    if no_confirm {
        update_go_ahead(names, binstall, logs)
    } else {
        Step {
            state: UpdateState::AwaitAnswer { names, binstall },
            logs,
            effect: Effect::Confirm("Do you want to continue?".to_owned()),
        }
    }
}

impl UpdateState {
    /// The step that follows the event `event`.
    pub fn resume(self, event: Event) -> (r: Step<UpdateState>)
        ensures
            r@ == update_resume(self@, event@),
    {
        match (self, event) {
            (UpdateState::AwaitAnswer { names, binstall }, Event::Answered(Ok(yes))) => {
                if yes {
                    let none: Vec<LogLine> = Vec::new();
                    assert(log_views(none@) =~= Seq::<LogView>::empty());
                    update_go_ahead(names, binstall, none)
                } else {
                    let mut logs: Vec<LogLine> = Vec::new();
                    push_info(&mut logs, "Aborting update");
                    assert(log_views(logs@) =~= seq![info("Aborting update"@)]);
                    Step { state: UpdateState::Done, logs, effect: Effect::Finish(Ok(())) }
                }
            },
            (UpdateState::AwaitAnswer { .. }, Event::Answered(Err(m))) => finish_update(
                Err(Error::Environment(m)),
            ),
            (UpdateState::AwaitCargo { names }, Event::CargoFinished(Ok(out))) => {
                let mut logs: Vec<LogLine> = Vec::new();
                if out.success {
                    let listed = join_strings(&names, ", ");
                    let text = concat("Packages updated successfully: ", listed.as_str());
                    push_info(&mut logs, text.as_str());
                    assert(log_views(logs@) =~= seq![
                        info("Packages updated successfully: "@ + join(string_views(names@), ", "@)),
                    ]);
                    Step { state: UpdateState::Done, logs, effect: Effect::Finish(Ok(())) }
                } else {
                    let ghost o = out@;
                    logs.push(LogLine { level: LogLevel::Error, text: out.stderr });
                    logs.push(LogLine { level: LogLevel::Error, text: out.stdout });
                    assert(log_views(logs@) =~= seq![error(o.stderr), error(o.stdout)]);
                    Step { state: UpdateState::Done, logs, effect: Effect::Finish(Err(Error::UpdateFailed)) }
                }
            },
            (UpdateState::AwaitCargo { .. }, Event::CargoFinished(Err(m))) => finish_update(
                Err(Error::Environment(m)),
            ),
            _ => finish_update(Err(Error::UnexpectedEvent)),
        }
    }
}

/// Where the init command stands.
#[derive(Debug, Clone, Copy, PartialEq, Eq)]
pub enum InitState {
    /// It looks for cargo-binstall.
    AwaitFound,
    /// It asked whether to install cargo-binstall.
    AwaitAnswer,
    /// It installs cargo-binstall.
    AwaitCargo,
    /// It is over.
    Done,
}

impl View for InitState {
    type V = InitState;

    open spec fn view(&self) -> InitState {
        *self
    }
}

/// The first step of the init command: look for cargo-binstall.
pub open spec fn init_start() -> StepView<InitState> {
    StepView { state: InitState::AwaitFound, logs: Seq::empty(), effect: EffectView::FindBinstall }
}

/// The arguments of the cargo command that installs cargo-binstall.
pub open spec fn install_args() -> Seq<Seq<char>> {
    seq!["install"@, "cargo-binstall"@]
}

/// The step of the init command that follows the event `e` in state `s`.
pub open spec fn init_resume(s: InitState, e: EventView) -> StepView<InitState> {
    match (s, e) {
        (InitState::AwaitFound, EventView::BinstallFound(found)) => if found {
            StepView {
                state: InitState::Done,
                logs: seq![info("cargo-binstall is already installed - aborting"@)],
                effect: EffectView::Finish(Ok(())),
            }
        } else {
            StepView {
                state: InitState::AwaitAnswer,
                logs: seq![info("cargo-binstall is not installed"@)],
                effect: EffectView::Confirm("Do you want to install cargo-binstall now?"@),
            }
        },
        (InitState::AwaitAnswer, EventView::Answered(Ok(yes))) => if yes {
            StepView {
                state: InitState::AwaitCargo,
                logs: seq![info("Installing cargo-binstall now - this may take a while"@)],
                effect: EffectView::RunCargo { args: install_args(), captured: false },
            }
        } else {
            StepView {
                state: InitState::Done,
                logs: seq![info("Aborting installation"@)],
                effect: EffectView::Finish(Ok(())),
            }
        },
        (InitState::AwaitAnswer, EventView::Answered(Err(m))) => StepView {
            state: InitState::Done,
            logs: Seq::empty(),
            effect: EffectView::Finish(Err(ErrorView::Environment(m))),
        },
        (InitState::AwaitCargo, EventView::CargoFinished(Ok(out))) => if out.success {
            StepView {
                state: InitState::Done,
                logs: seq![info("cargo-binstall installed successfully"@)],
                effect: EffectView::Finish(Ok(())),
            }
        } else {
            StepView {
                state: InitState::Done,
                logs: Seq::empty(),
                effect: EffectView::Finish(Err(ErrorView::InstallFailed(out.stderr))),
            }
        },
        (InitState::AwaitCargo, EventView::CargoFinished(Err(m))) => StepView {
            state: InitState::Done,
            logs: Seq::empty(),
            effect: EffectView::Finish(Err(ErrorView::Environment(m))),
        },
        _ => StepView {
            state: InitState::Done,
            logs: Seq::empty(),
            effect: EffectView::Finish(Err(ErrorView::UnexpectedEvent)),
        },
    }
}

pub(crate) fn one_info(text: &str) -> (r: Vec<LogLine>)
    ensures
        log_views(r@) == seq![info(text@)],
{
    let mut logs: Vec<LogLine> = Vec::new();
    push_info(&mut logs, text);
    assert(log_views(logs@) =~= seq![info(text@)]);
    logs
}

pub(crate) fn no_logs() -> (r: Vec<LogLine>)
    ensures
        log_views(r@) == Seq::<LogView>::empty(),
{
    let r: Vec<LogLine> = Vec::new();
    assert(log_views(r@) =~= Seq::<LogView>::empty());
    r
}

/// The first step of setting things up to use this tool: cargo-binstall is installed, once the
/// user agreed, where it is not on the search path.
pub fn init() -> (r: Step<InitState>)
    ensures
        r@ == init_start(),
{
    Step { state: InitState::AwaitFound, logs: no_logs(), effect: Effect::FindBinstall }
}

impl InitState {
    /// The step that follows the event `event`.
    pub fn resume(self, event: Event) -> (r: Step<InitState>)
        ensures
            r@ == init_resume(self, event@),
    {
        match (self, event) {
            (InitState::AwaitFound, Event::BinstallFound(found)) => {
                if found {
                    Step {
                        state: InitState::Done,
                        logs: one_info("cargo-binstall is already installed - aborting"),
                        effect: Effect::Finish(Ok(())),
                    }
                } else {
                    Step {
                        state: InitState::AwaitAnswer,
                        logs: one_info("cargo-binstall is not installed"),
                        effect: Effect::Confirm("Do you want to install cargo-binstall now?".to_owned()),
                    }
                }
            },
            (InitState::AwaitAnswer, Event::Answered(Ok(yes))) => {
                if yes {
                    let mut args: Vec<String> = Vec::new();
                    args.push("install".to_owned());
                    args.push("cargo-binstall".to_owned());
                    assert(string_views(args@) =~= install_args());
                    Step {
                        state: InitState::AwaitCargo,
                        logs: one_info("Installing cargo-binstall now - this may take a while"),
                        effect: Effect::RunCargo { args, captured: false },
                    }
                } else {
                    Step {
                        state: InitState::Done,
                        logs: one_info("Aborting installation"),
                        effect: Effect::Finish(Ok(())),
                    }
                }
            },
            (InitState::AwaitAnswer, Event::Answered(Err(m))) => Step {
                state: InitState::Done,
                logs: no_logs(),
                effect: Effect::Finish(Err(Error::Environment(m))),
            },
            (InitState::AwaitCargo, Event::CargoFinished(Ok(out))) => {
                if out.success {
                    Step {
                        state: InitState::Done,
                        logs: one_info("cargo-binstall installed successfully"),
                        effect: Effect::Finish(Ok(())),
                    }
                } else {
                    Step {
                        state: InitState::Done,
                        logs: no_logs(),
                        effect: Effect::Finish(Err(Error::InstallFailed(out.stderr))),
                    }
                }
            },
            (InitState::AwaitCargo, Event::CargoFinished(Err(m))) => Step {
                state: InitState::Done,
                logs: no_logs(),
                effect: Effect::Finish(Err(Error::Environment(m))),
            },
            _ => Step {
                state: InitState::Done,
                logs: no_logs(),
                effect: Effect::Finish(Err(Error::UnexpectedEvent)),
            },
        }
    }
}

/// The installed binaries that `cargo install --list` reported: its output where it succeeded,
/// else an error with what it wrote to its error stream.
pub fn installed_bins_from_output(output: CargoOutput) -> (r: Result<String, Error>)
    ensures
        output.success ==> (r matches Ok(text) && text@ == output.stdout@),
        !output.success ==> (r matches Err(Error::InstalledBins(m)) && m@ == output.stderr@),
{
    if output.success {
        Ok(output.stdout)
    } else {
        Err(Error::InstalledBins(output.stderr))
    }
}

/// `a` comes no later than `b` in a table: packages with a newer version first, then by name.
pub open spec fn table_le(a: PackageView, b: PackageView) -> bool {
    if has_update(a.info) != has_update(b.info) {
        has_update(a.info)
    } else {
        lex_le(a.name, b.name)
    }
}

/// The order of the rows of a table, as a relation.
pub open spec fn by_table() -> spec_fn(PackageView, PackageView) -> bool {
    |a: PackageView, b: PackageView| table_le(a, b)
}

/// The order of the rows of a table is total and transitive.
pub proof fn lemma_table_order_total_transitive()
    ensures
        total(by_table()),
        transitive(by_table()),
{
    assert forall|a: PackageView, b: PackageView| #[trigger] by_table()(a, b) || by_table()(b, a) by {
        lemma_lex_le_total(a.name, b.name);
    }
    assert forall|a: PackageView, b: PackageView, c: PackageView|
        #[trigger] by_table()(a, b) && #[trigger] by_table()(b, c) implies by_table()(a, c) by {
        if has_update(a.info) == has_update(b.info) && has_update(b.info) == has_update(c.info) {
            lemma_lex_le_transitive(a.name, b.name, c.name);
        }
    }
}

/// The cells of the row that shows a package: its name, its version and its status.
pub open spec fn package_row(p: PackageView) -> Seq<CellView> {
    seq![plain_cell(p.name), plain_cell(version_text(p.version)), status_cell(p.info)]
}

/// A header cell: bold text.
pub open spec fn header_cell(text: Seq<char>) -> CellView {
    CellView { content: text, color: None, attributes: seq![CellAttribute::Bold] }
}

/// The table that shows the packages: a bold header `Name`, `Version`, `Status`, then a row
/// per package, those with a newer version first and then by name; full or condensed layout.
pub open spec fn package_table(ps: Seq<PackageView>, uncondensed: bool) -> TableView {
    TableView {
        preset: if uncondensed {
            TablePreset::Full
        } else {
            TablePreset::FullCondensed
        },
        header: seq![header_cell("Name"@), header_cell("Version"@), header_cell("Status"@)],
        rows: stable_sort(ps, by_table()).map_values(|p: PackageView| package_row(p)),
    }
}

fn table_le_exec(a: &PackageInfo, b: &PackageInfo) -> (r: bool)
    ensures
        r == table_le(a@, b@),
{
    let ua = a.info.has_update();
    let ub = b.info.has_update();
    if ua != ub {
        ua
    } else {
        lex_le_chars(&chars_of(a.name.as_str()), &chars_of(b.name.as_str()))
    }
}

/// Sorts packages for a table: those with a newer version first, then by name, keeping the
/// order of packages that this does not tell apart.
pub fn sort_packages_for_table(pkgs: &[PackageInfo]) -> (r: Vec<PackageInfo>)
    ensures
        package_views(r@) == stable_sort(package_views(pkgs@), by_table()),
{
    let ghost le = by_table();
    let mut r: Vec<PackageInfo> = Vec::new();
    let mut i: usize = 0;
    while i < pkgs.len()
        invariant
            le == by_table(),
            i <= pkgs@.len(),
            package_views(r@) == stable_sort(package_views(pkgs@).take(i as int), le),
        decreases pkgs@.len() - i,
    {
        let x = pkgs[i].clone();
        let ghost s = package_views(r@);
        let mut j: usize = r.len();
        assert(s.take(s.len() as int) == s);
        loop
            invariant
                le == by_table(),
                j <= r.len(),
                s == package_views(r@),
                insert_position(s.take(j as int), x@, le) == insert_position(s, x@, le),
            ensures
                j <= r.len(),
                insert_position(s, x@, le) == j,
            decreases j,
        {
            if j == 0 {
                assert(s.take(0).len() == 0);
                break;
            }
            let ok = table_le_exec(&r[j - 1], &x);
            assert(s.take(j as int).last() == r@[j - 1]@);
            assert(s.take(j as int).drop_last() == s.take(j - 1));
            if ok {
                assert(le(s.take(j as int).last(), x@));
                break;
            }
            assert(!le(s.take(j as int).last(), x@));
            j -= 1;
        }
        r.insert(j, x);
        proof {
            assert(package_views(r@) =~= s.insert(j as int, x@));
            assert(package_views(pkgs@).take(i + 1).drop_last() == package_views(pkgs@).take(
                i as int,
            ));
            assert(package_views(pkgs@).take(i + 1).last() == x@);
        }
        i += 1;
    }
    assert(package_views(pkgs@).take(pkgs@.len() as int) == package_views(pkgs@));
    r
}

pub(crate) fn bold_cell(text: &str) -> (r: StyledCell)
    ensures
        r@ == header_cell(text@),
{
    let r = StyledCell::new(text).add_attribute(CellAttribute::Bold);
    assert(r@.attributes =~= seq![CellAttribute::Bold]);
    r
}

pub(crate) fn package_row_cells(p: &PackageInfo) -> (r: Vec<StyledCell>)
    ensures
        cell_views(r@) == package_row(p@),
{
    let mut row: Vec<StyledCell> = Vec::new();
    row.push(StyledCell::new(p.name.as_str()));
    row.push(StyledCell::new(p.version.to_string().as_str()));
    row.push(p.info.colored_cell());
    assert(cell_views(row@) =~= package_row(p@));
    row
}

/// The table that shows the packages, those with a newer version first and then by name.
pub fn create_table(pkgs: &[PackageInfo], uncondensed: bool) -> (r: TableSpec)
    ensures
        r@ == package_table(package_views(pkgs@), uncondensed),
{
    let mut header: Vec<StyledCell> = Vec::new();
    header.push(bold_cell("Name"));
    header.push(bold_cell("Version"));
    header.push(bold_cell("Status"));
    let sorted = sort_packages_for_table(pkgs);
    let ghost target = package_views(sorted@).map_values(|p: PackageView| package_row(p));
    let mut rows: Vec<Vec<StyledCell>> = Vec::new();
    let mut i: usize = 0;
    while i < sorted.len()
        invariant
            i <= sorted.len(),
            target == package_views(sorted@).map_values(|p: PackageView| package_row(p)),
            rows@.map_values(|r: Vec<StyledCell>| cell_views(r@)) == target.take(i as int),
        decreases sorted.len() - i,
    {
        let ghost before = rows@;
        let row = package_row_cells(&sorted[i]);
        rows.push(row);
        assert(rows@.map_values(|r: Vec<StyledCell>| cell_views(r@)) =~= before.map_values(
            |r: Vec<StyledCell>| cell_views(r@),
        ).push(target[i as int]));
        i += 1;
        assert(target.take(i as int) =~= target.take(i - 1).push(target[i - 1]));
    }
    assert(target.take(sorted.len() as int) =~= target);
    let preset = if uncondensed {
        TablePreset::Full
    } else {
        TablePreset::FullCondensed
    };
    let r = TableSpec { preset, header, rows };
    assert(r@.header =~= package_table(package_views(pkgs@), uncondensed).header);
    assert(r@.rows =~= package_table(package_views(pkgs@), uncondensed).rows);
    r
}

/// The packages that have a newer version, in order.
pub open spec fn with_updates(ps: Seq<PackageView>) -> Seq<PackageView>
    decreases ps.len(),
{
    if ps.len() == 0 {
        Seq::empty()
    } else if has_update(ps.last().info) {
        with_updates(ps.drop_last()).push(ps.last())
    } else {
        with_updates(ps.drop_last())
    }
}

/// What the list command shows of the packages `ps`: all of them, or only those with a newer
/// version; a message where there is nothing to show; the count is that of all packages.
pub open spec fn list_report(ps: Seq<PackageView>, only_updates: bool, uncondensed: bool) -> ListView {
    if ps.len() == 0 {
        ListView { logs: seq![info("No packages found"@)], table: None, count_line: None }
    } else if only_updates && with_updates(ps).len() == 0 {
        ListView {
            logs: seq![info("No packages with newer versions found"@)],
            table: None,
            count_line: None,
        }
    } else if only_updates {
        ListView {
            logs: seq![info("Packages with newer versions:"@)],
            table: Some(package_table(with_updates(ps), uncondensed)),
            count_line: Some("Count: "@ + decimal(ps.len())),
        }
    } else {
        ListView {
            logs: seq![info("All installed packages:"@)],
            table: Some(package_table(ps, uncondensed)),
            count_line: Some("Count: "@ + decimal(ps.len())),
        }
    }
}

/// The packages that have a newer version, in order.
pub fn packages_with_updates(pkgs: Vec<PackageInfo>) -> (r: Vec<PackageInfo>)
    ensures
        package_views(r@) == with_updates(package_views(pkgs@)),
{
    let ghost ps = package_views(pkgs@);
    let mut r: Vec<PackageInfo> = Vec::new();
    let mut i: usize = 0;
    while i < pkgs.len()
        invariant
            i <= pkgs@.len(),
            ps == package_views(pkgs@),
            package_views(r@) == with_updates(ps.take(i as int)),
        decreases pkgs@.len() - i,
    {
        assert(ps.take(i + 1).drop_last() == ps.take(i as int));
        assert(ps.take(i + 1).last() == pkgs@[i as int]@);
        if pkgs[i].info.has_update() {
            let ghost before = r@;
            r.push(pkgs[i].clone());
            assert(package_views(r@) =~= package_views(before).push(r@.last()@));
        }
        i += 1;
    }
    assert(ps.take(pkgs@.len() as int) == ps);
    r
}

/// What the list command shows of the installed packages `pkg_vec`: all of them, or only
/// those with a newer version when `only_updates`; in a full layout when `uncondensed`.
pub fn list_pkgs(pkg_vec: Vec<PackageInfo>, only_updates: bool, uncondensed: bool) -> (r: ListReport)
    ensures
        r@ == list_report(package_views(pkg_vec@), only_updates, uncondensed),
{
    if pkg_vec.len() == 0 {
        return ListReport { logs: one_info("No packages found"), table: None, count_line: None };
    }
    let count_line = concat("Count: ", decimal_string(pkg_vec.len() as u64).as_str());
    if only_updates {
        let res = packages_with_updates(pkg_vec);
        if res.len() == 0 {
            return ListReport {
                logs: one_info("No packages with newer versions found"),
                table: None,
                count_line: None,
            };
        }
        let table = create_table(res.as_slice(), uncondensed);
        ListReport {
            logs: one_info("Packages with newer versions:"),
            table: Some(table),
            count_line: Some(count_line),
        }
    } else {
        let table = create_table(pkg_vec.as_slice(), uncondensed);
        ListReport {
            logs: one_info("All installed packages:"),
            table: Some(table),
            count_line: Some(count_line),
        }
    }
}

/// Every package that `cargo install --list` names is unavailable until it has been looked up.
pub proof fn lemma_listed_packages_unavailable(output: Seq<char>)
    ensures
        forall|i: int|
            0 <= i < listed_packages(output).len() ==> #[trigger] listed_packages(output)[i].info
                == CheckView::UnAvailable,
{
    lemma_packages_of_lines_unavailable(lines(output));
}

proof fn lemma_packages_of_lines_unavailable(ls: Seq<Seq<char>>)
    ensures
        forall|i: int|
            0 <= i < packages_of_lines(ls).len() ==> #[trigger] packages_of_lines(ls)[i].info
                == CheckView::UnAvailable,
    decreases ls.len(),
{
    if ls.len() > 0 {
        lemma_packages_of_lines_unavailable(ls.drop_last());
    }
}

/// Looking up the latest versions keeps each package's name and version, and sorting the
/// packages by status keeps every package: the result holds the same packages as often.
pub proof fn lemma_package_infos_keep_packages(ps: Seq<PackageView>, found: Seq<Option<VersionView>>)
    ensures
        looked_up(ps, found).len() == ps.len(),
        forall|i: int|
            0 <= i < ps.len() ==> #[trigger] looked_up(ps, found)[i].name == ps[i].name
                && looked_up(ps, found)[i].version == ps[i].version,
        sort_by_status(looked_up(ps, found)).to_multiset() == looked_up(ps, found).to_multiset(),
        sort_by_status(looked_up(ps, found)).len() == ps.len(),
{
    lemma_stable_sort_permutes(looked_up(ps, found), by_status());
}

/// In a sequence sorted by status, packages with a newer version come first, then those up to
/// date, then those newer than crates.io, then the unavailable ones.
pub proof fn lemma_sorted_by_status_ranks(s: Seq<PackageView>)
    requires
        fully_sorted_by(s, by_status()),
    ensures
        forall|i: int, j: int|
            0 <= i <= j < s.len() ==> check_rank(#[trigger] s[i].info) <= check_rank(
                #[trigger] s[j].info,
            ),
{
    assert forall|i: int, j: int| 0 <= i <= j < s.len() implies check_rank(
        #[trigger] s[i].info,
    ) <= check_rank(#[trigger] s[j].info) by {
        if i < j {
            assert(by_status()(s[i], s[j]));
        }
    }
}

/// The rows of a table hold each package once, with the packages that have a newer version
/// first and then by name: any row comes no later than any row below it.
pub proof fn lemma_table_rows(ps: Seq<PackageView>, uncondensed: bool)
    ensures
        package_table(ps, uncondensed).rows.len() == ps.len(),
        stable_sort(ps, by_table()).to_multiset() == ps.to_multiset(),
        fully_sorted_by(stable_sort(ps, by_table()), by_table()),
        forall|i: int|
            0 <= i < ps.len() ==> #[trigger] package_table(ps, uncondensed).rows[i] == package_row(
                stable_sort(ps, by_table())[i],
            ),
{
    lemma_stable_sort_permutes(ps, by_table());
    lemma_table_order_total_transitive();
    lemma_stable_sort_sorted(ps, by_table());
}

/// The packages kept by the filter are exactly those with a newer version, in order.
pub proof fn lemma_with_updates(ps: Seq<PackageView>)
    ensures
        with_updates(ps).len() <= ps.len(),
        forall|i: int| 0 <= i < with_updates(ps).len() ==> has_update(#[trigger] with_updates(ps)[i].info),
        forall|i: int| 0 <= i < ps.len() && has_update(ps[i].info) ==> with_updates(ps).contains(#[trigger] ps[i]),
    decreases ps.len(),
{
    if ps.len() > 0 {
        lemma_with_updates(ps.drop_last());
        assert forall|i: int| 0 <= i < ps.len() && has_update(ps[i].info) implies with_updates(ps).contains(
            #[trigger] ps[i],
        ) by {
            if i < ps.len() - 1 {
                assert(ps.drop_last()[i] == ps[i]);
                let k = choose|k: int| 0 <= k < with_updates(ps.drop_last()).len() && with_updates(ps.drop_last())[k] == ps[i];
                assert(with_updates(ps)[k] == ps[i]);
            } else {
                assert(with_updates(ps).last() == ps[i]);
            }
        }
    }
}

/// Listing only outdated crates shows a table of just the packages with a newer version, and
/// the count that follows a table is that of all installed packages.
pub proof fn lemma_list_shows_outdated(ps: Seq<PackageView>, uncondensed: bool)
    ensures
        list_report(ps, true, uncondensed).table matches Some(t) ==> t == package_table(
            with_updates(ps),
            uncondensed,
        ) && forall|i: int|
            0 <= i < with_updates(ps).len() ==> has_update(#[trigger] with_updates(ps)[i].info),
        list_report(ps, true, uncondensed).table is None <==> with_updates(ps).len() == 0,
        list_report(ps, false, uncondensed).table is None <==> ps.len() == 0,
        forall|only: bool|
            #![trigger list_report(ps, only, uncondensed)]
            list_report(ps, only, uncondensed).count_line matches Some(c) ==> c == "Count: "@
                + decimal(ps.len()),
{
    lemma_with_updates(ps);
}

/// The update command runs cargo only with cargo-binstall installed, on the packages that have
/// a newer version and none other, and only without asking when it was told not to ask.
pub proof fn lemma_update_runs_only_outdated(ps: Seq<PackageView>, no_confirm: bool)
    ensures
        update_start(ps, no_confirm).effect is RunCargo ==> {
            &&& no_confirm
            &&& has_binstall(ps)
            &&& update_start(ps, no_confirm).effect == (EffectView::RunCargo {
                args: binstall_args(update_names(ps)),
                captured: true,
            })
        },
        update_start(ps, no_confirm).effect is Confirm ==> !no_confirm && update_names(ps).len() > 0,
        update_names(ps).len() == 0 ==> update_start(ps, no_confirm).effect == EffectView::Finish(
            Ok(()),
        ),
        update_names(ps).len() == with_updates(ps).len(),
        forall|i: int|
            0 <= i < update_names(ps).len() ==> #[trigger] update_names(ps)[i] == with_updates(
                ps,
            )[i].name,
    decreases ps.len(),
{
    if ps.len() > 0 {
        lemma_update_runs_only_outdated(ps.drop_last(), no_confirm);
    }
}

/// After the first step, the update command runs cargo only once the user said yes, only
/// where cargo-binstall is installed, and only on the packages it asked about.
pub proof fn lemma_update_runs_after_yes(s: UpdateView, e: EventView)
    ensures
        update_resume(s, e).effect is RunCargo ==> {
            &&& e == EventView::Answered(Ok(true))
            &&& s matches UpdateView::AwaitAnswer { names, binstall }
            &&& binstall
            &&& update_resume(s, e).effect == (EffectView::RunCargo {
                args: binstall_args(names),
                captured: true,
            })
        },
{
}

/// The init command installs cargo-binstall only where it is not on the search path and only
/// once the user said yes.
pub proof fn lemma_init_installs_after_yes(s: InitState, e: EventView)
    ensures
        init_resume(s, e).effect is RunCargo ==> s == InitState::AwaitAnswer && e
            == EventView::Answered(Ok(true)),
        init_resume(s, e).effect is Confirm ==> s == InitState::AwaitFound && e
            == EventView::BinstallFound(false),
{
}

/// The row `row` shows the package `p`: its name, its version and its status.
pub open spec fn row_shows(row: Seq<CellView>, p: PackageView) -> bool {
    row == package_row(p)
}

/// The row `row` shows one of the packages `ps` that has a newer version.
pub open spec fn shows_outdated_of(row: Seq<CellView>, ps: Seq<PackageView>) -> bool {
    exists|k: int| 0 <= k < ps.len() && has_update(ps[k].info) && #[trigger] row_shows(row, ps[k])
}

/// One of the rows `rows` shows the package `p`.
pub open spec fn has_row_of(rows: Seq<Seq<CellView>>, p: PackageView) -> bool {
    exists|i: int| 0 <= i < rows.len() && #[trigger] row_shows(rows[i], p)
}

/// `q` puts the packages `ps` in the order in which the table `t` shows them, one row each:
/// every package as often as in `ps`, a row per package with its name, version and status,
/// the packages with a newer version before the others, and by name where both or neither
/// have one.
pub open spec fn rows_in_order(t: TableView, ps: Seq<PackageView>, q: Seq<PackageView>) -> bool {
    &&& q.to_multiset() == ps.to_multiset()
    &&& t.rows.len() == q.len()
    &&& forall|i: int| 0 <= i < q.len() ==> #[trigger] t.rows[i] == package_row(q[i])
    &&& forall|i: int, j: int|
        0 <= i < j < q.len() && has_update(#[trigger] q[j].info) ==> has_update(#[trigger] q[i].info)
    &&& forall|i: int, j: int|
        0 <= i < j < q.len() && has_update(#[trigger] q[i].info) == has_update(#[trigger] q[j].info)
            ==> lex_le(q[i].name, q[j].name)
}

/// The table `t` shows exactly the packages `ps`, those with a newer version first, then by
/// name in ascending order.
pub open spec fn table_shows(t: TableView, ps: Seq<PackageView>) -> bool {
    exists|q: Seq<PackageView>| #[trigger] rows_in_order(t, ps, q)
}

/// The table of packages holds a row for each package and no other, the packages with a
/// newer version first and then in ascending order of name, whatever their status; its layout
/// is the full one exactly when it is asked to be uncondensed.
pub proof fn lemma_table_shows_packages(ps: Seq<PackageView>, uncondensed: bool)
    ensures
        table_shows(package_table(ps, uncondensed), ps),
        package_table(ps, uncondensed).rows.len() == ps.len(),
        package_table(ps, uncondensed).preset == (if uncondensed {
            TablePreset::Full
        } else {
            TablePreset::FullCondensed
        }),
{
    let t = package_table(ps, uncondensed);
    let q = stable_sort(ps, by_table());
    lemma_table_rows(ps, uncondensed);
    lemma_stable_sort_permutes(ps, by_table());
    assert forall|i: int, j: int|
        0 <= i < j < q.len() && has_update(#[trigger] q[j].info) implies has_update(#[trigger] q[i].info) by {
        assert(by_table()(q[i], q[j]));
    }
    assert forall|i: int, j: int|
        0 <= i < j < q.len() && has_update(#[trigger] q[i].info) == has_update(#[trigger] q[j].info)
        implies lex_le(q[i].name, q[j].name) by {
        assert(by_table()(q[i], q[j]));
    }
    assert(rows_in_order(t, ps, q));
}

/// Listing all packages shows a table of every installed package, and the count of them.
pub proof fn lemma_list_shows_all(ps: Seq<PackageView>, uncondensed: bool)
    requires
        ps.len() > 0,
    ensures
        list_report(ps, false, uncondensed).logs == seq![info("All installed packages:"@)],
        list_report(ps, false, uncondensed).table matches Some(t) && table_shows(t, ps)
            && t.rows.len() == ps.len(),
        list_report(ps, false, uncondensed).count_line == Some("Count: "@ + decimal(ps.len())),
{
    lemma_table_shows_packages(ps, uncondensed);
}

/// Listing only outdated packages shows rows of packages with a newer version only, each of
/// the installed ones that has one, and the count of all installed packages.
pub proof fn lemma_list_shows_only_outdated(ps: Seq<PackageView>, uncondensed: bool)
    ensures
        list_report(ps, true, uncondensed).table matches Some(t) ==> {
            &&& table_shows(t, with_updates(ps))
            &&& forall|i: int|
                0 <= i < t.rows.len() ==> #[trigger] shows_outdated_of(t.rows[i], ps)
            &&& forall|k: int|
                0 <= k < ps.len() && has_update(ps[k].info) ==> #[trigger] has_row_of(t.rows, ps[k])
        },
{
    let w = with_updates(ps);
    if let Some(t) = list_report(ps, true, uncondensed).table {
        lemma_table_shows_packages(w, uncondensed);
        let q = choose|q: Seq<PackageView>| #[trigger] rows_in_order(t, w, q);
        lemma_outdated_rows(t, ps, q);
    }
}

proof fn lemma_outdated_rows(t: TableView, ps: Seq<PackageView>, q: Seq<PackageView>)
    requires
        rows_in_order(t, with_updates(ps), q),
    ensures
        forall|i: int| 0 <= i < t.rows.len() ==> #[trigger] shows_outdated_of(t.rows[i], ps),
        forall|k: int|
            0 <= k < ps.len() && has_update(ps[k].info) ==> #[trigger] has_row_of(t.rows, ps[k]),
{
    let w = with_updates(ps);
    lemma_with_updates(ps);
    lemma_with_updates_from(ps);
    assert forall|i: int| 0 <= i < t.rows.len() implies #[trigger] shows_outdated_of(t.rows[i], ps) by {
        let x = q[i];
        assert(q.contains(x));
        lemma_same_packages_contain(q, w, x);
        let m = choose|m: int| 0 <= m < w.len() && w[m] == x;
        assert(has_update(w[m].info));
        assert(ps.contains(w[m]));
        let k = choose|k: int| 0 <= k < ps.len() && ps[k] == w[m];
        assert(row_shows(t.rows[i], ps[k]));
    }
    assert forall|k: int| 0 <= k < ps.len() && has_update(ps[k].info) implies #[trigger] has_row_of(
        t.rows,
        ps[k],
    ) by {
        assert(w.contains(ps[k]));
        lemma_same_packages_contain(w, q, ps[k]);
        let i = choose|i: int| 0 <= i < q.len() && q[i] == ps[k];
        assert(row_shows(t.rows[i], ps[k]));
    }
}

/// A package found in one of two sequences that hold the same packages is found in the other.
pub proof fn lemma_same_packages_contain(a: Seq<PackageView>, b: Seq<PackageView>, x: PackageView)
    requires
        a.to_multiset() == b.to_multiset(),
        a.contains(x),
    ensures
        b.contains(x),
{
    broadcast use vstd::seq_lib::group_to_multiset_ensures;

    assert(a.to_multiset().count(x) > 0);
}

/// Every package kept by the filter is one of the packages it was given.
proof fn lemma_with_updates_from(ps: Seq<PackageView>)
    ensures
        forall|i: int| 0 <= i < with_updates(ps).len() ==> ps.contains(#[trigger] with_updates(ps)[i]),
    decreases ps.len(),
{
    if ps.len() > 0 {
        lemma_with_updates_from(ps.drop_last());
        assert forall|i: int| 0 <= i < with_updates(ps).len() implies ps.contains(
            #[trigger] with_updates(ps)[i],
        ) by {
            let rest = with_updates(ps.drop_last());
            if i < rest.len() {
                assert(with_updates(ps)[i] == rest[i]);
                let k = choose|k: int| 0 <= k < ps.drop_last().len() && ps.drop_last()[k] == rest[i];
                assert(ps[k] == rest[i]);
            } else {
                assert(with_updates(ps)[i] == ps.last());
                assert(ps[ps.len() - 1] == ps.last());
            }
        }
    }
}

/// Once cargo has run to install cargo-binstall, init succeeds exactly when cargo succeeded,
/// and says so; where cargo failed, it fails with what cargo wrote to its error stream. No
/// other step of init reports a failed installation.
pub proof fn lemma_init_reports_install_outcome(s: InitState, e: EventView)
    ensures
        s == InitState::AwaitCargo ==> (e matches EventView::CargoFinished(Ok(out)) ==> {
            &&& out.success ==> init_resume(s, e).effect == EffectView::Finish(Ok(()))
                && init_resume(s, e).logs == seq![info("cargo-binstall installed successfully"@)]
            &&& !out.success ==> init_resume(s, e).effect == EffectView::Finish(
                Err(ErrorView::InstallFailed(out.stderr)),
            )
        }),
        init_resume(s, e).effect matches EffectView::Finish(Err(ErrorView::InstallFailed(m))) ==> {
            &&& s == InitState::AwaitCargo
            &&& e matches EventView::CargoFinished(Ok(out))
            &&& !out.success && m == out.stderr
        },
{
}

/// An update runs cargo only where cargo-binstall is among the installed packages `ps`,
/// whether it asks first or not, and whatever the answer: neither the first step, nor the step
/// after the answer, nor any later one. Where the user says yes, cargo-binstall is used
/// exactly when it is installed; without it, the update says so and finishes without error.
pub proof fn lemma_update_needs_binstall(
    ps: Seq<PackageView>,
    no_confirm: bool,
    answer: EventView,
    later: EventView,
)
    ensures
        ({
            let first = update_start(ps, no_confirm);
            let second = update_resume(first.state, answer);
            &&& first.effect is RunCargo ==> has_binstall(ps)
            &&& second.effect is RunCargo ==> has_binstall(ps) && answer == EventView::Answered(
                Ok(true),
            )
            &&& update_resume(second.state, later).effect !is RunCargo
            &&& first.effect is Confirm && answer == EventView::Answered(Ok(true)) ==> {
                &&& second.effect is RunCargo <==> has_binstall(ps)
                &&& !has_binstall(ps) ==> second.effect == EffectView::Finish(Ok(()))
                    && second.logs == seq![
                    info("Not updating packages"@),
                    info("cargo-binstall is not installed"@),
                    info("Run `cargo install cargo-binstall` to install it"@),
                ]
            }
        }),
{
    let first = update_start(ps, no_confirm);
    assert(Seq::<LogView>::empty() + seq![
        info("Not updating packages"@),
        info("cargo-binstall is not installed"@),
        info("Run `cargo install cargo-binstall` to install it"@),
    ] =~= seq![
        info("Not updating packages"@),
        info("cargo-binstall is not installed"@),
        info("Run `cargo install cargo-binstall` to install it"@),
    ]);
}

} // verus!
