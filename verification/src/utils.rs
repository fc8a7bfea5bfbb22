//! A strict variant of the commands: a package line must be a name and a version that ends
//! with `:`, an update never asks and never updates cargo-binstall itself, and a list prints
//! its headings and keeps the packages in their order.
use vstd::prelude::*;

use crate::data::{CheckView, PackageInfo, PackageView, StyledCell};
use crate::error::Error;
use crate::flow::{
    cell_views, info, log_views, print, Effect, EffectView, ListReport, ListView, LogLevel,
    LogLine, LogView, Step, StepView, TablePreset, TableSpec, TableView,
};
use crate::logic::{
    bold_cell, has_binstall, header_cell, names_with_updates, no_logs, one_info, package_row,
    package_row_cells, package_views, packages_with_updates, push_info, update_go_ahead,
    update_names, update_proceed, version_word, with_updates, UpdateState, UpdateView,
};
use crate::text::{
    chars_of, remove_char, same_text, split_whitespace, string_of, string_views, trim_end_char,
    words,
};
use crate::version::{parts_view, semver_parse, Version};

pub use crate::logic::version_occurrences;

verus! {

/// A package line in the strict variant: exactly two words, the second one ending with `:`.
pub open spec fn strict_line_words(line: Seq<char>) -> bool {
    let ws = words(line);
    ws.len() == 2 && ws[1].len() > 0 && ws[1].last() == ':'
}

/// Parses a line of `cargo install --list` that must read `name vX.Y.Z:`.
pub fn parse_package_line(line: &str) -> (r: Result<PackageInfo, Error>)
    ensures
        ({
            let ws = words(line@);
            if strict_line_words(line@) {
                match semver_parse(version_word(ws[1])) {
                    Ok(p) => r matches Ok(pkg) && pkg@ == (PackageView {
                        name: ws[0],
                        version: parts_view(p),
                        info: CheckView::UnAvailable,
                    }),
                    Err(m) => r matches Err(Error::InvalidVersion(msg)) && msg@ == m,
                }
            } else {
                r matches Err(Error::MalformedPackageLine(l)) && l@ == line@
            }
        }),
{
    let parts = split_whitespace(line);
    assert(string_views(parts@) == words(line@));
    if parts.len() == 2 {
        let word = chars_of(parts[1].as_str());
        assert(word@ == words(line@)[1]);
        if word.len() > 0 && word[word.len() - 1] == ':' {
            let name = parts[0].clone();
            let text = string_of(&remove_char(&trim_end_char(&word, ':'), 'v'));
            return match Version::parse(text.as_str()) {
                Ok(version) => Ok(PackageInfo::new(name, version)),
                Err(m) => Err(Error::InvalidVersion(m)),
            };
        }
    }
    Err(Error::MalformedPackageLine(line.to_owned()))
}

/// The names of the packages to update in the strict variant: those with a newer version, but
/// not cargo-binstall, which cannot update itself.
pub open spec fn names_without_binstall(names: Seq<Seq<char>>) -> Seq<Seq<char>> {
    names.filter(|n: Seq<char>| n != "cargo-binstall"@)
}

/// The first step of an update in the strict variant: no question asked; a note printed where
/// cargo-binstall itself has a newer version.
pub open spec fn update_strict(ps: Seq<PackageView>) -> StepView<UpdateView> {
    let all = update_names(ps);
    let names = names_without_binstall(all);
    let note: Seq<LogView> = if all.contains("cargo-binstall"@) {
        seq![print("cargo-binstall cannot update itself, please update it manually"@)]
    } else {
        Seq::empty()
    };
    if names.len() == 0 {
        StepView {
            state: UpdateView::Done,
            logs: note.push(info("No packages to update"@)),
            effect: EffectView::Finish(Ok(())),
        }
    } else {
        update_proceed(names, has_binstall(ps), note)
    }
}

fn without_binstall(names: &Vec<String>) -> (r: Vec<String>)
    ensures
        string_views(r@) == names_without_binstall(string_views(names@)),
{
    let ghost keep = |n: Seq<char>| n != "cargo-binstall"@;
    let mut r: Vec<String> = Vec::new();
    let mut i: usize = 0;
    while i < names.len()
        invariant
            keep == (|n: Seq<char>| n != "cargo-binstall"@),
            i <= names.len(),
            string_views(r@) == string_views(names@).take(i as int).filter(keep),
        decreases names.len() - i,
    {
        let ghost before = r@;
        assert(string_views(names@).take(i + 1).drop_last() == string_views(names@).take(i as int));
        assert(string_views(names@).take(i + 1).last() == names@[i as int]@);
        reveal_with_fuel(Seq::<_>::filter, 1);
        if !same_text(names[i].as_str(), "cargo-binstall") {
            r.push(names[i].clone());
            assert(string_views(r@) =~= string_views(before).push(names@[i as int]@));
        }
        i += 1;
    }
    assert(string_views(names@).take(names.len() as int) == string_views(names@));
    r
}

fn contains_binstall(names: &Vec<String>) -> (r: bool)
    ensures
        r == string_views(names@).contains("cargo-binstall"@),
{
    let mut i: usize = 0;
    while i < names.len()
        invariant
            i <= names.len(),
            forall|k: int| 0 <= k < i ==> string_views(names@)[k] != "cargo-binstall"@,
        decreases names.len() - i,
    {
        if same_text(names[i].as_str(), "cargo-binstall") {
            assert(string_views(names@)[i as int] == "cargo-binstall"@);
            return true;
        }
        i += 1;
    }
    false
}

/// The first step of updating the installed packages `pkgs` in the strict variant: the packages
/// with a newer version, but not cargo-binstall, are updated with cargo-binstall where it is
/// installed, with no question asked.
pub fn update(pkgs: &[PackageInfo]) -> (r: Step<UpdateState>)
    ensures
        r@ == update_strict(package_views(pkgs@)),
{
    let all = names_with_updates(pkgs);
    let mut logs = no_logs();
    if contains_binstall(&all) {
        let ghost before = logs@;
        logs.push(
            LogLine {
                level: LogLevel::Print,
                text: "cargo-binstall cannot update itself, please update it manually".to_owned(),
            },
        );
        assert(log_views(logs@) =~= seq![
            print("cargo-binstall cannot update itself, please update it manually"@),
        ]);
    }
    let names = without_binstall(&all);
    if names.len() == 0 {
        push_info(&mut logs, "No packages to update");
        return Step { state: UpdateState::Done, logs, effect: Effect::Finish(Ok(())) };
    }
    let binstall = crate::logic::binstall_installed(pkgs);
    update_go_ahead(names, binstall, logs)
}

/// The table of the strict variant: a bold header, then a row per package in the order given,
/// in the full layout.
pub open spec fn plain_table(ps: Seq<PackageView>) -> TableView {
    TableView {
        preset: TablePreset::Full,
        header: seq![header_cell("Name"@), header_cell("Version"@), header_cell("Status"@)],
        rows: ps.map_values(|p: PackageView| package_row(p)),
    }
}

/// The table that shows the packages in the order given.
pub fn create_table(pkgs: &[PackageInfo]) -> (r: TableSpec)
    ensures
        r@ == plain_table(package_views(pkgs@)),
{
    let mut header: Vec<StyledCell> = Vec::new();
    header.push(bold_cell("Name"));
    header.push(bold_cell("Version"));
    header.push(bold_cell("Status"));
    let ghost target = package_views(pkgs@).map_values(|p: PackageView| package_row(p));
    let mut rows: Vec<Vec<StyledCell>> = Vec::new();
    let mut i: usize = 0;
    while i < pkgs.len()
        invariant
            i <= pkgs@.len(),
            target == package_views(pkgs@).map_values(|p: PackageView| package_row(p)),
            rows@.map_values(|r: Vec<StyledCell>| cell_views(r@)) == target.take(i as int),
        decreases pkgs@.len() - i,
    {
        let ghost before = rows@;
        let row = package_row_cells(&pkgs[i]);
        rows.push(row);
        assert(rows@.map_values(|r: Vec<StyledCell>| cell_views(r@)) =~= before.map_values(
            |r: Vec<StyledCell>| cell_views(r@),
        ).push(target[i as int]));
        i += 1;
        assert(target.take(i as int) =~= target.take(i - 1).push(target[i - 1]));
    }
    assert(target.take(pkgs@.len() as int) =~= target);
    let r = TableSpec { preset: TablePreset::Full, header, rows };
    assert(r@.header =~= plain_table(package_views(pkgs@)).header);
    assert(r@.rows =~= plain_table(package_views(pkgs@)).rows);
    r
}

/// What the list command of the strict variant shows: printed headings, the packages in their
/// order, and no count.
pub open spec fn list_strict(ps: Seq<PackageView>, only_updates: bool) -> ListView {
    if ps.len() == 0 {
        ListView { logs: seq![info("No packages found"@)], table: None, count_line: None }
    } else if only_updates && with_updates(ps).len() == 0 {
        ListView {
            logs: seq![print("No packages with newer versions found"@)],
            table: None,
            count_line: None,
        }
    } else if only_updates {
        ListView {
            logs: seq![print("Packages with newer versions:"@)],
            table: Some(plain_table(with_updates(ps))),
            count_line: None,
        }
    } else {
        ListView {
            logs: seq![print("All installed packages:"@)],
            table: Some(plain_table(ps)),
            count_line: None,
        }
    }
}

fn one_print(text: &str) -> (r: Vec<LogLine>)
    ensures
        log_views(r@) == seq![print(text@)],
{
    let mut logs: Vec<LogLine> = Vec::new();
    logs.push(LogLine { level: LogLevel::Print, text: text.to_owned() });
    assert(log_views(logs@) =~= seq![print(text@)]);
    logs
}

/// What the list command of the strict variant shows of the installed packages `pkg_vec`.
pub fn list_pkgs(pkg_vec: Vec<PackageInfo>, only_updates: bool) -> (r: ListReport)
    ensures
        r@ == list_strict(package_views(pkg_vec@), only_updates),
{
    if pkg_vec.len() == 0 {
        return ListReport { logs: one_info("No packages found"), table: None, count_line: None };
    }
    if only_updates {
        let res = packages_with_updates(pkg_vec);
        if res.len() == 0 {
            return ListReport {
                logs: one_print("No packages with newer versions found"),
                table: None,
                count_line: None,
            };
        }
        let table = create_table(res.as_slice());
        ListReport {
            logs: one_print("Packages with newer versions:"),
            table: Some(table),
            count_line: None,
        }
    } else {
        let table = create_table(pkg_vec.as_slice());
        ListReport {
            logs: one_print("All installed packages:"),
            table: Some(table),
            count_line: None,
        }
    }
}

/// The strict update never runs cargo on cargo-binstall itself, and runs it on
/// every other package that has a newer version.
pub proof fn lemma_strict_update_skips_binstall(ps: Seq<PackageView>)
    ensures
        forall|i: int|
            0 <= i < names_without_binstall(update_names(ps)).len() ==> #[trigger] names_without_binstall(
                update_names(ps),
            )[i] != "cargo-binstall"@,
        forall|i: int|
            0 <= i < update_names(ps).len() && update_names(ps)[i] != "cargo-binstall"@
                ==> names_without_binstall(update_names(ps)).contains(#[trigger] update_names(ps)[i]),
        update_strict(ps).effect is RunCargo ==> update_strict(ps).effect == (
        EffectView::RunCargo {
            args: crate::logic::binstall_args(names_without_binstall(update_names(ps))),
            captured: true,
        }),
{
    let keep = |n: Seq<char>| n != "cargo-binstall"@;
    assert forall|i: int| 0 <= i < update_names(ps).filter(keep).len() implies #[trigger] update_names(ps).filter(
        keep,
    )[i] != "cargo-binstall"@ by {
        update_names(ps).lemma_filter_pred(keep, i);
    }
    assert forall|i: int|
        0 <= i < update_names(ps).len() && update_names(ps)[i] != "cargo-binstall"@ implies update_names(
            ps,
        ).filter(keep).contains(#[trigger] update_names(ps)[i]) by {
        update_names(ps).lemma_filter_contains(keep, i);
    }
}

} // verus!
