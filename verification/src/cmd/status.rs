//! `status`: show the status of the package manager and its packages.
use vstd::prelude::*;

use crate::status::{flag_text, StatusEntry, StatusInfoFlag};
use crate::text::{join, join_strings, views};

verus! {

/// Show status and check for new app versions
pub struct Args {
    /// Check only local manifests, skip git-based outdated detection.
    pub local: bool,
    /// Print the report as JSON.
    pub json: bool,
}

/// The colour a cell is shown in.
#[derive(Clone, Copy, Debug, PartialEq, Eq, Structural)]
pub enum CellColor {
    Red,
    Yellow,
    Magenta,
    White,
    Blue,
    Green,
    Plain,
}

/// The colour of the flags of an entry: red for a failed install or a
/// removed manifest, else yellow for outdated or missing dependencies, else
/// magenta for a hold, else white.
pub open spec fn flags_color_spec(flags: Seq<StatusInfoFlag>) -> CellColor {
    if flags.contains(StatusInfoFlag::InstallFailed) || flags.contains(StatusInfoFlag::ManifestRemoved) {
        CellColor::Red
    } else if flags.contains(StatusInfoFlag::Outdated) || flags.contains(
        StatusInfoFlag::MissingDependencies,
    ) {
        CellColor::Yellow
    } else if flags.contains(StatusInfoFlag::Held) {
        CellColor::Magenta
    } else {
        CellColor::White
    }
}

/// Whether the flags hold `f`.
pub fn has_flag(flags: &Vec<StatusInfoFlag>, f: StatusInfoFlag) -> (res: bool)
    ensures
        res == flags@.contains(f),
{
    let mut i: usize = 0;
    while i < flags.len()
        invariant
            i <= flags@.len(),
            forall|k: int| 0 <= k < i ==> flags@[k] != f,
        decreases flags@.len() - i,
    {
        if flags[i] == f {
            return true;
        }
        i += 1;
    }
    false
}

/// The texts of the flags.
pub open spec fn flag_texts(flags: Seq<StatusInfoFlag>) -> Seq<Seq<char>> {
    flags.map_values(|f: StatusInfoFlag| flag_text(f))
}

/// The flags cell of an entry: `-` without flags, else their texts joined
/// with `, ` in the colour the most serious flag calls for.
pub fn flags_cell(flags: &Vec<StatusInfoFlag>) -> (res: (String, CellColor))
    ensures
        flags@.len() == 0 ==> res.0@ == "-"@ && res.1 == CellColor::Plain,
        flags@.len() > 0 ==> res.0@ == join(flag_texts(flags@), ", "@) && res.1 == flags_color_spec(flags@),
{
    if flags.len() == 0 {
        return (String::from_str("-"), CellColor::Plain);
    }
    let mut texts: Vec<String> = Vec::new();
    let mut i: usize = 0;
    while i < flags.len()
        invariant
            i <= flags@.len(),
            views(texts@) == flag_texts(flags@.take(i as int)),
        decreases flags@.len() - i,
    {
        let t = flags[i].as_str();
        let ghost prev = texts@;
        texts.push(String::from_str(t));
        assert(views(texts@) =~= views(prev).push(flag_text(flags@[i as int])));
        assert(flag_texts(flags@.take(i + 1)) =~= flag_texts(flags@.take(i as int)).push(flag_text(flags@[i as int])));
        i += 1;
    }
    assert(flags@.take(flags@.len() as int) =~= flags@);
    let text = join_strings(&texts, ", ");
    let color = if has_flag(flags, StatusInfoFlag::InstallFailed) || has_flag(flags, StatusInfoFlag::ManifestRemoved) {
        CellColor::Red
    } else if has_flag(flags, StatusInfoFlag::Outdated) || has_flag(flags, StatusInfoFlag::MissingDependencies) {
        CellColor::Yellow
    } else if has_flag(flags, StatusInfoFlag::Held) {
        CellColor::Magenta
    } else {
        CellColor::White
    };
    (text, color)
}

/// The missing-dependencies cell of an entry: `-` where none is missing,
/// else their names joined with `, ` in yellow.
pub fn missing_cell(entry: &StatusEntry) -> (res: (String, CellColor))
    ensures
        entry.missing_dependencies@.len() == 0 ==> res.0@ == "-"@ && res.1 == CellColor::Plain,
        entry.missing_dependencies@.len() > 0 ==> res.0@ == join(views(entry.missing_dependencies@), ", "@)
            && res.1 == (if res.0@ == "-"@ { CellColor::Plain } else { CellColor::Yellow }),
{
    if entry.missing_dependencies.len() == 0 {
        (String::from_str("-"), CellColor::Plain)
    } else {
        let text = join_strings(&entry.missing_dependencies, ", ");
        let color = if crate::text::str_eq(text.as_str(), "-") {
            CellColor::Plain
        } else {
            CellColor::Yellow
        };
        (text, color)
    }
}

/// The installed-version cell of an entry: the version, dimmed, or `-`.
pub fn installed_cell(entry: &StatusEntry) -> (res: (String, bool))
    ensures
        match entry.installed_version {
            Some(v) => res.0@ == v@ && res.1,
            None => res.0@ == "-"@ && !res.1,
        },
{
    match &entry.installed_version {
        Some(v) => (crate::text::owned(v.as_str()), true),
        None => (String::from_str("-"), false),
    }
}

/// The available-version cell of an entry: the version in blue, or `-`.
pub fn latest_cell(entry: &StatusEntry) -> (res: (String, CellColor))
    ensures
        match entry.latest_version {
            Some(v) => res.0@ == v@ && res.1 == CellColor::Blue,
            None => res.0@ == "-"@ && res.1 == CellColor::Plain,
        },
{
    match &entry.latest_version {
        Some(v) => (crate::text::owned(v.as_str()), CellColor::Blue),
        None => (String::from_str("-"), CellColor::Plain),
    }
}

} // verus!
