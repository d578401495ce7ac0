//! Shims: the small launchers put on the PATH for the executables a package
//! declares, and the files that stand for them.
use vstd::prelude::*;

use crate::text::{after_last, is_last, starts_with, str_eq, str_starts_with, to_lowercase, lowered, views};

verus! {

/// A shim, as a manifest's `bin` entry declares it.
#[derive(Debug)]
pub struct Shim<'a> {
    /// Name the shim is called by.
    pub name: &'a str,
    /// Path of the executable, relative to the package's directory.
    pub real_name: &'a str,
    /// Kind of the executable.
    pub ty: ShimType,
    /// Arguments passed along, where the entry gives a name.
    pub args: Option<Vec<&'a str>>,
}

/// Kind of executable a shim launches, by the file extension.
#[derive(Clone, Copy, Debug, PartialEq, Eq, Hash, Structural)]
#[non_exhaustive]
pub enum ShimType {
    /// Bash script: a file without a known extension.
    Bash,
    /// Batch script: a `.bat`/`.cmd` file.
    Batch,
    /// Executable: a `.exe`/`.com` file.
    Exe,
    /// Java JAR: a `.jar` file.
    Java,
    /// PowerShell script: a `.ps1` file.
    PowerShell,
    /// Python script: a `.py` file.
    Python,
}

/// `t` is a run of consecutive characters of `s`, right after a `.`.
pub open spec fn follows_dot(t: Seq<char>, s: Seq<char>) -> bool {
    exists|i: int| 1 <= i && i + t.len() <= s.len() && s[i - 1] == '.' && #[trigger] s.subrange(i, i + t.len()) == t
}

/// `t` is a run of consecutive characters of `s`.
pub open spec fn occurs_in(t: Seq<char>, s: Seq<char>) -> bool {
    exists|i: int| 0 <= i && i + t.len() <= s.len() && #[trigger] s.subrange(i, i + t.len()) == t
}

/// `p` is a single plain file name on every platform: not empty, not `.`
/// or `..`, and free of the separators `/` and `\` and of the `:` of a
/// drive prefix.
pub open spec fn plain_file_name(p: Seq<char>) -> bool {
    &&& p.len() > 0
    &&& p != "."@
    &&& p != ".."@
    &&& !p.contains('/')
    &&& !p.contains('\\')
    &&& !p.contains(':')
}

/// The stem of a file name: all of it when it holds no `.` or only a
/// leading one, else what precedes its last `.`.
pub open spec fn stem_of(name: Seq<char>) -> Seq<char> {
    if name.contains('.') {
        let i = choose|i: int| is_last(name, '.', i);
        if i == 0 {
            name
        } else {
            name.take(i)
        }
    } else {
        name
    }
}

/// The extension of a file name: what follows its last `.`, unless it holds
/// no `.` or only a leading one.
pub open spec fn ext_of(name: Seq<char>) -> Option<Seq<char>> {
    if name.contains('.') {
        let i = choose|i: int| is_last(name, '.', i);
        if i == 0 {
            None
        } else {
            Some(name.skip(i + 1))
        }
    } else {
        None
    }
}

/// The last component of a path written with `/` separators.
pub open spec fn leaf_of(p: Seq<char>) -> Seq<char> {
    after_last(p, '/')
}

/// `p` reads the same on every platform, and its last component is its file
/// name: it holds no `\` (a separator on Windows only) and no `:` (a drive
/// prefix on Windows), does not begin with `//` (a network prefix on
/// Windows), and what follows its last `/` is a plain file name.
pub open spec fn portable_path(p: Seq<char>) -> bool {
    &&& !p.contains('\\')
    &&& !p.contains(':')
    &&& !(p.len() >= 2 && p[0] == '/' && p[1] == '/')
    &&& plain_file_name(leaf_of(p))
}

/// `c` separates path components on some platform: `/` everywhere, `\` on
/// Windows.
pub open spec fn is_sep(c: char) -> bool {
    c == '/' || c == '\\'
}

/// `i` is the position of the `.` that starts the extension of `path` on
/// every platform: it is the last `.`; no separator follows it; it is not
/// the first character of the last component, which is not `..`; and
/// `path` has no `:` (a drive prefix on Windows) and does not begin with
/// two separators (a network or device prefix on Windows).
pub open spec fn extension_dot(p: Seq<char>, i: int) -> bool {
    &&& is_last(p, '.', i)
    &&& 0 < i
    &&& !is_sep(p[i - 1])
    &&& forall|j: int| i < j < p.len() ==> !is_sep(#[trigger] p[j])
    &&& !(i == p.len() - 1 && p[i - 1] == '.' && (i == 1 || is_sep(p[i - 2])))
    &&& !p.contains(':')
    &&& !(p.len() >= 2 && is_sep(p[0]) && is_sep(p[1]))
}

/// The extension of `path` where every platform gives the same one: what
/// follows the `.` that starts it.
pub open spec fn common_extension(p: Seq<char>) -> Option<Seq<char>> {
    if exists|i: int| extension_dot(p, i) {
        let i = choose|i: int| extension_dot(p, i);
        Some(p.skip(i + 1))
    } else {
        None
    }
}

/// `Path::file_stem` of `path`, as a string: the file name without its
/// extension. Which part of `path` the file name is depends on the
/// platform's separators and prefixes, so in general the contract claims
/// only that the stem is a run of consecutive characters of `path`. Where
/// `path` reads the same on every platform, its file name is what follows
/// its last `/`, and the stem is what the documentation of `file_stem`
/// describes: the whole name without an embedded `.` or with only a leading
/// one, else the part before the final `.`.
#[verifier::external_body]
fn file_stem(path: &str) -> (res: Option<&str>)
    ensures
        res matches Some(s) ==> occurs_in(s@, path@),
        portable_path(path@) ==> res is Some && res.unwrap()@ == stem_of(leaf_of(path@)),
{
    std::path::Path::new(path).file_stem().and_then(|s| s.to_str())
}

/// `Path::extension` of `path`, as a string: what follows the last `.` of
/// the file name. Which part of `path` the file name is depends on the
/// platform's separators and prefixes, so in general the contract claims
/// only that the extension holds no `.` and comes right after a `.` of
/// `path`. Where `path` reads the same on every platform, its file name is
/// what follows its last `/`, and the extension is what the documentation
/// of `extension` describes: none without an embedded `.` or with only a
/// leading one, else what follows the final `.`. Where the last `.` of
/// `path` lies in its last component on every platform, and is not its
/// first character, the extension is what follows that `.`, whichever
/// separators the platform has.
#[verifier::external_body]
fn file_extension(path: &str) -> (res: Option<&str>)
    ensures
        res matches Some(e) ==> !e@.contains('.') && follows_dot(e@, path@),
        portable_path(path@) ==> (res is Some <==> ext_of(leaf_of(path@)) is Some),
        portable_path(path@) && res is Some ==> res.unwrap()@ == ext_of(leaf_of(path@)).unwrap(),
        common_extension(path@) is Some ==> res is Some && res.unwrap()@ == common_extension(path@).unwrap(),
{
    std::path::Path::new(path).extension().and_then(|s| s.to_str())
}

/// The base name of the last component of a path: its file stem. A path
/// that reads the same on every platform always has one.
pub fn leaf_base(path: &str) -> (res: Option<&str>)
    ensures
        res matches Some(s) ==> occurs_in(s@, path@),
        portable_path(path@) ==> res is Some && res.unwrap()@ == stem_of(leaf_of(path@)),
{
    file_stem(path)
}

/// The kind of a shim by the lower-case extension of its executable.
pub open spec fn shim_type_of(ext: Option<Seq<char>>) -> ShimType {
    match ext {
        Some(e) => if e == "bat"@ || e == "cmd"@ {
            ShimType::Batch
        } else if e == "exe"@ || e == "com"@ {
            ShimType::Exe
        } else if e == "jar"@ {
            ShimType::Java
        } else if e == "ps1"@ {
            ShimType::PowerShell
        } else if e == "py"@ {
            ShimType::Python
        } else {
            ShimType::Bash
        },
        None => ShimType::Bash,
    }
}

/// The kind of a shim by the lower-case extension of its executable.
pub fn shim_type_of_lowercase(ext: Option<&str>) -> (res: ShimType)
    ensures
        res == shim_type_of(match ext {
            Some(e) => Some(e@),
            None => None,
        }),
{
    match ext {
        Some(e) => if str_eq(e, "bat") || str_eq(e, "cmd") {
            ShimType::Batch
        } else if str_eq(e, "exe") || str_eq(e, "com") {
            ShimType::Exe
        } else if str_eq(e, "jar") {
            ShimType::Java
        } else if str_eq(e, "ps1") {
            ShimType::PowerShell
        } else if str_eq(e, "py") {
            ShimType::Python
        } else {
            ShimType::Bash
        },
        None => ShimType::Bash,
    }
}

/// The kind of a shim by the extension of its executable, whatever the
/// case of its letters.
pub fn shim_type(ext: Option<&str>) -> (res: ShimType)
    ensures
        res == shim_type_of(match ext {
            Some(e) => Some(lowered(e@)),
            None => None,
        }),
{
    match ext {
        Some(e) => {
            let lower = to_lowercase(e);
            shim_type_of_lowercase(Some(lower.as_str()))
        },
        None => shim_type_of_lowercase(None),
    }
}

/// The entries of a `bin` definition after the executable and its name.
pub fn tail_args<'a>(def: &Vec<&'a str>) -> (res: Vec<&'a str>)
    requires
        def@.len() >= 2,
    ensures
        res@ == def@.skip(2),
{
    let mut res: Vec<&'a str> = Vec::new();
    let mut i: usize = 2;
    while i < def.len()
        invariant
            2 <= i <= def@.len(),
            res@ == def@.subrange(2, i as int),
        decreases def@.len() - i,
    {
        res.push(def[i]);
        assert(def@.subrange(2, i + 1) =~= def@.subrange(2, i as int).push(def@[i as int]));
        i += 1;
    }
    assert(def@.subrange(2, def@.len() as int) =~= def@.skip(2));
    res
}

impl<'a> Shim<'a> {
    /// A shim from a `bin` definition `[executable, name, args...]`, given
    /// the file stem and the kind of the executable: the name defaults to
    /// the stem, then to the executable itself; arguments come with a name.
    pub fn from_parts(def: Vec<&'a str>, stem: Option<&'a str>, ty: ShimType) -> (res: Shim<'a>)
        requires
            def@.len() > 0,
        ensures
            res.real_name == def@[0],
            res.name == (if def@.len() == 1 {
                match stem {
                    Some(s) => s,
                    None => def@[0],
                }
            } else {
                def@[1]
            }),
            res.ty == ty,
            match res.args {
                Some(a) => def@.len() >= 2 && a@ == def@.skip(2),
                None => def@.len() < 2,
            },
    {
        let real_name = def[0];
        let name = if def.len() == 1 {
            match stem {
                Some(s) => s,
                None => real_name,
            }
        } else {
            def[1]
        };
        let args = if def.len() < 2 {
            None
        } else {
            Some(tail_args(&def))
        };
        Shim { name, real_name, ty, args }
    }

    /// A shim from a `bin` definition `[executable, name, args...]`: the
    /// name defaults to the executable's file stem, then to the executable
    /// itself; the kind follows the executable's extension; arguments come
    /// with a name.
    pub fn new(def: Vec<&'a str>) -> (res: Shim<'a>)
        requires
            def@.len() > 0,
        ensures
            res.real_name == def@[0],
            def@.len() >= 2 ==> res.name == def@[1],
            def@.len() == 1 ==> occurs_in(res.name@, def@[0]@),
            def@.len() == 1 && portable_path(def@[0]@) ==> res.name@ == stem_of(leaf_of(def@[0]@)),
            !def@[0]@.contains('.') ==> res.ty == ShimType::Bash,
            common_extension(def@[0]@) matches Some(e) ==> res.ty == shim_type_of(Some(lowered(e))),
            portable_path(def@[0]@) ==> res.ty == shim_type_of(
                match ext_of(leaf_of(def@[0]@)) {
                    Some(e) => Some(lowered(e)),
                    None => None,
                },
            ),
            match res.args {
                Some(a) => def@.len() >= 2 && a@ == def@.skip(2),
                None => def@.len() < 2,
            },
    {
        let real_name = def[0];
        let stem = if def.len() == 1 {
            leaf_base(real_name)
        } else {
            None
        };
        let ext = file_extension(real_name);
        proof {
            if !real_name@.contains('.') {
                if ext is Some {
                    let e = ext.unwrap();
                    let i = choose|i: int|
                        1 <= i && i + e@.len() <= real_name@.len() && real_name@[i - 1] == '.'
                            && #[trigger] real_name@.subrange(i, i + e@.len()) == e@;
                    assert(real_name@[i - 1] == '.');
                }
            }
            if def@.len() == 1 && stem is None {
                assert(real_name@.subrange(0int, 0int + real_name@.len()) =~= real_name@);
                assert(occurs_in(real_name@, real_name@));
            }
        }
        let ty = shim_type(ext);
        Shim::from_parts(def, stem, ty)
    }
}

/// The extensions of the files that stand for a shim of each kind; the
/// empty extension is the bare name.
pub open spec fn shim_extensions_spec(ty: ShimType) -> Seq<Seq<char>> {
    match ty {
        ShimType::Exe => seq!["exe"@, "shim"@, "cmd"@],
        ShimType::PowerShell => seq!["cmd"@, "ps1"@, ""@],
        _ => seq!["cmd"@, ""@],
    }
}

/// The extensions of the files that stand for a shim of this kind.
pub fn shim_extensions(ty: ShimType) -> (res: Vec<&'static str>)
    ensures
        res@.map_values(|e: &str| e@) == shim_extensions_spec(ty),
{
    let v = match ty {
        ShimType::Exe => vec!["exe", "shim", "cmd"],
        ShimType::PowerShell => vec!["cmd", "ps1", ""],
        _ => vec!["cmd", ""],
    };
    assert(v@.map_values(|e: &str| e@) =~= shim_extensions_spec(ty));
    v
}

/// The file name of a shim with an extension: `name.ext`, or `name` for the
/// empty extension.
pub open spec fn shim_file_name(name: Seq<char>, ext: Seq<char>) -> Seq<char> {
    if ext.len() == 0 {
        name
    } else {
        name + "."@ + ext
    }
}

/// The file name of a shim with an extension.
pub fn shim_base_name(name: &str, ext: &str) -> (res: String)
    ensures
        res@ == shim_file_name(name@, ext@),
{
    let mut r = String::from_str(name);
    if !ext.is_empty() {
        r.append(".");
        r.append(ext);
    }
    r
}

/// The files a shim file may stand as: first the copy that keeps the
/// package's name, then the file itself.
pub fn shim_file_candidates(base_name: &str, pkg_name: &str) -> (res: Vec<String>)
    ensures
        views(res@) == seq![base_name@ + "."@ + pkg_name@, base_name@],
{
    let mut first = String::from_str(base_name);
    first.append(".");
    first.append(pkg_name);
    let second = String::from_str(base_name);
    let mut res: Vec<String> = Vec::new();
    res.push(first);
    res.push(second);
    assert(views(res@) =~= seq![base_name@ + "."@ + pkg_name@, base_name@]);
    res
}

/// A file of the shim directory can be restored as the shim: its name
/// starts with the shim's file name and is not that name.
pub open spec fn alternate_of(file: Seq<char>, base: Seq<char>) -> bool {
    starts_with(file, base) && file != base
}

/// The file to restore as the shim once the shim is removed: among the
/// files that can be restored, the one modified last, the first of them in
/// the listing where several were modified at the same time.
pub open spec fn is_alternate_pick(files: Seq<(String, u128)>, base: Seq<char>, i: int) -> bool {
    &&& 0 <= i < files.len()
    &&& alternate_of(files[i].0@, base)
    &&& forall|j: int| 0 <= j < files.len() && alternate_of(files[j].0@, base) ==> files[j].1 <= files[i].1
    &&& forall|j: int| 0 <= j < i && alternate_of(files[j].0@, base) ==> files[j].1 < files[i].1
}

/// Picks the file to restore as the shim: the file names of the shim
/// directory with their modification times, by position.
pub fn pick_alternate(files: &Vec<(String, u128)>, base: &str) -> (res: Option<usize>)
    ensures
        match res {
            Some(i) => is_alternate_pick(files@, base@, i as int),
            None => forall|j: int| 0 <= j < files@.len() ==> !alternate_of(files@[j].0@, base@),
        },
{
    let mut best: Option<usize> = None;
    let mut i: usize = 0;
    while i < files.len()
        invariant
            i <= files@.len(),
            match best {
                Some(b) => b < i && alternate_of(files@[b as int].0@, base@)
                    && (forall|j: int| 0 <= j < i && alternate_of(files@[j].0@, base@) ==> files@[j].1 <= files@[b as int].1)
                    && (forall|j: int| 0 <= j < b && alternate_of(files@[j].0@, base@) ==> files@[j].1 < files@[b as int].1),
                None => forall|j: int| 0 <= j < i ==> !alternate_of(files@[j].0@, base@),
            },
        decreases files@.len() - i,
    {
        let name = files[i].0.as_str();
        let is_alt = str_starts_with(name, base) && !str_eq(name, base);
        if is_alt {
            match best {
                None => {
                    best = Some(i);
                },
                Some(b) => {
                    if files[i].1 > files[b].1 {
                        best = Some(i);
                    }
                },
            }
        }
        i += 1;
    }
    best
}

/// What a batch shim holds: it runs the executable with all arguments.
pub open spec fn cmd_shim_text(target: Seq<char>) -> Seq<char> {
    "@echo off\n\""@ + target + "\" %*\n"@
}

/// What a `.shim` file holds: the path of the executable and no arguments.
pub open spec fn shim_file_text(target: Seq<char>) -> Seq<char> {
    "path = "@ + target + "\nargs =\n"@
}

/// The text of a batch shim for the executable at `target`.
pub fn cmd_shim_content(target: &str) -> (res: String)
    ensures
        res@ == cmd_shim_text(target@),
{
    let mut r = String::from_str("@echo off\n\"");
    r.append(target);
    r.append("\" %*\n");
    r
}

/// The text of a `.shim` file for the executable at `target`.
pub fn shim_file_content(target: &str) -> (res: String)
    ensures
        res@ == shim_file_text(target@),
{
    let mut r = String::from_str("path = ");
    r.append(target);
    r.append("\nargs =\n");
    r
}

} // verus!
