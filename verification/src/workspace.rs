//! Linked projects: what the model is shown of one, how one is linked and
//! removed, which files of it are read, and what plugins may run.
use vstd::prelude::*;

use crate::boundary;
use crate::decimal;
use crate::error;
use crate::error::{ApiError, Refusal};
use crate::num;
use crate::text;
use crate::types;

verus! {

/// A linked project.
#[derive(Debug, PartialEq, Eq)]
pub struct Workspace {
    pub id: String,
    pub name: String,
    pub path: String,
    pub build_system: String,
    pub created_at: String,
}

// ---- the project of a code session ---------------------------------------------------------

/// Why a code session's project cannot be used: none is linked, the linked
/// one cannot be looked up, it is gone, or its folder is. No other folder is
/// ever used in its place.
pub open spec fn link_refusal(
    linked: Seq<char>,
    found: Result<Option<Workspace>, String>,
    is_dir: bool,
) -> Option<Refusal> {
    if text::is_blank(linked) {
        Some(
            error::bad_request(
                "code session has no linked project"@,
                "Choose a project for this session before asking it to inspect or change files."@,
            ),
        )
    } else {
        match found {
            Err(e) => Some(error::failure("storage error: "@ + e@)),
            Ok(None) => Some(
                error::bad_request(
                    "the linked project no longer exists"@,
                    "Relink this session to the intended project. No other folder was used."@,
                ),
            ),
            Ok(Some(w)) => if is_dir {
                None
            } else {
                Some(
                    error::bad_request(
                        "project directory is unavailable: "@ + w.path@,
                        "Reconnect the drive or select the correct project folder."@,
                    ),
                )
            },
        }
    }
}

/// The project of a code session: the one explicitly linked, given what was
/// found under that id and whether its folder is there.
pub fn linked_code_workspace(
    linked: &str,
    found: Result<Option<Workspace>, String>,
    is_dir: bool,
) -> (r: Result<Workspace, ApiError>)
    ensures
        error::refusal_of(r) == link_refusal(linked@, found, is_dir),
        r matches Ok(w) ==> found == Ok::<Option<Workspace>, String>(Some(w)),
{
    if text::blank(linked) {
        return Err(
            ApiError::bad(
                "code session has no linked project",
                "Choose a project for this session before asking it to inspect or change files.",
            ),
        );
    }
    match found {
        Err(e) => {
            let mut message = "storage error: ".to_owned();
            message.append(&e);
            Err(ApiError::internal(&message))
        },
        Ok(None) => Err(
            ApiError::bad(
                "the linked project no longer exists",
                "Relink this session to the intended project. No other folder was used.",
            ),
        ),
        Ok(Some(w)) => {
            if is_dir {
                return Ok(w);
            }
            let mut message = "project directory is unavailable: ".to_owned();
            message.append(&w.path);
            Err(
                ApiError::bad(
                    &message,
                    "Reconnect the drive or select the correct project folder.",
                ),
            )
        },
    }
}

// ---- the build system ------------------------------------------------------------------------

/// The name is that of a solution or of a C# project: something before the
/// extension `sln` or `csproj`.
pub open spec fn is_solution(name: Seq<char>) -> bool {
    (text::ends(name, ".sln"@) && name != ".sln"@) || (text::ends(name, ".csproj"@) && name
        != ".csproj"@)
}

/// The build system whose marker is among the files, in order of precedence,
/// or the one of a solution among all that stands in the folder.
pub open spec fn build_system(files: Seq<Seq<char>>, entries: Seq<Seq<char>>) -> Seq<char> {
    if files.contains("CMakeLists.txt"@) {
        "CMake"@
    } else if files.contains("Cargo.toml"@) {
        "Cargo"@
    } else if files.contains("package.json"@) {
        "Node"@
    } else if files.contains("go.mod"@) {
        "Go"@
    } else if files.contains("Makefile"@) {
        "Make"@
    } else if files.contains("build.gradle"@) {
        "Gradle"@
    } else if files.contains("pyproject.toml"@) {
        "Python"@
    } else if exists|i: int| 0 <= i < entries.len() && is_solution(#[trigger] entries[i]) {
        "Visual Studio/C#"@
    } else {
        ""@
    }
}

/// Whether the name is that of a solution or of a C# project.
fn names_solution(name: &str) -> (r: bool)
    ensures
        r == is_solution(name@),
{
    (text::ends_with(name, ".sln") && !text::same(name, ".sln")) || (text::ends_with(
        name,
        ".csproj",
    ) && !text::same(name, ".csproj"))
}

/// Whether one of the names is that of a solution or of a C# project.
fn any_solution(entries: &[String]) -> (r: bool)
    ensures
        r == exists|i: int|
            0 <= i < entries@.len() && is_solution(#[trigger] types::texts(entries@)[i]),
{
    let mut i: usize = 0;
    while i < entries.len()
        invariant
            i <= entries@.len(),
            forall|k: int| 0 <= k < i ==> !is_solution(#[trigger] types::texts(entries@)[k]),
        decreases entries@.len() - i,
    {
        if names_solution(&entries[i]) {
            assert(is_solution(types::texts(entries@)[i as int]));
            return true;
        }
        i = i + 1;
    }
    false
}

/// The build system of a project, given the names of the files at its root
/// and of all that stands there.
pub fn detect_build_system(files: &[String], entries: &[String]) -> (s: &'static str)
    ensures
        s@ == build_system(types::texts(files@), types::texts(entries@)),
{
    if types::among(files, "CMakeLists.txt") {
        "CMake"
    } else if types::among(files, "Cargo.toml") {
        "Cargo"
    } else if types::among(files, "package.json") {
        "Node"
    } else if types::among(files, "go.mod") {
        "Go"
    } else if types::among(files, "Makefile") {
        "Make"
    } else if types::among(files, "build.gradle") {
        "Gradle"
    } else if types::among(files, "pyproject.toml") {
        "Python"
    } else if any_solution(entries) {
        "Visual Studio/C#"
    } else {
        ""
    }
}

/// The build system and the size of a project, as they are kept.
pub fn build_label(build_system: &str, file_count: usize) -> (s: String)
    ensures
        s@ == (if build_system@.len() == 0 {
            "unknown"@
        } else {
            build_system@
        }) + " ("@ + decimal::digits(file_count as nat) + " files)"@,
{
    let mut s = if build_system.is_empty() {
        "unknown".to_owned()
    } else {
        build_system.to_owned()
    };
    s.append(" (");
    let n = decimal::decimal(file_count as u64);
    s.append(&n);
    s.append(" files)");
    s
}

// ---- walking a project -------------------------------------------------------------------------

/// One entry of a folder.
#[derive(Debug, PartialEq, Eq)]
pub struct Entry {
    pub name: String,
    pub is_dir: bool,
}

/// An entry that is never counted or shown.
pub open spec fn is_skipped(name: Seq<char>) -> bool {
    text::begins(name, "."@) || name == "target"@ || name == "node_modules"@ || name == "build"@
}

/// Hidden entries are passed over, and so is what is built or fetched; nothing
/// else is.
pub proof fn law_what_is_passed_over(name: Seq<char>)
    requires
        name.len() > 0,
    ensures
        is_skipped(name) <==> name[0] == '.' || name == "target"@ || name == "node_modules"@ || name
            == "build"@,
{
    reveal_strlit(".");
    if name[0] == '.' {
        assert(name.subrange(0, 1) =~= "."@);
    } else {
        assert(name.subrange(0, 1)[0] == name[0]);
    }
}

/// Whether an entry is never counted or shown.
pub fn skipped(name: &str) -> (r: bool)
    ensures
        r == is_skipped(name@),
{
    text::starts_with(name, ".") || text::same(name, "target") || text::same(name, "node_modules")
        || text::same(name, "build")
}

/// The files counted and the folders to visit after the first `n` entries of
/// a folder, when `counted` files were counted before and counting stops at
/// `cap`.
pub open spec fn walked(entries: Seq<Entry>, counted: nat, cap: nat, n: int) -> (nat, Seq<int>)
    decreases n,
{
    if n <= 0 {
        (counted, Seq::empty())
    } else {
        let (files, dirs) = walked(entries, counted, cap, n - 1);
        let e = entries[n - 1];
        if files >= cap || is_skipped(e.name@) {
            (files, dirs)
        } else if e.is_dir {
            (files, dirs.push(n - 1))
        } else {
            (files + 1, dirs)
        }
    }
}

/// Counts the files of one folder on top of `counted`, up to `cap`, and gives
/// the entries to visit next.
pub fn count_folder(entries: &[Entry], counted: usize, cap: usize) -> (r: (usize, Vec<usize>))
    ensures
        walked(entries@, counted as nat, cap as nat, entries@.len() as int) == (
            r.0 as nat,
            r.1@.map_values(|i: usize| i as int),
        ),
        r.0 <= num::greater(counted as int, cap as int),
{
    let mut files: usize = counted;
    let mut dirs: Vec<usize> = Vec::new();
    let mut i: usize = 0;
    assert(dirs@.map_values(|i: usize| i as int) =~= Seq::<int>::empty());
    while i < entries.len()
        invariant
            i <= entries@.len(),
            files <= num::greater(counted as int, cap as int),
            walked(entries@, counted as nat, cap as nat, i as int) == (
                files as nat,
                dirs@.map_values(|i: usize| i as int),
            ),
        decreases entries@.len() - i,
    {
        if files < cap && !skipped(&entries[i].name) {
            if entries[i].is_dir {
                let ghost was = dirs@;
                dirs.push(i);
                assert(dirs@.map_values(|i: usize| i as int) =~= was.map_values(
                    |i: usize| i as int,
                ).push(i as int));
            } else {
                files += 1;
            }
        }
        i += 1;
    }
    (files, dirs)
}

/// A folder whose files are not read for retrieval.
pub open spec fn is_unread(name: Seq<char>) -> bool {
    is_skipped(name) || name == "dist"@ || name == ".git"@
}

/// A kind of file that is read for retrieval, by its extension in lower case.
pub open spec fn is_readable(extension: Seq<char>) -> bool {
    extension == "md"@ || extension == "txt"@ || extension == "json"@ || extension == "csv"@
        || extension == "rs"@ || extension == "py"@ || extension == "js"@ || extension == "ts"@
        || extension == "cpp"@ || extension == "h"@
}

/// What becomes of an entry when a folder is read for retrieval.
#[derive(Clone, Copy, Debug, PartialEq, Eq, Structural)]
pub enum Intake {
    Skip,
    Visit,
    Read,
}

/// What becomes of an entry, given its extension in lower case.
pub open spec fn taken_in(name: Seq<char>, is_dir: bool, extension: Seq<char>) -> Intake {
    if is_unread(name) {
        Intake::Skip
    } else if is_dir {
        Intake::Visit
    } else if is_readable(extension) {
        Intake::Read
    } else {
        Intake::Skip
    }
}

/// Only files of a kind that is read are read, and only folders are visited;
/// nothing hidden is, nor what is built or fetched.
pub proof fn law_what_is_read_of_a_folder(name: Seq<char>, is_dir: bool, extension: Seq<char>)
    requires
        name.len() > 0,
    ensures
        name[0] == '.' ==> taken_in(name, is_dir, extension) == Intake::Skip,
        name == "target"@ || name == "node_modules"@ || name == "build"@ || name == "dist"@
            ==> taken_in(name, is_dir, extension) == Intake::Skip,
        taken_in(name, is_dir, extension) == Intake::Visit ==> is_dir,
        taken_in(name, is_dir, extension) == Intake::Read ==> !is_dir && is_readable(extension),
        name[0] != '.' && name != "target"@ && name != "node_modules"@ && name
            != "build"@ && name != "dist"@ ==> {
            &&& is_dir ==> taken_in(name, is_dir, extension) == Intake::Visit
            &&& !is_dir && is_readable(extension) ==> taken_in(name, is_dir, extension)
                == Intake::Read
            &&& !is_dir && !is_readable(extension) ==> taken_in(name, is_dir, extension)
                == Intake::Skip
        },
        is_readable("md"@) && is_readable("txt"@) && is_readable("json"@) && is_readable("csv"@)
            && is_readable("rs"@) && is_readable("py"@) && is_readable("js"@) && is_readable("ts"@)
            && is_readable("cpp"@) && is_readable("h"@),
        is_readable(extension) ==> extension.len() <= 4,
{
    law_what_is_passed_over(name);
    reveal_strlit(".git");
    assert(".git"@[0] == '.');
    reveal_strlit("md");
    reveal_strlit("txt");
    reveal_strlit("json");
    reveal_strlit("csv");
    reveal_strlit("rs");
    reveal_strlit("py");
    reveal_strlit("js");
    reveal_strlit("ts");
    reveal_strlit("cpp");
    reveal_strlit("h");
}

/// What becomes of an entry, given its extension in lower case.
pub fn intake_of(name: &str, is_dir: bool, extension: &str) -> (r: Intake)
    ensures
        r == taken_in(name@, is_dir, extension@),
{
    if skipped(name) || text::same(name, "dist") || text::same(name, ".git") {
        Intake::Skip
    } else if is_dir {
        Intake::Visit
    } else if text::same(extension, "md") || text::same(extension, "txt") || text::same(
        extension,
        "json",
    ) || text::same(extension, "csv") || text::same(extension, "rs") || text::same(extension, "py")
        || text::same(extension, "js") || text::same(extension, "ts") || text::same(
        extension,
        "cpp",
    ) || text::same(extension, "h") {
        Intake::Read
    } else {
        Intake::Skip
    }
}

/// What becomes of an entry when a folder is read for retrieval.
pub fn intake(name: &str, is_dir: bool, extension: &str) -> (r: Intake)
    ensures
        r == taken_in(name@, is_dir, boundary::lowercase(extension@)),
{
    let lower = extension.to_lowercase();
    intake_of(name, is_dir, &lower)
}

/// Files of a project's index that are listed at most.
pub const LISTED_FILES: usize = 2000;

/// Symbols of a file that are listed at most.
pub const LISTED_SYMBOLS: usize = 40;

/// The first `n` numbers added up.
pub open spec fn total_of(counts: Seq<usize>, n: int) -> nat
    decreases n,
{
    if n <= 0 {
        0
    } else {
        total_of(counts, n - 1) + counts[n - 1] as nat
    }
}

/// What is listed of a project's index.
#[derive(Debug, PartialEq, Eq)]
pub struct IndexListing {
    pub files_total: usize,
    pub symbols_total: u128,
    pub files_listed: usize,
    pub files_capped: bool,
    /// For each listed file, how many of its symbols are listed.
    pub symbols_listed: Vec<usize>,
}

/// How many of a project's files are listed.
pub open spec fn files_shown(files: int) -> int {
    num::lesser(files, LISTED_FILES as int)
}

/// How many of a file's symbols are listed.
pub open spec fn symbols_shown(symbols: int) -> int {
    num::lesser(symbols, LISTED_SYMBOLS as int)
}

/// All files of a project are listed up to 2,000, and all symbols of a file up to
/// forty.
pub proof fn law_how_much_of_an_index_is_listed(n: int)
    ensures
        n <= 2000 ==> files_shown(n) == n,
        n > 2000 ==> files_shown(n) == 2000,
        n <= 40 ==> symbols_shown(n) == n,
        n > 40 ==> symbols_shown(n) == 40,
{
}

/// What is listed of a project's index, by the number of symbols in each file:
/// the first files and the first symbols of each.
pub fn list_index(symbols: &[usize]) -> (r: IndexListing)
    ensures
        r.files_total == symbols@.len(),
        r.symbols_total == total_of(symbols@, symbols@.len() as int),
        r.files_listed == files_shown(symbols@.len() as int),
        r.files_capped == (r.files_listed < symbols@.len()),
        r.symbols_listed@.len() == r.files_listed,
        forall|k: int|
            0 <= k < r.files_listed ==> #[trigger] r.symbols_listed@[k] == symbols_shown(
                symbols@[k] as int,
            ),
{
    let n: usize = symbols.len();
    let listed: usize = if n < LISTED_FILES { n } else { LISTED_FILES };
    let mut shown: Vec<usize> = Vec::new();
    let mut total: u128 = 0;
    let mut i: usize = 0;
    while i < n
        invariant
            i <= n,
            n == symbols@.len(),
            listed == crate::num::lesser(n as int, LISTED_FILES as int),
            total == total_of(symbols@, i as int),
            total <= i * usize::MAX,
            shown@.len() == crate::num::lesser(i as int, listed as int),
            forall|k: int|
                0 <= k < shown@.len() ==> #[trigger] shown@[k] == crate::num::lesser(
                    symbols@[k] as int,
                    LISTED_SYMBOLS as int,
                ),
        decreases n - i,
    {
        let count: usize = symbols[i];
        assert(i * usize::MAX + usize::MAX == (i + 1) * usize::MAX && (i + 1) * usize::MAX
            <= u128::MAX) by (nonlinear_arith)
            requires
                i < usize::MAX,
                usize::MAX <= 0xffff_ffff_ffff_ffff,
        ;
        total = total + count as u128;
        if i < listed {
            shown.push(if count < LISTED_SYMBOLS { count } else { LISTED_SYMBOLS });
        }
        i += 1;
    }
    IndexListing {
        files_total: n,
        symbols_total: total,
        files_listed: listed,
        files_capped: n > LISTED_FILES,
        symbols_listed: shown,
    }
}

/// The path that a retrieval request names: the project itself where it names
/// none.
pub fn requested_path(path: &str) -> (s: String)
    ensures
        s@ == (if text::is_blank(path@) {
            "."@
        } else {
            text::trimmed(path@)
        }),
{
    if text::blank(path) {
        ".".to_owned()
    } else {
        text::trim(path)
    }
}

// ---- what the model is shown ---------------------------------------------------------------------

/// One entry at the root of a project, with the names inside it where it is a
/// folder.
#[derive(Debug, PartialEq, Eq)]
pub struct TreeEntry {
    pub name: String,
    pub is_dir: bool,
    pub kids: Vec<String>,
}

/// The first `n` names inside a folder, twelve at most.
pub open spec fn kid_lines(kids: Seq<String>, n: int) -> Seq<char>
    decreases n,
{
    if n <= 0 {
        Seq::empty()
    } else {
        kid_lines(kids, n - 1) + ("    "@ + kids[n - 1]@ + "\n"@)
    }
}

/// A folder as it is shown.
pub open spec fn folder_lines(e: TreeEntry) -> Seq<char> {
    let shown = kid_lines(e.kids@, num::lesser(e.kids@.len() as int, 12));
    "  "@ + e.name@ + "/\n"@ + shown + (if e.kids@.len() > 12 {
        "    … ("@ + decimal::digits((e.kids@.len() - 12) as nat) + " more)\n"@
    } else {
        Seq::empty()
    })
}

/// The first `n` entries as they are shown, and how many of them are files.
/// After forty files no more are shown.
pub open spec fn tree_lines(entries: Seq<TreeEntry>, n: int) -> (Seq<char>, nat)
    decreases n,
{
    if n <= 0 {
        (Seq::empty(), 0)
    } else {
        let (lines, files) = tree_lines(entries, n - 1);
        let e = entries[n - 1];
        if is_skipped(e.name@) {
            (lines, files)
        } else if e.is_dir {
            (lines + folder_lines(e), files)
        } else if files < 40 {
            (lines + ("  "@ + e.name@ + "\n"@), files + 1)
        } else {
            (lines, files + 1)
        }
    }
}

/// The project's own instructions as they are shown.
pub open spec fn instruction_lines(instructions: Option<(String, String)>) -> Seq<char> {
    match instructions {
        Some((file, content)) => "\nProject instructions ("@ + file@ + ", behavior only):\n"@
            + text::first_chars(content@, 1500) + "\n"@,
        None => Seq::empty(),
    }
}

/// What the model is shown of a project: 60 entries at most, 4,000 characters
/// in all.
pub open spec fn snapshot(
    path: Seq<char>,
    name: Seq<char>,
    build: Seq<char>,
    entries: Seq<TreeEntry>,
    instructions: Option<(String, String)>,
) -> Seq<char> {
    text::first_chars(
        "Project '"@ + name + "' at "@ + path + "\nBuild: "@ + build + "\nTree (top levels):\n"@
            + tree_lines(entries, num::lesser(entries.len() as int, 60)).0 + instruction_lines(
            instructions,
        ),
        4000,
    )
}

/// What the model is shown of a folder inside a project.
fn folder_text(e: &TreeEntry) -> (s: String)
    ensures
        s@ == folder_lines(*e),
{
    let mut lines = String::new();
    let shown: usize = if e.kids.len() < 12 { e.kids.len() } else { 12 };
    let mut i: usize = 0;
    assert(lines@ =~= kid_lines(e.kids@, 0));
    while i < shown
        invariant
            i <= shown <= e.kids@.len(),
            lines@ == kid_lines(e.kids@, i as int),
        decreases shown - i,
    {
        let mut line = "    ".to_owned();
        line.append(&e.kids[i]);
        line.append("\n");
        lines.append(&line);
        i += 1;
    }
    let mut more = String::new();
    if e.kids.len() > 12 {
        more.append("    … (");
        let n = decimal::decimal((e.kids.len() - 12) as u64);
        more.append(&n);
        more.append(" more)\n");
        assert(more@ =~= "    … ("@ + decimal::digits((e.kids@.len() - 12) as nat) + " more)\n"@);
    }
    let mut s = "  ".to_owned();
    s.append(&e.name);
    s.append("/\n");
    s.append(&lines);
    s.append(&more);
    s
}

/// What the model is shown of a project whose folder is there, its entries in
/// order of their paths.
pub fn workspace_snapshot(
    path: &str,
    name: &str,
    build: &str,
    entries: &[TreeEntry],
    instructions: &Option<(String, String)>,
) -> (s: String)
    ensures
        s@ == snapshot(path@, name@, build@, entries@, *instructions),
{
    let mut lines = String::new();
    let mut files: usize = 0;
    let shown: usize = if entries.len() < 60 { entries.len() } else { 60 };
    let mut i: usize = 0;
    while i < shown
        invariant
            i <= shown <= entries@.len(),
            files <= i,
            tree_lines(entries@, i as int) == (lines@, files as nat),
        decreases shown - i,
    {
        let e = &entries[i];
        if !skipped(&e.name) {
            if e.is_dir {
                let folder = folder_text(e);
                lines.append(&folder);
            } else {
                if files < 40 {
                    let mut line = "  ".to_owned();
                    line.append(&e.name);
                    line.append("\n");
                    lines.append(&line);
                }
                files += 1;
            }
        }
        i += 1;
    }
    let mut rules = String::new();
    if let Some((file, content)) = instructions {
        rules.append("\nProject instructions (");
        rules.append(file);
        rules.append(", behavior only):\n");
        let head = text::take_chars(content, 1500);
        rules.append(&head);
        rules.append("\n");
    }
    assert(rules@ =~= instruction_lines(*instructions));
    let mut s = "Project '".to_owned();
    s.append(name);
    s.append("' at ");
    s.append(path);
    s.append("\nBuild: ");
    s.append(build);
    s.append("\nTree (top levels):\n");
    s.append(&lines);
    s.append(&rules);
    text::take_chars(&s, 4000)
}

/// What the model is shown of a project whose folder is gone.
pub fn missing_project(path: &str, name: &str) -> (s: String)
    ensures
        s@ == "Project '"@ + name@ + "': directory missing ("@ + path@
            + "). Ask the user to relink it."@,
{
    let mut s = "Project '".to_owned();
    s.append(name);
    s.append("': directory missing (");
    s.append(path);
    s.append("). Ask the user to relink it.");
    s
}

// ---- linking and removing --------------------------------------------------------------------------

/// A name that cannot be a folder's.
pub open spec fn is_no_folder_name(name: Seq<char>) -> bool {
    name == "."@ || name == ".."@ || name.contains('/') || name.contains('\\')
}

/// Why a project's name is refused: it is blank, or no folder could be made
/// under it.
pub open spec fn project_name_refusal(name: Seq<char>, create: bool) -> Option<Refusal> {
    if text::is_blank(name) {
        Some(error::bad_request("name is empty"@, "Name the project, e.g. My app."@))
    } else if create && is_no_folder_name(text::trimmed(name)) {
        Some(
            error::bad_request("invalid project name"@, "Use a folder name without slashes."@),
        )
    } else {
        None
    }
}

/// Takes a project's name, trimmed.
pub fn project_name(name: &str, create: bool) -> (r: Result<String, ApiError>)
    ensures
        error::refusal_of(r) == project_name_refusal(name@, create),
        r matches Ok(n) ==> n@ == text::trimmed(name@),
{
    if text::blank(name) {
        return Err(ApiError::bad("name is empty", "Name the project, e.g. My app."));
    }
    let n = text::trim(name);
    if create && (text::same(&n, ".") || text::same(&n, "..") || text::contains_char(&n, '/')
        || text::contains_char(&n, '\\')) {
        return Err(ApiError::bad("invalid project name", "Use a folder name without slashes."));
    }
    Ok(n)
}

/// The refusal of a folder that is not there.
pub fn folder_not_found(path: &str) -> (e: ApiError)
    ensures
        e@ == error::bad_request(
            "directory not found: "@ + path@,
            "Choose an existing folder or create a new project."@,
        ),
{
    let mut message = "directory not found: ".to_owned();
    message.append(path);
    ApiError::bad(&message, "Choose an existing folder or create a new project.")
}

/// A run of an agent, as far as removing a project asks.
#[derive(Debug, PartialEq, Eq)]
pub struct RunSummary {
    pub conversation_id: String,
    pub task: String,
    pub active: bool,
}

/// The first run from `from` on that is active in one of the chats.
pub open spec fn working_from(runs: Seq<RunSummary>, chats: Seq<Seq<char>>, from: int) -> Option<
    int,
>
    decreases runs.len() - from,
{
    if from < 0 || from >= runs.len() {
        None
    } else if runs[from].active && chats.contains(runs[from].conversation_id@) {
        Some(from)
    } else {
        working_from(runs, chats, from + 1)
    }
}

/// Why a project cannot be removed: it is unknown, or a run is at work in one
/// of its chats, which would keep writing to it.
pub open spec fn removal_refusal(
    known: bool,
    runs: Seq<RunSummary>,
    chats: Seq<Seq<char>>,
) -> Option<Refusal> {
    if !known {
        Some(error::missing("unknown workspace"@))
    } else {
        match working_from(runs, chats, 0) {
            Some(i) => Some(
                Refusal {
                    status: 409,
                    message: "a task is still running in this project"@,
                    hint: "Stop the task "@ + boundary::debug_text(
                        text::first_chars(runs[i].task@, 60),
                    ) + " before removing the project."@,
                },
            ),
            None => None,
        }
    }
}

/// Allows the removal of a project from the app, or says why not. The folder
/// itself is never touched.
pub fn admit_removal(known: bool, runs: &[RunSummary], chats: &[String]) -> (r: Result<
    (),
    ApiError,
>)
    ensures
        error::refusal_of(r) == removal_refusal(known, runs@, types::texts(chats@)),
{
    if !known {
        return Err(ApiError::not_found("unknown workspace"));
    }
    let mut i: usize = 0;
    while i < runs.len()
        invariant
            i <= runs@.len(),
            known,
            working_from(runs@, types::texts(chats@), 0) == working_from(
                runs@,
                types::texts(chats@),
                i as int,
            ),
        decreases runs@.len() - i,
    {
        if runs[i].active && types::among(chats, &runs[i].conversation_id) {
            let task = text::take_chars(&runs[i].task, 60);
            let quoted = boundary::debug_quoted(&task);
            let mut hint = "Stop the task ".to_owned();
            hint.append(&quoted);
            hint.append(" before removing the project.");
            return Err(ApiError::new(409, "a task is still running in this project", &hint));
        }
        i += 1;
    }
    Ok(())
}

/// The refusal for a project whose folder is gone.
pub fn folder_missing() -> (e: ApiError)
    ensures
        e@ == error::bad_request(
            "workspace directory missing"@,
            "Relink the project directory."@,
        ),
{
    ApiError::bad("workspace directory missing", "Relink the project directory.")
}

/// What is shown of a difference in numbers: what git printed and what it
/// complained of, cut to 4,000 characters, or why it did not run.
pub fn diff_stat(ran: Result<(&str, &str), &str>) -> (s: String)
    ensures
        s@ == text::first_chars(
            match ran {
                Ok((out, err)) => out@ + "\n"@ + err@,
                Err(e) => "(no git diff: "@ + e@ + ")"@,
            },
            4000,
        ),
{
    let all = match ran {
        Ok((out, err)) => {
            let mut all = out.to_owned();
            all.append("\n");
            all.append(err);
            all
        },
        Err(e) => {
            let mut all = "(no git diff: ".to_owned();
            all.append(e);
            all.append(")");
            all
        },
    };
    text::take_chars(&all, 4000)
}

/// The start of a difference between versions, and whether that is not all.
pub fn shown_diff(full: &str) -> (r: (String, bool))
    ensures
        r.0@ == text::first_chars(full@, 100_000),
        r.1 == (text::byte_len(full@) > 100_000),
{
    (text::take_chars(full, 100_000), text::bytes_in(full) > 100_000)
}

// ---- plugins -------------------------------------------------------------------------------------------

/// Those of the first `n` names that are not known.
pub open spec fn unknown_among(
    declared: Seq<Seq<char>>,
    known: Seq<Seq<char>>,
    n: int,
) -> Seq<Seq<char>>
    decreases n,
{
    if n <= 0 {
        Seq::empty()
    } else if known.contains(declared[n - 1]) {
        unknown_among(declared, known, n - 1)
    } else {
        unknown_among(declared, known, n - 1).push(declared[n - 1])
    }
}

/// The declared tools that do not exist.
pub fn unknown_tools(declared: &[String], known: &[String]) -> (r: Vec<String>)
    ensures
        types::texts(r@) == unknown_among(
            types::texts(declared@),
            types::texts(known@),
            declared@.len() as int,
        ),
{
    let mut r: Vec<String> = Vec::new();
    let mut i: usize = 0;
    assert(types::texts(r@) =~= Seq::<Seq<char>>::empty());
    while i < declared.len()
        invariant
            i <= declared@.len(),
            types::texts(r@) == unknown_among(
                types::texts(declared@),
                types::texts(known@),
                i as int,
            ),
        decreases declared@.len() - i,
    {
        if !types::among(known, &declared[i]) {
            let ghost was = r@;
            r.push(declared[i].clone());
            assert(types::texts(r@) =~= types::texts(was).push(declared@[i as int]@));
        }
        i += 1;
    }
    r
}

/// The names among the first `n` entries, entries without one left out.
pub open spec fn names_among(entries: Seq<Option<Seq<char>>>, n: int) -> Seq<Seq<char>>
    decreases n,
{
    if n <= 0 {
        Seq::empty()
    } else {
        match entries[n - 1] {
            Some(name) => names_among(entries, n - 1).push(name),
            None => names_among(entries, n - 1),
        }
    }
}

/// The tools that the entries of a manifest declare; none where it has no
/// entries.
pub open spec fn declared(entries: Option<Seq<Option<Seq<char>>>>) -> Seq<Seq<char>> {
    match entries {
        Some(list) => names_among(list, list.len() as int),
        None => Seq::empty(),
    }
}

/// The tools that the entries of a manifest declare.
pub fn declared_tools(entries: &Option<Vec<Option<String>>>) -> (r: Vec<String>)
    ensures
        types::texts(r@) == declared(
            match *entries {
                Some(list) => Some(boundary::optional_texts(list@)),
                None => None,
            },
        ),
{
    let mut r: Vec<String> = Vec::new();
    assert(types::texts(r@) =~= Seq::<Seq<char>>::empty());
    if let Some(list) = entries {
        let ghost all = boundary::optional_texts(list@);
        let mut i: usize = 0;
        while i < list.len()
            invariant
                i <= list@.len(),
                all == boundary::optional_texts(list@),
                types::texts(r@) == names_among(all, i as int),
            decreases list@.len() - i,
        {
            if let Some(name) = &list[i] {
                let ghost was = r@;
                r.push(name.clone());
                assert(types::texts(r@) =~= types::texts(was).push(name@));
            }
            i += 1;
        }
    }
    r
}

/// The declared tools of a manifest that do not exist, or `None` where the
/// manifest is not JSON.
pub fn manifest_unknown_tools(manifest: &str, known: &[String]) -> (r: Option<Vec<String>>)
    ensures
        match boundary::json_list(manifest@, "tools"@, "name"@) {
            Some(entries) => r is Some && types::texts(r->0@) == unknown_among(
                declared(entries),
                types::texts(known@),
                declared(entries).len() as int,
            ),
            None => r is None,
        },
{
    match boundary::json_list_texts(manifest, "tools", "name") {
        Some(entries) => {
            let names = declared_tools(&entries);
            assert(types::texts(names@).len() == names@.len());
            Some(unknown_tools(&names, known))
        },
        None => None,
    }
}

/// Why a plugin may not run a tool: its manifest does not declare it, or the
/// tool does not exist.
pub open spec fn plugin_refusal(
    plugin: Seq<char>,
    tool: Seq<char>,
    declared: Seq<Seq<char>>,
    known: Seq<Seq<char>>,
) -> Option<Refusal> {
    if !declared.contains(tool) {
        Some(
            error::bad_request(
                "plugin '"@ + plugin + "' does not declare tool '"@ + tool + "'"@,
                "Plugins can only run tools listed in their own manifest."@,
            ),
        )
    } else if !known.contains(tool) {
        Some(error::missing("unknown tool '"@ + tool + "'"@))
    } else {
        None
    }
}

/// Allows a plugin to run a tool that its manifest declares and that exists.
pub fn admit_plugin_tool(plugin: &str, tool: &str, declared: &[String], known: &[String]) -> (r:
    Result<(), ApiError>)
    ensures
        error::refusal_of(r) == plugin_refusal(
            plugin@,
            tool@,
            types::texts(declared@),
            types::texts(known@),
        ),
{
    if !types::among(declared, tool) {
        let mut message = "plugin '".to_owned();
        message.append(plugin);
        message.append("' does not declare tool '");
        message.append(tool);
        message.append("'");
        return Err(
            ApiError::bad(&message, "Plugins can only run tools listed in their own manifest."),
        );
    }
    if !types::among(known, tool) {
        let mut message = "unknown tool '".to_owned();
        message.append(tool);
        message.append("'");
        return Err(ApiError::not_found(&message));
    }
    Ok(())
}

/// Allows a plugin to run a tool, by its manifest.
pub fn admit_plugin(plugin: &str, tool: &str, manifest: &str, known: &[String]) -> (r: Option<
    Result<(), ApiError>,
>)
    ensures
        match boundary::json_list(manifest@, "tools"@, "name"@) {
            Some(entries) => r is Some && error::refusal_of(r->0) == plugin_refusal(
                plugin@,
                tool@,
                declared(entries),
                types::texts(known@),
            ),
            None => r is None,
        },
{
    match boundary::json_list_texts(manifest, "tools", "name") {
        Some(entries) => {
            let names = declared_tools(&entries);
            Some(admit_plugin_tool(plugin, tool, &names, known))
        },
        None => None,
    }
}

/// A plugin runs nothing but tools of its own manifest that exist.
pub proof fn law_plugins_stay_in_their_manifest(
    plugin: Seq<char>,
    tool: Seq<char>,
    declared: Seq<Seq<char>>,
    known: Seq<Seq<char>>,
)
    ensures
        plugin_refusal(plugin, tool, declared, known) is None <==> declared.contains(tool)
            && known.contains(tool),
{
}

// ---- what is shown and counted ---------------------------------------------------------------------------

/// A code session works exactly where a project is linked, is found and has its
/// folder.
pub proof fn law_a_code_session_needs_its_folder(
    linked: Seq<char>,
    found: Result<Option<Workspace>, String>,
    is_dir: bool,
)
    ensures
        link_refusal(linked, found, is_dir) is None <==> !text::is_blank(linked) && found is Ok
            && found->Ok_0 is Some && is_dir,
{
}

/// A project is named after the marker that stands at its root; of several
/// CMake's goes first, then Cargo's, Node's, Go's, Make's, Gradle's and
/// Python's, and a solution counts only without any of them.
pub proof fn law_the_first_marker_names_the_build_system(
    files: Seq<Seq<char>>,
    entries: Seq<Seq<char>>,
)
    ensures
        ({
            let b = build_system(files, entries);
            let cmake = files.contains("CMakeLists.txt"@);
            let cargo = files.contains("Cargo.toml"@);
            let node = files.contains("package.json"@);
            let go = files.contains("go.mod"@);
            let make = files.contains("Makefile"@);
            let gradle = files.contains("build.gradle"@);
            let python = files.contains("pyproject.toml"@);
            let any = cmake || cargo || node || go || make || gradle || python;
            let solution = exists|i: int| 0 <= i < entries.len() && is_solution(#[trigger] entries[i]);
            &&& b == "CMake"@ <==> cmake
            &&& b == "Cargo"@ <==> cargo && !cmake
            &&& b == "Node"@ <==> node && !cmake && !cargo
            &&& b == "Go"@ <==> go && !cmake && !cargo && !node
            &&& b == "Make"@ <==> make && !cmake && !cargo && !node && !go
            &&& b == "Gradle"@ <==> gradle && !cmake && !cargo && !node && !go && !make
            &&& b == "Python"@ <==> python && !cmake && !cargo && !node && !go && !make && !gradle
            &&& b == "Visual Studio/C#"@ <==> solution && !any
            &&& b.len() == 0 <==> !solution && !any
        }),
{
    reveal_strlit("CMake");
    reveal_strlit("Cargo");
    reveal_strlit("Node");
    reveal_strlit("Go");
    reveal_strlit("Make");
    reveal_strlit("Gradle");
    reveal_strlit("Python");
    reveal_strlit("Visual Studio/C#");
    reveal_strlit("");
    assert("CMake"@.len() == 5 && "Cargo"@.len() == 5 && "CMake"@[1] == 'M' && "Cargo"@[1] == 'a');
    assert("Node"@.len() == 4 && "Make"@.len() == 4 && "Node"@[0] == 'N' && "Make"@[0] == 'M');
    assert("Gradle"@.len() == 6 && "Python"@.len() == 6 && "Gradle"@[0] == 'G' && "Python"@[0]
        == 'P');
    assert("Go"@.len() == 2 && "Visual Studio/C#"@.len() == 16 && ""@.len() == 0);
}

proof fn lemma_walked_first(entries: Seq<Entry>, e: Entry, counted: nat, cap: nat, n: int)
    requires
        0 <= n <= entries.len(),
    ensures
        walked(entries.push(e), counted, cap, n) == walked(entries, counted, cap, n),
    decreases n,
{
    if n > 0 {
        lemma_walked_first(entries, e, counted, cap, n - 1);
    }
}

/// A folder is counted entry by entry: a file counts for one and a folder is
/// visited later, unless it is passed over or the count is full.
pub proof fn law_each_entry_counts_once(entries: Seq<Entry>, e: Entry, counted: nat, cap: nat)
    requires
        e.name@.len() > 0,
    ensures
        ({
            let n = entries.len() as int;
            let before = walked(entries, counted, cap, n);
            let after = walked(entries.push(e), counted, cap, n + 1);
            let passed = e.name@[0] == '.' || e.name@ == "target"@ || e.name@ == "node_modules"@
                || e.name@ == "build"@;
            &&& before.0 >= cap || passed ==> after == before
            &&& before.0 < cap && !passed && !e.is_dir ==> after == (before.0 + 1, before.1)
            &&& before.0 < cap && !passed && e.is_dir ==> after == (before.0, before.1.push(n))
            &&& walked(Seq::empty(), counted, cap, 0) == (counted, Seq::<int>::empty())
        }),
{
    lemma_walked_first(entries, e, counted, cap, entries.len() as int);
    law_what_is_passed_over(e.name@);
}

/// Numbers in a row add up to the first and the rest.
pub proof fn law_totals_add_up(counts: Seq<usize>, more: usize)
    ensures
        total_of(counts.push(more), counts.len() + 1int) == total_of(counts, counts.len() as int)
            + more,
        total_of(Seq::empty(), 0) == 0,
{
    lemma_total_of_first(counts, more, counts.len() as int);
}

proof fn lemma_total_of_first(counts: Seq<usize>, more: usize, n: int)
    requires
        0 <= n <= counts.len(),
    ensures
        total_of(counts.push(more), n) == total_of(counts, n),
    decreases n,
{
    if n > 0 {
        lemma_total_of_first(counts, more, n - 1);
    }
}

proof fn lemma_tree_first(entries: Seq<TreeEntry>, e: TreeEntry, n: int)
    requires
        0 <= n <= entries.len(),
    ensures
        tree_lines(entries.push(e), n) == tree_lines(entries, n),
    decreases n,
{
    if n > 0 {
        lemma_tree_first(entries, e, n - 1);
    }
}

/// What the model is shown of a project tells every entry in its place: a
/// folder with a slash and what is in it, each of the first forty files by its
/// name, and nothing of what is passed over.
pub proof fn law_the_tree_tells_every_entry(entries: Seq<TreeEntry>, e: TreeEntry)
    requires
        e.name@.len() > 0,
    ensures
        ({
            let n = entries.len() as int;
            let before = tree_lines(entries, n);
            let after = tree_lines(entries.push(e), n + 1);
            let passed = e.name@[0] == '.' || e.name@ == "target"@ || e.name@ == "node_modules"@
                || e.name@ == "build"@;
            &&& passed ==> after == before
            &&& !passed && e.is_dir ==> (before.0 + ("  "@ + e.name@ + "/\n"@)).is_prefix_of(after.0)
                && after.1 == before.1
            &&& !passed && !e.is_dir && before.1 < 40 ==> after == (
                before.0 + ("  "@ + e.name@ + "\n"@),
                before.1 + 1,
            )
            &&& !passed && !e.is_dir && before.1 >= 40 ==> after.0 == before.0
        }),
{
    lemma_tree_first(entries, e, entries.len() as int);
    law_what_is_passed_over(e.name@);
    let n = entries.len() as int;
    let before = tree_lines(entries, n);
    let after = tree_lines(entries.push(e), n + 1);
    if !is_skipped(e.name@) && e.is_dir {
        let head = before.0 + ("  "@ + e.name@ + "/\n"@);
        assert(head =~= after.0.subrange(0, head.len() as int));
    }
}

proof fn lemma_kid_lines(kids: Seq<String>, k: int, n: int)
    requires
        0 <= k <= n,
    ensures
        kid_lines(kids, k).is_prefix_of(kid_lines(kids, n)),
    decreases n - k,
{
    let part = kid_lines(kids, k);
    if k < n {
        lemma_kid_lines(kids, k, n - 1);
        assert(part =~= kid_lines(kids, n).subrange(0, part.len() as int));
    } else {
        assert(part =~= part.subrange(0, part.len() as int));
    }
}

/// A folder is shown with its first twelve names, each on its line, and with the
/// number of the others where there are any.
pub proof fn law_a_folder_shows_what_is_in_it(e: TreeEntry, k: int)
    requires
        0 <= k < 12,
        k < e.kids@.len(),
    ensures
        ("  "@ + e.name@ + "/\n"@ + (kid_lines(e.kids@, k) + ("    "@ + e.kids@[k]@
            + "\n"@))).is_prefix_of(folder_lines(e)),
        e.kids@.len() > 12 ==> ("    … ("@ + decimal::digits((e.kids@.len() - 12) as nat)
            + " more)\n"@).is_suffix_of(folder_lines(e)),
        e.kids@.len() <= 12 ==> folder_lines(e) == "  "@ + e.name@ + "/\n"@ + kid_lines(
            e.kids@,
            e.kids@.len() as int,
        ),
{
    let shown = num::lesser(e.kids@.len() as int, 12);
    lemma_kid_lines(e.kids@, k + 1, shown);
    let all = folder_lines(e);
    let head = "  "@ + e.name@ + "/\n"@ + kid_lines(e.kids@, k + 1);
    assert(head =~= all.subrange(0, head.len() as int));
    if e.kids@.len() > 12 {
        let rest = "    … ("@ + decimal::digits((e.kids@.len() - 12) as nat) + " more)\n"@;
        assert(rest =~= all.subrange(all.len() - rest.len(), all.len() as int));
    } else {
        assert(all =~= "  "@ + e.name@ + "/\n"@ + kid_lines(e.kids@, shown));
    }
}

/// What is shown of a project is no longer than 4,000 characters. It begins with
/// its name and its path, as far as that, and shows all there is where that is
/// short enough.
pub proof fn law_a_project_is_shown_by_name(
    path: Seq<char>,
    name: Seq<char>,
    build: Seq<char>,
    entries: Seq<TreeEntry>,
    instructions: Option<(String, String)>,
)
    ensures
        ({
            let shown = snapshot(path, name, build, entries, instructions);
            let head = "Project '"@ + name + "' at "@ + path + "\nBuild: "@ + build;
            let tree = tree_lines(entries, num::lesser(entries.len() as int, 60)).0;
            &&& shown.len() <= 4000
            &&& head.len() <= 4000 ==> head.is_prefix_of(shown)
            &&& shown.len() < 4000 ==> shown == head + "\nTree (top levels):\n"@ + tree
                + instruction_lines(instructions)
        }),
{
    let shown = snapshot(path, name, build, entries, instructions);
    let head = "Project '"@ + name + "' at "@ + path + "\nBuild: "@ + build;
    if head.len() <= 4000 {
        assert(head =~= shown.subrange(0, head.len() as int));
    }
}

/// The project's own instructions are shown under their file's name, whole where
/// they have at most 1,500 characters.
pub proof fn law_instructions_are_shown(file: String, content: String)
    ensures
        instruction_lines(None) == Seq::<char>::empty(),
        content@.len() <= 1500 ==> instruction_lines(Some((file, content)))
            == "\nProject instructions ("@ + file@ + ", behavior only):\n"@ + content@ + "\n"@,
        content@.len() > 1500 ==> instruction_lines(Some((file, content)))
            == "\nProject instructions ("@ + file@ + ", behavior only):\n"@ + content@.take(1500)
            + "\n"@,
{
}

/// A project's name is taken exactly where it is not blank and, where a folder is
/// to be made under it, could be the name of one.
pub proof fn law_which_project_names_are_taken(name: Seq<char>, create: bool)
    ensures
        ({
            let n = text::trimmed(name);
            project_name_refusal(name, create) is None <==> !text::is_blank(name) && (!create || (n
                != "."@ && n != ".."@ && !n.contains('/') && !n.contains('\\')))
        }),
{
}

proof fn lemma_working_from(runs: Seq<RunSummary>, chats: Seq<Seq<char>>, from: int)
    requires
        0 <= from,
    ensures
        working_from(runs, chats, from) matches Some(i) ==> from <= i < runs.len()
            && runs[i].active && chats.contains(runs[i].conversation_id@),
        working_from(runs, chats, from) is None ==> forall|k: int|
            from <= k < runs.len() && (#[trigger] runs[k]).active ==> !chats.contains(
                runs[k].conversation_id@,
            ),
    decreases runs.len() - from,
{
    if from < runs.len() {
        lemma_working_from(runs, chats, from + 1);
    }
}

/// A project is removed exactly where it is known and no run is at work in any
/// of its chats; runs in other chats and runs that have ended do not keep it.
pub proof fn law_no_project_goes_under_a_run(
    known: bool,
    runs: Seq<RunSummary>,
    chats: Seq<Seq<char>>,
)
    ensures
        removal_refusal(known, runs, chats) is None <==> known && forall|k: int|
            0 <= k < runs.len() && (#[trigger] runs[k]).active ==> !chats.contains(
                runs[k].conversation_id@,
            ),
{
    lemma_working_from(runs, chats, 0);
}

proof fn lemma_unknown_first(
    declared: Seq<Seq<char>>,
    name: Seq<char>,
    known: Seq<Seq<char>>,
    n: int,
)
    requires
        0 <= n <= declared.len(),
    ensures
        unknown_among(declared.push(name), known, n) == unknown_among(declared, known, n),
    decreases n,
{
    if n > 0 {
        lemma_unknown_first(declared, name, known, n - 1);
    }
}

/// Of the tools that a manifest declares exactly those are told as unknown that
/// there are not, in the order of the manifest.
pub proof fn law_unknown_tools_are_told(
    declared: Seq<Seq<char>>,
    name: Seq<char>,
    known: Seq<Seq<char>>,
)
    ensures
        ({
            let n = declared.len() as int;
            let before = unknown_among(declared, known, n);
            let after = unknown_among(declared.push(name), known, n + 1);
            &&& known.contains(name) ==> after == before
            &&& !known.contains(name) ==> after == before.push(name)
            &&& unknown_among(Seq::empty(), known, 0) == Seq::<Seq<char>>::empty()
        }),
{
    lemma_unknown_first(declared, name, known, declared.len() as int);
}

proof fn lemma_names_first(entries: Seq<Option<Seq<char>>>, e: Option<Seq<char>>, n: int)
    requires
        0 <= n <= entries.len(),
    ensures
        names_among(entries.push(e), n) == names_among(entries, n),
    decreases n,
{
    if n > 0 {
        lemma_names_first(entries, e, n - 1);
    }
}

/// A manifest declares the tools that its entries name, in their order; an entry
/// without a name declares none.
pub proof fn law_a_manifest_declares_what_it_names(
    entries: Seq<Option<Seq<char>>>,
    name: Seq<char>,
)
    ensures
        declared(Some(entries.push(Some(name)))) == declared(Some(entries)).push(name),
        declared(Some(entries.push(None))) == declared(Some(entries)),
        declared(Some(Seq::empty())) == Seq::<Seq<char>>::empty(),
        declared(None) == Seq::<Seq<char>>::empty(),
{
    lemma_names_first(entries, Some(name), entries.len() as int);
    lemma_names_first(entries, None, entries.len() as int);
}

/// A solution or a project file is told by what its name ends in, where anything
/// stands before that.
pub proof fn law_which_names_are_solutions(stem: Seq<char>, name: Seq<char>)
    ensures
        stem.len() > 0 ==> is_solution(stem + ".sln"@) && is_solution(stem + ".csproj"@),
        !is_solution(".sln"@),
        is_solution(name) ==> name.len() > 4 && (".sln"@.is_suffix_of(name)
            || ".csproj"@.is_suffix_of(name)),
{
    reveal_strlit(".sln");
    reveal_strlit(".csproj");
    let (a, b) = (stem + ".sln"@, stem + ".csproj"@);
    assert(a.subrange(stem.len() as int, a.len() as int) =~= ".sln"@);
    assert(b.subrange(stem.len() as int, b.len() as int) =~= ".csproj"@);
    if is_solution(name) {
        if text::ends(name, ".sln"@) && name != ".sln"@ {
            if name.len() == 4 {
                assert(name.subrange(0, 4) =~= name);
            }
            assert(".sln"@ =~= name.subrange(name.len() - 4, name.len() as int));
        } else {
            assert(".csproj"@ =~= name.subrange(name.len() - 7, name.len() as int));
        }
    }
}

} // verus!
