//! Where Netvan keeps its data: the project's directory under the user's
//! data directory (on Windows `%APPDATA%\Netvan\Netvan`), or `netvan-data`
//! under the working directory where the platform gives none.

use vstd::prelude::*;
use directories::{BaseDirs, ProjectDirs};

verus! {

#[verifier::external_type_specification]
#[verifier::external_body]
pub struct ExProjectDirs(ProjectDirs);

/// `ProjectDirs::from`: the directories of the project on this machine;
/// `None` where no home directory can be found. The outcome depends on the
/// environment, so nothing is stated of it.
#[verifier::external_body]
pub fn project_dirs_for(qualifier: &str, organization: &str, application: &str) -> (r: Option<
    ProjectDirs,
>) {
    ProjectDirs::from(qualifier, organization, application)
}

#[verifier::external_type_specification]
#[verifier::external_body]
pub struct ExBaseDirs(BaseDirs);

/// `BaseDirs::new`: the user's base directories on this machine; `None`
/// where no home directory can be found. The outcome depends on the
/// environment, so nothing is stated of it.
#[verifier::external_body]
pub fn base_dirs() -> (r: Option<BaseDirs>) {
    BaseDirs::new()
}

/// `BaseDirs::data_dir`, as text: the user's data directory (on Windows the
/// roaming application data folder). Nothing is stated of it, which the
/// platform and the user's environment decide.
#[verifier::external_body]
pub fn base_data_dir(b: &BaseDirs) -> (r: String) {
    b.data_dir().to_string_lossy().into_owned()
}

/// `ProjectDirs::project_path`, as text: the fragment the project's
/// directories are named by under the user's base directories (on Windows
/// the organization and application, `Netvan\Netvan`). It is
/// platform-dependent, so nothing is stated of it.
#[verifier::external_body]
pub fn project_path_text(p: &ProjectDirs) -> (r: String) {
    p.project_path().to_string_lossy().into_owned()
}

/// The project directories of Netvan.
pub fn project_dirs() -> (r: Option<ProjectDirs>) {
    project_dirs_for("com", "Netvan", "Netvan")
}

/// A path component with no separator, prefix or root in it, and not `.`
/// or `..` (it has a character other than a dot).
pub open spec fn plain_component(p: Seq<char>) -> bool {
    &&& p.len() > 0
    &&& forall|i: int| 0 <= i < p.len() ==> #[trigger] p[i] != '/' && p[i] != '\\' && p[i] != ':'
    &&& exists|i: int| 0 <= i < p.len() && #[trigger] p[i] != '.'
}

/// A path that `PathBuf::push` extends with a separator: non-empty, not
/// ending in a separator or drive colon, and without a verbatim prefix.
pub open spec fn extendable_base(b: Seq<char>) -> bool {
    &&& b.len() > 0
    &&& b.last() != '/' && b.last() != '\\' && b.last() != ':'
    &&& !(b.len() >= 2 && b[0] == '\\' && b[1] == '\\')
}

/// The path `base` joined with one more component `part`, where `sep` is
/// the separator of the platform.
pub open spec fn joined(base: Seq<char>, sep: char, part: Seq<char>) -> Seq<char> {
    base + seq![sep] + part
}

/// A non-empty relative path with no prefix or root: it starts with no
/// separator and holds no drive colon.
pub open spec fn relative_part(p: Seq<char>) -> bool {
    &&& p.len() > 0
    &&& p[0] != '/' && p[0] != '\\'
    &&& forall|i: int| 0 <= i < p.len() ==> #[trigger] p[i] != ':'
}

/// Of joining `part` to `base` giving `r`: a plain component is appended,
/// so `r` ends with it; a relative part joined to an extendable base gives
/// the base, a separator of the platform, the part.
pub open spec fn join_outcome(base: Seq<char>, part: Seq<char>, r: Seq<char>) -> bool {
    &&& plain_component(part) ==> crate::text::ends_with(r, part)
    &&& relative_part(part) && extendable_base(base) ==> exists|sep: char|
        (sep == '/' || sep == '\\') && r == joined(base, sep, part)
}

/// `Path::join`, as text. The documentation of `PathBuf::push` gives the
/// result for a relative path: it is appended to the base (normalised for
/// a verbatim base, which keeps a plain component), so the result ends with
/// a plain component; to an extendable base it adds the platform's
/// separator and the part. Other inputs are not described.
#[verifier::external_body]
pub fn path_join(base: &str, part: &str) -> (r: String)
    ensures
        join_outcome(base@, part@, r@),
{
    std::path::Path::new(base).join(part).to_string_lossy().into_owned()
}

/// `Path::exists`: whether something is at the path now. It depends on the
/// file system, so nothing is stated of it.
#[verifier::external_body]
pub fn path_exists(p: &str) -> (r: bool) {
    std::path::Path::new(p).exists()
}

/// The first index `i` at or after `from` with `found[i]`, if any.
pub open spec fn first_found(found: Seq<bool>, from: int) -> Option<int>
    decreases found.len() - from,
{
    if from < 0 || from >= found.len() {
        None
    } else if found[from] {
        Some(from)
    } else {
        first_found(found, from + 1)
    }
}

/// The first index found at or after `from` lies between `from` and the end.
pub proof fn lemma_first_found(found: Seq<bool>, from: int)
    requires
        0 <= from,
    ensures
        first_found(found, from) matches Some(i) ==> from <= i < found.len(),
    decreases found.len() - from,
{
    if from < found.len() && !found[from] {
        lemma_first_found(found, from + 1);
    }
}

/// The directory used when the platform gives no project directories.
pub open spec fn is_fallback_data_dir(d: Seq<char>) -> bool {
    exists|sep: char| (sep == '/' || sep == '\\') && d == joined("."@, sep, "netvan-data"@)
}

/// The names the library joins to its directories are plain components, and
/// the working directory `.` is a base the separator extends.
pub proof fn lemma_literals()
    ensures
        extendable_base("."@),
        plain_component("netvan-data"@),
        plain_component("netvan.db"@),
        plain_component("speedtest.exe"@),
        plain_component("ookla"@),
{
    reveal_strlit(".");
    reveal_strlit("netvan-data");
    reveal_strlit("netvan.db");
    reveal_strlit("speedtest.exe");
    reveal_strlit("ookla");
    assert("netvan-data"@[0] != '.');
    assert("netvan.db"@[0] != '.');
    assert("speedtest.exe"@[0] != '.');
    assert("ookla"@[0] != '.');
}

/// The data directory, given the user's data directory and the project's
/// path fragment the platform reports: the fragment under that directory,
/// or else `netvan-data` under the working directory.
pub fn data_dir_from(base_data: Option<String>, project_path: Option<String>) -> (r: String)
    ensures
        match (base_data, project_path) {
            (Some(b), Some(p)) => join_outcome(b@, p@, r@),
            _ => is_fallback_data_dir(r@),
        },
{
    match (base_data, project_path) {
        (Some(b), Some(p)) => path_join(b.as_str(), p.as_str()),
        _ => {
            proof {
                lemma_literals();
            }
            path_join(".", "netvan-data")
        },
    }
}

/// The data directory of this machine and user (see `data_dir_from`): the
/// project `com.Netvan.Netvan`'s fragment under the user's data directory,
/// which on Windows is `%APPDATA%\Netvan\Netvan`. Which directory that is
/// the platform and the environment decide.
pub fn data_dir() -> (r: String) {
    let project_path = match project_dirs() {
        Some(p) => Some(project_path_text(&p)),
        None => None,
    };
    let base_data = match base_dirs() {
        Some(b) => Some(base_data_dir(&b)),
        None => None,
    };
    data_dir_from(base_data, project_path)
}

/// The database file `netvan.db` in the directory `dir`.
pub fn db_path_in(dir: &str) -> (r: String)
    ensures
        crate::text::ends_with(r@, "netvan.db"@),
        extendable_base(dir@) ==> exists|sep: char|
            (sep == '/' || sep == '\\') && r@ == joined(dir@, sep, "netvan.db"@),
{
    proof {
        lemma_literals();
    }
    path_join(dir, "netvan.db")
}

/// The database file `netvan.db` in the data directory.
pub fn db_path() -> (r: String)
    ensures
        crate::text::ends_with(r@, "netvan.db"@),
{
    let dir = data_dir();
    db_path_in(dir.as_str())
}

} // verus!
