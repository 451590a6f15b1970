//! Guessing which files of a directory make up a solution.
//!
//! A detector is given the files that were found below a project's
//! directory and says how likely they are a project in its language, and
//! which of them to submit. It looks at names and paths only.

use vstd::prelude::*;
use vstd::string::*;
use crate::text::{
    after_first, chars_of, ends_with, same_text, starts_with, take_after_first,
};

verus! {

/// The extension of a file of the name `name`: what follows the last dot,
/// unless the name has no dot or only the one it begins with. The name `..`
/// has no extension.
pub open spec fn extension_of(name: Seq<char>) -> Option<Seq<char>> {
    match name.index_of_last('.') {
        Some(i) => if i == 0 || name == ".."@ {
            None
        } else {
            Some(name.skip(i + 1))
        },
        None => None,
    }
}

/// The extension of a file of the name `file_name`.
pub fn extension<'a>(file_name: &'a str) -> (found: Option<&'a str>)
    ensures
        found is Some == extension_of(file_name@) is Some,
        found is Some ==> found->0@ == extension_of(file_name@)->0,
{
    let chars = chars_of(file_name);
    let mut at: usize = chars.len();
    while at > 0 && chars[at - 1] != '.'
        invariant
            at <= chars.len(),
            forall|j: int| at <= j < chars.len() ==> chars@[j] != '.',
        decreases at,
    {
        at -= 1;
    }
    proof {
        file_name@.index_of_last_ensures('.');
    }
    if at <= 1 || same_text(file_name, "..") {
        None
    } else {
        Some(file_name.substring_char(at, chars.len()))
    }
}

/// Whether `extension` is one that source files of a solution have.
pub open spec fn is_code_extension(extension: Seq<char>) -> bool {
    extension == "py"@ || extension == "java"@ || extension == "cpp"@ || extension == "c"@
        || extension == "h"@ || extension == "hpp"@ || extension == "cc"@ || extension == "kt"@
        || extension == "hs"@
}

/// Whether a file of the name `name` is a source file.
pub open spec fn is_program_name(name: Seq<char>) -> bool {
    extension_of(name) matches Some(extension) && is_code_extension(extension)
}

/// Whether a file of the name `file_name` is a source file, by its
/// extension.
pub fn is_program_file(file_name: &str) -> (program: bool)
    ensures
        program == is_program_name(file_name@),
{
    match extension(file_name) {
        None => false,
        Some(found) => same_text(found, "py") || same_text(found, "java") || same_text(
            found,
            "cpp",
        ) || same_text(found, "c") || same_text(found, "h") || same_text(found, "hpp")
            || same_text(found, "cc") || same_text(found, "kt") || same_text(found, "hs"),
    }
}

/// A file below a project's directory: its path from that directory, and
/// its name, which is the last part of the path.
#[derive(Debug, Clone, PartialEq, Eq)]
pub struct ProjectFile {
    pub path: String,
    pub name: String,
}

pub ghost struct ProjectFileView {
    pub path: Seq<char>,
    pub name: Seq<char>,
}

impl View for ProjectFile {
    type V = ProjectFileView;

    open spec fn view(&self) -> ProjectFileView {
        ProjectFileView { path: self.path@, name: self.name@ }
    }
}

impl DeepView for ProjectFile {
    type V = ProjectFileView;

    open spec fn deep_view(&self) -> ProjectFileView {
        self@
    }
}

/// Calls `pathdiff::diff_paths` and writes the path that it returns as text.
/// Nothing is claimed of the result: what it is depends on how the machine
/// writes paths.
#[verifier::external_body]
fn diff_paths(path: &str, base: &str) -> (relative: Option<String>) {
    match pathdiff::diff_paths(path, base) {
        Some(relative) => Some(relative.to_string_lossy().into_owned()),
        None => None,
    }
}

/// The files among `files` for which a new path is given, each with its new
/// path, in the order of the files. A file without an entry in `paths` is
/// left out.
pub open spec fn moved_files(files: Seq<ProjectFileView>, paths: Seq<Option<Seq<char>>>) -> Seq<
    ProjectFileView,
>
    decreases files.len(),
{
    if files.len() == 0 {
        Seq::empty()
    } else {
        let front = moved_files(files.drop_last(), paths);
        if files.len() <= paths.len() && paths[files.len() - 1] is Some {
            front.push(
                ProjectFileView { path: paths[files.len() - 1]->0, name: files.last().name },
            )
        } else {
            front
        }
    }
}

/// Gives each file the path that `paths` holds for it and leaves out the
/// files for which it holds none.
pub fn files_with_paths(files: &Vec<ProjectFile>, paths: &Vec<Option<String>>) -> (moved: Vec<
    ProjectFile,
>)
    ensures
        moved.deep_view() == moved_files(files.deep_view(), paths.deep_view()),
{
    let ghost all = files.deep_view();
    let mut moved: Vec<ProjectFile> = Vec::new();
    let mut i: usize = 0;
    assert(all.take(0) =~= Seq::empty());
    assert(moved.deep_view() =~= Seq::empty());
    while i < files.len()
        invariant
            i <= files.len(),
            all == files.deep_view(),
            moved.deep_view() == moved_files(all.take(i as int), paths.deep_view()),
        decreases files.len() - i,
    {
        assert(all.take(i + 1).drop_last() =~= all.take(i as int));
        assert(all.take(i + 1).last() == files@[i as int]@);
        if i < paths.len() {
            assert(paths.deep_view()[i as int] == paths@[i as int].deep_view());
            match &paths[i] {
                Some(path) => {
                    let ghost before = moved.deep_view();
                    let file = ProjectFile { path: path.clone(), name: files[i].name.clone() };
                    moved.push(file);
                    assert(moved.deep_view() =~= before.push(file@));
                },
                None => {},
            }
        }
        i += 1;
    }
    assert(all.take(i as int) =~= all);
    moved
}

/// Rewrites the path of each file as a path from the directory `base`, and
/// leaves out the files that cannot be reached from there. Which path a file
/// gets is not stated; the files keep their names and their order.
pub fn relative_files(files: &Vec<ProjectFile>, base: &str) -> (moved: Vec<ProjectFile>)
    ensures
        exists|paths: Seq<Option<Seq<char>>>|
            paths.len() == files.len() && moved.deep_view() == #[trigger] moved_files(
                files.deep_view(),
                paths,
            ),
{
    let mut paths: Vec<Option<String>> = Vec::new();
    let mut i: usize = 0;
    while i < files.len()
        invariant
            i <= files.len(),
            paths.len() == i,
        decreases files.len() - i,
    {
        paths.push(diff_paths(files[i].path.as_str(), base));
        i += 1;
    }
    let moved = files_with_paths(files, &paths);
    assert(paths.deep_view().len() == files.len());
    moved
}

/// What a detector concludes: how likely the files are a project in its
/// language, in thousandths; the files to submit; and advice for the
/// student.
#[derive(Debug, Clone, PartialEq, Eq)]
pub struct DetectionResult {
    pub probability: u32,
    pub files: Vec<String>,
    pub recommendations: Vec<String>,
}

pub ghost struct DetectionResultView {
    pub probability: u32,
    pub files: Seq<Seq<char>>,
    pub recommendations: Seq<Seq<char>>,
}

impl View for DetectionResult {
    type V = DetectionResultView;

    open spec fn view(&self) -> DetectionResultView {
        DetectionResultView {
            probability: self.probability,
            files: self.files.deep_view(),
            recommendations: self.recommendations.deep_view(),
        }
    }
}

impl DeepView for DetectionResult {
    type V = DetectionResultView;

    open spec fn deep_view(&self) -> DetectionResultView {
        self@
    }
}

/// A kind of file that a detector counts.
#[derive(Debug, Clone, Copy, PartialEq, Eq)]
pub enum Kind {
    /// Any source file.
    Program,
    /// A source file in Python.
    Python,
    /// A source file in Java.
    Java,
    /// A source file in Java that is not a test: its name neither begins
    /// with `Test` nor ends in `Test.java`.
    JavaSource,
}

/// Whether a file of the name `name` is of the kind `kind`.
pub open spec fn is_of_kind(name: Seq<char>, kind: Kind) -> bool {
    match kind {
        Kind::Program => is_program_name(name),
        Kind::Python => extension_of(name) == Some("py"@),
        Kind::Java => extension_of(name) == Some("java"@),
        Kind::JavaSource => extension_of(name) == Some("java"@) && !"Test.java"@.is_suffix_of(
            name,
        ) && !"Test"@.is_prefix_of(name),
    }
}

/// The paths of the files of the kind `kind`, in the order of the files.
pub open spec fn paths_of(files: Seq<ProjectFileView>, kind: Kind) -> Seq<Seq<char>>
    decreases files.len(),
{
    if files.len() == 0 {
        Seq::empty()
    } else {
        let front = paths_of(files.drop_last(), kind);
        if is_of_kind(files.last().name, kind) {
            front.push(files.last().path)
        } else {
            front
        }
    }
}

/// Whether a file of the name `file_name` is of the kind `kind`.
pub fn has_kind(file_name: &str, kind: Kind) -> (hit: bool)
    ensures
        hit == is_of_kind(file_name@, kind),
{
    match kind {
        Kind::Program => is_program_file(file_name),
        Kind::Python => match extension(file_name) {
            Some(found) => same_text(found, "py"),
            None => false,
        },
        Kind::Java => match extension(file_name) {
            Some(found) => same_text(found, "java"),
            None => false,
        },
        Kind::JavaSource => match extension(file_name) {
            Some(found) => same_text(found, "java") && !ends_with(file_name, "Test.java")
                && !starts_with(file_name, "Test"),
            None => false,
        },
    }
}

/// The paths of the files of the kind `kind`, in the order of the files.
pub fn select_paths(files: &Vec<ProjectFile>, kind: Kind) -> (paths: Vec<String>)
    ensures
        paths.deep_view() == paths_of(files.deep_view(), kind),
{
    let ghost all = files.deep_view();
    let mut paths: Vec<String> = Vec::new();
    let mut i: usize = 0;
    assert(all.take(0) =~= Seq::empty());
    assert(paths.deep_view() =~= Seq::empty());
    while i < files.len()
        invariant
            i <= files.len(),
            all == files.deep_view(),
            paths.deep_view() == paths_of(all.take(i as int), kind),
        decreases files.len() - i,
    {
        assert(all.take(i + 1).drop_last() =~= all.take(i as int));
        assert(all.take(i + 1).last() == files@[i as int]@);
        if has_kind(files[i].name.as_str(), kind) {
            let ghost before = paths.deep_view();
            let path = files[i].path.clone();
            paths.push(path);
            assert(paths.deep_view() =~= before.push(path@));
        }
        i += 1;
    }
    assert(all.take(i as int) =~= all);
    paths
}

fn lists(paths: &Vec<String>, wanted: &str) -> (listed: bool)
    ensures
        listed == paths.deep_view().contains(wanted@),
{
    let mut i: usize = 0;
    while i < paths.len()
        invariant
            i <= paths.len(),
            forall|j: int| 0 <= j < i ==> paths.deep_view()[j] != wanted@,
        decreases paths.len() - i,
    {
        assert(paths.deep_view()[i as int] == paths@[i as int]@);
        if same_text(paths[i].as_str(), wanted) {
            return true;
        }
        i += 1;
    }
    false
}

fn one(text: &str) -> (list: Vec<String>)
    ensures
        list.deep_view() == seq![text@],
{
    let mut list: Vec<String> = Vec::new();
    list.push(text.to_owned());
    assert(list.deep_view() =~= seq![text@]);
    list
}

fn none() -> (list: Vec<String>)
    ensures
        list.deep_view() == Seq::<Seq<char>>::empty(),
{
    let list: Vec<String> = Vec::new();
    assert(list.deep_view() =~= Seq::<Seq<char>>::empty());
    list
}

/// Whether the text of a solution begins with the header that the portal
/// asks for: a first line that begins with `#`, a second that begins with
/// `# autor`, and a third that begins with `# datum`.
pub open spec fn has_header(content: Seq<char>) -> bool {
    &&& "#"@.is_prefix_of(content)
    &&& after_first(content, '\n') matches Some(second)
    &&& "# autor"@.is_prefix_of(second)
    &&& after_first(second, '\n') matches Some(third)
    &&& "# datum"@.is_prefix_of(third)
}

/// Whether the text of a solution begins with the header that the portal
/// asks for.
pub fn has_list_header_comment(content: &str) -> (found: bool)
    ensures
        found == has_header(content@),
{
    if !starts_with(content, "#") {
        return false;
    }
    match take_after_first(content, '\n') {
        None => false,
        Some(second) => {
            if !starts_with(second, "# autor") {
                return false;
            }
            match take_after_first(second, '\n') {
                None => false,
                Some(third) => starts_with(third, "# datum"),
            }
        },
    }
}

/// A conclusion with the files `files` and without advice.
pub open spec fn plain_result(probability: u32, files: Seq<Seq<char>>) -> DetectionResultView {
    DetectionResultView { probability, files, recommendations: Seq::empty() }
}

/// The solution file whose header decides how sure the detector for Python
/// is: `riesenie.py`, else `src/riesenie.py`, where one of them is among
/// the source files.
pub open spec fn python_main_file(files: Seq<ProjectFileView>) -> Option<Seq<char>> {
    let programs = paths_of(files, Kind::Program);
    if programs.contains("riesenie.py"@) {
        Some("riesenie.py"@)
    } else if programs.contains("src/riesenie.py"@) {
        Some("src/riesenie.py"@)
    } else {
        None
    }
}

/// What the detector for Python concludes. With a solution file of the
/// expected name, that file alone is submitted; the detector is more sure
/// where the file has its header, and advises to add it where it has not.
/// Without such a file the source files in Python are submitted, and the
/// detector is the more sure the larger their share of all source files is.
pub open spec fn python_detection(files: Seq<ProjectFileView>, header: bool) -> DetectionResultView {
    let programs = paths_of(files, Kind::Program);
    let python = paths_of(files, Kind::Python);
    if programs.contains("riesenie.py"@) {
        if header {
            plain_result(900, seq!["riesenie.py"@])
        } else {
            DetectionResultView {
                probability: 800,
                files: seq!["riesenie.py"@],
                recommendations: seq!["File `riesenie.py` is missing a header comment."@],
            }
        }
    } else if programs.contains("src/riesenie.py"@) {
        if header {
            plain_result(900, seq!["src/riesenie.py"@])
        } else {
            DetectionResultView {
                probability: 800,
                files: seq!["src/riesenie.py"@],
                recommendations: seq!["File `src/riesenie.py` is missing a header comment."@],
            }
        }
    } else if python.len() == programs.len() {
        plain_result(800, python)
    } else if 2 * python.len() > programs.len() {
        plain_result(500, python)
    } else if python.len() > 0 {
        plain_result(300, python)
    } else {
        plain_result(0, Seq::empty())
    }
}

/// What the detector for Java concludes. The source files in Java that are
/// no tests are submitted where all source files, or more than half of
/// them, are in Java.
pub open spec fn java_detection(files: Seq<ProjectFileView>) -> DetectionResultView {
    let programs = paths_of(files, Kind::Program);
    let java = paths_of(files, Kind::Java);
    let sources = paths_of(files, Kind::JavaSource);
    if java.len() == 0 {
        plain_result(0, Seq::empty())
    } else if java.len() == programs.len() {
        plain_result(800, sources)
    } else if 2 * java.len() > programs.len() {
        plain_result(500, sources)
    } else {
        plain_result(0, Seq::empty())
    }
}

/// Whether the conclusion at index `i` is the one to go by: it is more
/// likely than nothing, none is more likely than it, and of those that are
/// as likely as it, it stands last.
pub open spec fn is_most_likely(probabilities: Seq<u32>, i: int) -> bool {
    &&& 0 <= i < probabilities.len()
    &&& probabilities[i] > 0
    &&& forall|j: int| 0 <= j < i ==> #[trigger] probabilities[j] <= probabilities[i]
    &&& forall|j: int| i < j < probabilities.len() ==> #[trigger] probabilities[j] < probabilities[i]
}

/// Picks the conclusion to go by among those of several detectors, from how
/// likely each is: the most likely one, the last of several that are equally
/// likely, and none where none is more likely than nothing.
pub fn most_likely(probabilities: &Vec<u32>) -> (picked: Option<usize>)
    ensures
        match picked {
            Some(i) => is_most_likely(probabilities@, i as int),
            None => forall|j: int|
                0 <= j < probabilities.len() ==> #[trigger] probabilities@[j] == 0,
        },
{
    let mut picked: Option<usize> = None;
    let mut n: usize = 0;
    while n < probabilities.len()
        invariant
            n <= probabilities.len(),
            match picked {
                Some(i) => is_most_likely(probabilities@.take(n as int), i as int),
                None => forall|j: int| 0 <= j < n ==> #[trigger] probabilities@[j] == 0,
            },
        decreases probabilities.len() - n,
    {
        let ghost before = probabilities@.take(n as int);
        let ghost after = probabilities@.take(n + 1);
        assert(forall|j: int| 0 <= j < n ==> before[j] == after[j]);
        if probabilities[n] > 0 {
            match picked {
                None => {
                    picked = Some(n);
                },
                Some(best) => {
                    assert(before[best as int] == probabilities@[best as int]);
                    if probabilities[best] <= probabilities[n] {
                        picked = Some(n);
                    }
                },
            }
        }
        n += 1;
    }
    assert(probabilities@.take(n as int) =~= probabilities@);
    picked
}

/// The detector for projects in Python.
#[derive(Debug, Clone, Copy, PartialEq, Eq)]
pub struct PythonDetector;

impl PythonDetector {
    /// The name of the language.
    pub fn name(&self) -> (name: &'static str)
        ensures
            name@ == "Python"@,
    {
        "Python"
    }

    /// The solution file whose header `detect` asks about, if there is one.
    pub fn main_file(&self, files: &Vec<ProjectFile>) -> (file: Option<&'static str>)
        ensures
            file.deep_view() == python_main_file(files.deep_view()),
    {
        let programs = select_paths(files, Kind::Program);
        if lists(&programs, "riesenie.py") {
            Some("riesenie.py")
        } else if lists(&programs, "src/riesenie.py") {
            Some("src/riesenie.py")
        } else {
            None
        }
    }

    /// Concludes from the files below a project's directory. `header` says
    /// whether the solution file that `main_file` names has its header.
    pub fn detect(&self, files: &Vec<ProjectFile>, header: bool) -> (result: DetectionResult)
        ensures
            result@ == python_detection(files.deep_view(), header),
    {
        let programs = select_paths(files, Kind::Program);
        if lists(&programs, "riesenie.py") {
            if header {
                DetectionResult {
                    probability: 900,
                    files: one("riesenie.py"),
                    recommendations: none(),
                }
            } else {
                DetectionResult {
                    probability: 800,
                    files: one("riesenie.py"),
                    recommendations: one("File `riesenie.py` is missing a header comment."),
                }
            }
        } else if lists(&programs, "src/riesenie.py") {
            if header {
                DetectionResult {
                    probability: 900,
                    files: one("src/riesenie.py"),
                    recommendations: none(),
                }
            } else {
                DetectionResult {
                    probability: 800,
                    files: one("src/riesenie.py"),
                    recommendations: one("File `src/riesenie.py` is missing a header comment."),
                }
            }
        } else {
            let python = select_paths(files, Kind::Python);
            let all = programs.len();
            let ours = python.len();
            if ours == all {
                DetectionResult { probability: 800, files: python, recommendations: none() }
            } else if ours > all || ours > all - ours {
                DetectionResult { probability: 500, files: python, recommendations: none() }
            } else if ours > 0 {
                DetectionResult { probability: 300, files: python, recommendations: none() }
            } else {
                DetectionResult { probability: 0, files: none(), recommendations: none() }
            }
        }
    }
}

/// The detector for projects in Java.
#[derive(Debug, Clone, Copy, PartialEq, Eq)]
pub struct JavaDetector;

impl JavaDetector {
    /// The name of the language.
    pub fn name(&self) -> (name: &'static str)
        ensures
            name@ == "Java"@,
    {
        "Java"
    }

    /// Concludes from the files below a project's directory.
    pub fn detect(&self, files: &Vec<ProjectFile>) -> (result: DetectionResult)
        ensures
            result@ == java_detection(files.deep_view()),
    {
        let programs = select_paths(files, Kind::Program);
        let java = select_paths(files, Kind::Java);
        let all = programs.len();
        let ours = java.len();
        if ours == 0 {
            DetectionResult { probability: 0, files: none(), recommendations: none() }
        } else if ours == all {
            DetectionResult {
                probability: 800,
                files: select_paths(files, Kind::JavaSource),
                recommendations: none(),
            }
        } else if ours > all || ours > all - ours {
            DetectionResult {
                probability: 500,
                files: select_paths(files, Kind::JavaSource),
                recommendations: none(),
            }
        } else {
            DetectionResult { probability: 0, files: none(), recommendations: none() }
        }
    }
}

} // verus!
