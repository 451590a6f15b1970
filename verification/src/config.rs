//! The settings that the tool keeps: the account, and for each project the
//! problem it belongs to and the files it submits.
//!
//! Nothing here touches a file. The functions decide what a file that was
//! read amounts to, which files a project lists, and where a project's
//! settings are found among places that someone else has looked at.

use std::collections::VecDeque;
use vstd::prelude::*;
use crate::detectors::{moved_files, relative_files, ProjectFile, ProjectFileView};
use crate::text::same_text;
use crate::toml_file::{
    parse_toml, parsed_toml, render, set_list_in, set_number_in, set_text, set_text_in, text_at,
    toml_rendered, toml_text, toml_with_list_in, toml_with_number_in, toml_with_text,
    toml_with_text_in,
};

verus! {

/// The version of the settings that this library reads and writes.
pub open spec fn config_version() -> Seq<char> {
    "0.0.1"@
}

/// The name of the file that holds a project's settings.
pub open spec fn project_config_name() -> Seq<char> {
    "list-submit.toml"@
}

/// The version that the settings file `content` states: the text at its key
/// `version`. `None` where the file is no document or states no version.
pub open spec fn stated_version(content: Seq<char>) -> Option<Seq<char>> {
    match parsed_toml(content) {
        Some(document) => toml_text(document, "version"@),
        None => None,
    }
}

/// Reads the version that a settings file states.
pub fn file_version(content: &str) -> (version: Option<String>)
    ensures
        version.deep_view() == stated_version(content@),
{
    match parse_toml(content) {
        Some(document) => text_at(&document, "version"),
        None => None,
    }
}

/// The account of a student.
#[derive(Debug, Clone, PartialEq, Eq)]
pub struct AuthConfig {
    pub email: String,
    pub password: String,
}

pub ghost struct AuthConfigView {
    pub email: Seq<char>,
    pub password: Seq<char>,
}

impl View for AuthConfig {
    type V = AuthConfigView;

    open spec fn view(&self) -> AuthConfigView {
        AuthConfigView { email: self.email@, password: self.password@ }
    }
}

impl DeepView for AuthConfig {
    type V = AuthConfigView;

    open spec fn deep_view(&self) -> AuthConfigView {
        self@
    }
}

impl AuthConfig {
    /// Whether neither an address nor a password is set.
    pub fn is_empty(&self) -> (empty: bool)
        ensures
            empty == (self.email@.len() == 0 && self.password@.len() == 0),
    {
        self.email.as_str().is_empty() && self.password.as_str().is_empty()
    }
}

/// The settings of the tool as a whole.
#[derive(Debug, Clone, PartialEq, Eq)]
pub struct GlobalConfig {
    pub version: String,
    pub auth: Option<AuthConfig>,
}

pub ghost struct GlobalConfigView {
    pub version: Seq<char>,
    pub auth: Option<AuthConfigView>,
}

impl View for GlobalConfig {
    type V = GlobalConfigView;

    open spec fn view(&self) -> GlobalConfigView {
        GlobalConfigView { version: self.version@, auth: self.auth.deep_view() }
    }
}

impl DeepView for GlobalConfig {
    type V = GlobalConfigView;

    open spec fn deep_view(&self) -> GlobalConfigView {
        self@
    }
}

impl Default for GlobalConfig {
    /// Settings of the current version without an account.
    fn default() -> (made: GlobalConfig)
        ensures
            made@ == (GlobalConfigView { version: config_version(), auth: None }),
    {
        GlobalConfig { version: "0.0.1".to_owned(), auth: None }
    }
}

/// Where the settings of the tool are kept on a machine.
#[derive(Debug, Clone, Copy, PartialEq, Eq)]
pub enum Platform {
    /// Below `.config` in the home directory.
    Unix,
    /// Below `AppData/Roaming` in the profile directory.
    Windows,
}

/// The path of the tool's settings below the directory `home`.
pub open spec fn global_config_path_of(home: Seq<char>, platform: Platform) -> Seq<char> {
    match platform {
        Platform::Unix => home + "/.config/list-submit/config.toml"@,
        Platform::Windows => home + "/AppData/Roaming/list-submit/config.toml"@,
    }
}

/// The path of the tool's settings below the directory `home`.
pub fn get_global_config_path(home: &str, platform: Platform) -> (path: String)
    ensures
        path@ == global_config_path_of(home@, platform),
{
    let mut path = home.to_owned();
    match platform {
        Platform::Unix => path.append("/.config/list-submit/config.toml"),
        Platform::Windows => path.append("/AppData/Roaming/list-submit/config.toml"),
    }
    path
}

/// What the settings file of the tool amounts to, from the version that the
/// file states and from the settings that were decoded from it. A file of
/// another version, or without one, or one that could not be decoded,
/// amounts to nothing. An account without address and password counts as no
/// account.
pub open spec fn loaded_global(file_version: Option<Seq<char>>, decoded: Option<GlobalConfigView>) -> Option<
    GlobalConfigView,
> {
    if file_version != Some(config_version()) {
        None
    } else {
        match decoded {
            None => None,
            Some(config) => match config.auth {
                Some(auth) => if auth.email.len() == 0 && auth.password.len() == 0 {
                    Some(GlobalConfigView { auth: None, ..config })
                } else {
                    Some(config)
                },
                None => Some(config),
            },
        }
    }
}

impl GlobalConfig {
    /// Decides what the settings file of the tool amounts to.
    pub fn load(file_version: Option<&str>, decoded: Option<GlobalConfig>) -> (loaded: Option<
        GlobalConfig,
    >)
        ensures
            loaded.deep_view() == loaded_global(file_version.deep_view(), decoded.deep_view()),
    {
        let current = match file_version {
            Some(version) => same_text(version, "0.0.1"),
            None => false,
        };
        if !current {
            return None;
        }
        match decoded {
            None => None,
            Some(config) => {
                let blank = match &config.auth {
                    Some(auth) => auth.is_empty(),
                    None => false,
                };
                if blank {
                    Some(GlobalConfig { version: config.version, auth: None })
                } else {
                    Some(config)
                }
            },
        }
    }
}

/// The problem that a project belongs to and the files that it submits.
#[derive(Debug, Clone, PartialEq, Eq)]
pub struct ProblemConfig {
    pub course_id: u32,
    pub problem_id: u32,
    pub problem_name: String,
    pub files: Vec<String>,
}

pub ghost struct ProblemConfigView {
    pub course_id: u32,
    pub problem_id: u32,
    pub problem_name: Seq<char>,
    pub files: Seq<Seq<char>>,
}

impl View for ProblemConfig {
    type V = ProblemConfigView;

    open spec fn view(&self) -> ProblemConfigView {
        ProblemConfigView {
            course_id: self.course_id,
            problem_id: self.problem_id,
            problem_name: self.problem_name@,
            files: self.files.deep_view(),
        }
    }
}

impl DeepView for ProblemConfig {
    type V = ProblemConfigView;

    open spec fn deep_view(&self) -> ProblemConfigView {
        self@
    }
}

/// The settings of one project.
#[derive(Debug, Clone, PartialEq, Eq)]
pub struct ProjectConfig {
    pub version: String,
    pub problem: ProblemConfig,
}

pub ghost struct ProjectConfigView {
    pub version: Seq<char>,
    pub problem: ProblemConfigView,
}

impl View for ProjectConfig {
    type V = ProjectConfigView;

    open spec fn view(&self) -> ProjectConfigView {
        ProjectConfigView { version: self.version@, problem: self.problem@ }
    }
}

impl DeepView for ProjectConfig {
    type V = ProjectConfigView;

    open spec fn deep_view(&self) -> ProjectConfigView {
        self@
    }
}

/// Why a project's settings were not accepted.
#[derive(Debug, Clone, PartialEq, Eq)]
pub enum ConfigError {
    /// The file states another version than the current one, or none.
    VersionMismatch(Option<String>),
}

impl View for ConfigError {
    type V = Option<Seq<char>>;

    /// The version that the file states.
    open spec fn view(&self) -> Option<Seq<char>> {
        match self {
            ConfigError::VersionMismatch(found) => found.deep_view(),
        }
    }
}

/// What a directory that was looked at holds, for the search downwards.
#[derive(Debug, Clone, PartialEq, Eq)]
pub struct DirReport {
    /// The name of the directory, where it has one.
    pub name: Option<String>,
    /// The path of the settings file in the directory.
    pub config_path: String,
    /// Whether that file exists.
    pub has_config: bool,
    /// The directories in the directory.
    pub subdirs: Vec<String>,
}

/// The first of `candidates` at or behind the index `from` whose flag in
/// `present` is set; a candidate without a flag counts as absent.
pub open spec fn first_present_from(candidates: Seq<Seq<char>>, present: Seq<bool>, from: int) -> Option<
    Seq<char>,
>
    decreases candidates.len() - from,
{
    if from < 0 || from >= candidates.len() || from >= present.len() {
        None
    } else if present[from] {
        Some(candidates[from])
    } else {
        first_present_from(candidates, present, from + 1)
    }
}

/// The first of `candidates` whose flag in `present` is set.
pub open spec fn first_present(candidates: Seq<Seq<char>>, present: Seq<bool>) -> Option<Seq<char>> {
    first_present_from(candidates, present, 0)
}

/// The candidate that a search from `from` finds stands at an index whose
/// flag is set and before which, from `from` on, no flag is set; the search
/// finds nothing exactly where no candidate from `from` on has its flag set.
pub proof fn first_present_is_first(candidates: Seq<Seq<char>>, present: Seq<bool>, from: int)
    requires
        0 <= from,
    ensures
        match first_present_from(candidates, present, from) {
            Some(found) => exists|i: int|
                from <= i < candidates.len() && i < present.len() && #[trigger] present[i]
                    && candidates[i] == found && forall|j: int|
                    from <= j < i ==> !#[trigger] present[j],
            None => forall|i: int|
                from <= i < candidates.len() && i < present.len() ==> !#[trigger] present[i],
        },
    decreases candidates.len() - from,
{
    if from >= candidates.len() || from >= present.len() {
    } else if present[from] {
    } else {
        first_present_is_first(candidates, present, from + 1);
        match first_present_from(candidates, present, from + 1) {
            Some(found) => {
                let i = choose|i: int|
                    from + 1 <= i < candidates.len() && i < present.len() && #[trigger] present[i]
                        && candidates[i] == found && forall|j: int|
                        from + 1 <= j < i ==> !#[trigger] present[j];
                assert(present[i] && candidates[i] == found);
                assert forall|j: int| from <= j < i implies !#[trigger] present[j] by {}
            },
            None => {},
        }
    }
}

/// A queue without its first element; an empty queue stays empty.
pub open spec fn rest_of(queue: Seq<Seq<char>>) -> Seq<Seq<char>> {
    if queue.len() > 0 {
        queue.skip(1)
    } else {
        queue
    }
}

/// The files of `files` whose flag in `present` is set, in their order; a
/// file without a flag is dropped.
pub open spec fn kept_files(files: Seq<Seq<char>>, present: Seq<bool>) -> Seq<Seq<char>>
    decreases files.len(),
{
    if files.len() == 0 {
        Seq::empty()
    } else {
        let front = kept_files(files.drop_last(), present);
        if files.len() <= present.len() && present[files.len() - 1] {
            front.push(files.last())
        } else {
            front
        }
    }
}

/// The files of `files` that occur in `picked`, in their order.
pub open spec fn picked_files(files: Seq<Seq<char>>, picked: Seq<Seq<char>>) -> Seq<Seq<char>>
    decreases files.len(),
{
    if files.len() == 0 {
        Seq::empty()
    } else {
        let front = picked_files(files.drop_last(), picked);
        if picked.contains(files.last()) {
            front.push(files.last())
        } else {
            front
        }
    }
}

/// `files` without repetitions: each file at the place where it first
/// occurs.
pub open spec fn unique_files(files: Seq<Seq<char>>) -> Seq<Seq<char>>
    decreases files.len(),
{
    if files.len() == 0 {
        Seq::empty()
    } else {
        let front = unique_files(files.drop_last());
        if front.contains(files.last()) {
            front
        } else {
            front.push(files.last())
        }
    }
}

/// `unique_files` holds every file of the list, and none twice.
pub proof fn unique_files_has_each_once(files: Seq<Seq<char>>)
    ensures
        forall|file: Seq<char>|
            #![trigger unique_files(files).contains(file)]
            #![trigger files.contains(file)]
            unique_files(files).contains(file) <==> files.contains(file),
        unique_files(files).no_duplicates(),
    decreases files.len(),
{
    if files.len() > 0 {
        let front = files.drop_last();
        let last = files.last();
        unique_files_has_each_once(front);
        let done = unique_files(front);
        let all = unique_files(files);
        assert forall|file: Seq<char>| all.contains(file) <==> files.contains(file) by {
            if files.contains(file) {
                let i = choose|i: int| 0 <= i < files.len() && files[i] == file;
                if i < front.len() {
                    assert(front[i] == file);
                    assert(front.contains(file));
                    assert(done.contains(file));
                    let k = choose|k: int| 0 <= k < done.len() && done[k] == file;
                    assert(all[k] == file);
                    assert(all.contains(file));
                } else {
                    assert(file == last);
                    if done.contains(last) {
                        assert(all.contains(file));
                    } else {
                        assert(all[done.len() as int] == file);
                        assert(all.contains(file));
                    }
                }
            }
            if all.contains(file) {
                let k = choose|k: int| 0 <= k < all.len() && all[k] == file;
                if k < done.len() {
                    assert(done[k] == file);
                    assert(done.contains(file));
                    assert(front.contains(file));
                    let i = choose|i: int| 0 <= i < front.len() && front[i] == file;
                    assert(files[i] == file);
                    assert(files.contains(file));
                } else {
                    assert(files[files.len() - 1] == file);
                    assert(files.contains(file));
                }
            }
        }
        assert forall|i: int, j: int| 0 <= i < all.len() && 0 <= j < all.len() && i != j implies all[i]
            != all[j] by {
            if i < done.len() && j < done.len() {
                assert(done[i] != done[j]);
            } else if i < done.len() {
                assert(done[i] == all[i]);
                if all[i] == all[j] {
                    assert(done.contains(last));
                }
            } else if j < done.len() {
                assert(done[j] == all[j]);
                if all[i] == all[j] {
                    assert(done.contains(last));
                }
            }
        }
    }
}

/// The indices of the `candidates` that occur in `files`, in rising order.
pub open spec fn listed_indices(candidates: Seq<Seq<char>>, files: Seq<Seq<char>>) -> Seq<usize>
    decreases candidates.len(),
{
    if candidates.len() == 0 {
        Seq::empty()
    } else {
        let front = listed_indices(candidates.drop_last(), files);
        if files.contains(candidates.last()) {
            front.push((candidates.len() - 1) as usize)
        } else {
            front
        }
    }
}

/// The settings file `content` after `project` was saved to it: the
/// current version at the key `version`; in the table `problem` the course,
/// the problem and its name, and the files of the project, each once. The
/// rest of the file stays as it is. `None` where the file is no document or
/// holds something else where the table or the list of files belongs.
pub open spec fn saved_project(content: Seq<char>, project: ProjectConfigView) -> Option<Seq<char>> {
    match parsed_toml(content) {
        None => None,
        Some(document) => match toml_with_number_in(
            toml_with_text(document, "version"@, config_version()),
            "problem"@,
            "course_id"@,
            project.problem.course_id,
        ) {
            None => None,
            Some(document) => match toml_with_number_in(
                document,
                "problem"@,
                "problem_id"@,
                project.problem.problem_id,
            ) {
                None => None,
                Some(document) => match toml_with_text_in(
                    document,
                    "problem"@,
                    "problem_name"@,
                    project.problem.problem_name,
                ) {
                    None => None,
                    Some(document) => match toml_with_list_in(
                        document,
                        "problem"@,
                        "files"@,
                        unique_files(project.problem.files),
                    ) {
                        None => None,
                        Some(document) => Some(toml_rendered(document)),
                    },
                },
            },
        },
    }
}

/// A menu of files to list: the files on offer, and the indices of those
/// that are ticked when the menu opens.
#[derive(Debug, Clone, PartialEq, Eq)]
pub struct FileMenu {
    pub files: Vec<String>,
    pub ticked: Vec<usize>,
}

/// The files among `found` that a project may list, in their order.
pub open spec fn listable_files(found: Seq<ProjectFileView>) -> Seq<ProjectFileView>
    decreases found.len(),
{
    if found.len() == 0 {
        Seq::empty()
    } else {
        let front = listable_files(found.drop_last());
        if found.last().name != project_config_name() {
            front.push(found.last())
        } else {
            front
        }
    }
}

/// The paths of `files`, in their order.
pub open spec fn paths_in(files: Seq<ProjectFileView>) -> Seq<Seq<char>> {
    Seq::new(files.len(), |i: int| files[i].path)
}

/// Whether `wanted` is one of `files`.
pub fn lists_file(files: &Vec<String>, wanted: &str) -> (listed: bool)
    ensures
        listed == files.deep_view().contains(wanted@),
{
    let mut i: usize = 0;
    while i < files.len()
        invariant
            i <= files.len(),
            forall|j: int| 0 <= j < i ==> files.deep_view()[j] != wanted@,
        decreases files.len() - i,
    {
        assert(files.deep_view()[i as int] == files@[i as int]@);
        if same_text(files[i].as_str(), wanted) {
            return true;
        }
        i += 1;
    }
    false
}

impl ProjectConfig {
    /// Accepts the settings that were decoded from a project's file, where
    /// the file states the current version.
    pub fn load(file_version: Option<&str>, decoded: ProjectConfig) -> (loaded: Result<
        ProjectConfig,
        ConfigError,
    >)
        ensures
            match loaded {
                Ok(config) => file_version.deep_view() == Some(config_version()) && config
                    == decoded,
                Err(error) => file_version.deep_view() != Some(config_version()) && error@
                    == file_version.deep_view(),
            },
    {
        match file_version {
            Some(version) => {
                if same_text(version, "0.0.1") {
                    Ok(decoded)
                } else {
                    Err(ConfigError::VersionMismatch(Some(version.to_owned())))
                }
            },
            None => Err(ConfigError::VersionMismatch(None)),
        }
    }

    /// Saves the settings into the text of their file and returns the new
    /// text. What the file holds besides the settings, and how it is laid
    /// out, stays as it is.
    pub fn save(&self, content: &str) -> (saved: Option<String>)
        ensures
            saved.deep_view() == saved_project(content@, self@),
    {
        let document = match parse_toml(content) {
            Some(document) => set_text(document, "version", "0.0.1"),
            None => {
                return None;
            },
        };
        let document = match set_number_in(document, "problem", "course_id", self.problem.course_id) {
            Some(document) => document,
            None => {
                return None;
            },
        };
        let document = match set_number_in(
            document,
            "problem",
            "problem_id",
            self.problem.problem_id,
        ) {
            Some(document) => document,
            None => {
                return None;
            },
        };
        let document = match set_text_in(
            document,
            "problem",
            "problem_name",
            self.problem.problem_name.as_str(),
        ) {
            Some(document) => document,
            None => {
                return None;
            },
        };
        let files = self.saved_files();
        match set_list_in(document, "problem", "files", &files) {
            Some(document) => Some(render(&document)),
            None => None,
        }
    }

    /// Searches upwards: of the places where a project's settings may lie,
    /// nearest first, the first at which they do. `present` says for each
    /// place whether the settings file exists there.
    pub fn find_project_config_up(candidates: &Vec<String>, present: &Vec<bool>) -> (found: Option<
        String,
    >)
        ensures
            found.deep_view() == first_present(candidates.deep_view(), present@),
    {
        let ghost all = candidates.deep_view();
        let mut i: usize = 0;
        while i < candidates.len() && i < present.len()
            invariant
                i <= candidates.len(),
                i <= present.len(),
                all == candidates.deep_view(),
                first_present(all, present@) == first_present_from(all, present@, i as int),
            decreases candidates.len() - i,
        {
            assert(all[i as int] == candidates@[i as int]@);
            if present[i] {
                return Some(candidates[i].clone());
            }
            i += 1;
        }
        None
    }

    /// Searches downwards, one directory at a time, breadth first. `queue`
    /// holds the directories that are still to be looked at, and `report`
    /// says what the first of them holds. The search ends with the settings
    /// file of that directory where the directory bears the name of the
    /// project and has the file. Else the directory leaves the queue and its
    /// directories join the queue at the end.
    pub fn find_project_config_down(
        queue: &mut VecDeque<String>,
        project_name: &str,
        report: DirReport,
    ) -> (found: Option<String>)
        ensures
            found is Some <==> report.name.deep_view() == Some(project_name@) && report.has_config,
            found matches Some(path) ==> path@ == report.config_path@ && final(queue)@ == old(
                queue,
            )@,
            found is None ==> final(queue).deep_view() == rest_of(old(queue).deep_view())
                + report.subdirs.deep_view(),
    {
        let named = match &report.name {
            Some(name) => same_text(name.as_str(), project_name),
            None => false,
        };
        if named && report.has_config {
            return Some(report.config_path);
        }
        let ghost rest = rest_of(queue.deep_view());
        queue.pop_front();
        assert(queue.deep_view() =~= rest);
        let subdirs = report.subdirs;
        let ghost all = subdirs.deep_view();
        let mut i: usize = 0;
        assert(rest + all.take(0) =~= rest);
        while i < subdirs.len()
            invariant
                i <= subdirs.len(),
                all == subdirs.deep_view(),
                queue.deep_view() == rest + all.take(i as int),
            decreases subdirs.len() - i,
        {
            let ghost so_far = queue.deep_view();
            let dir = subdirs[i].clone();
            queue.push_back(dir);
            assert(queue.deep_view() =~= so_far.push(dir@));
            assert(all.take(i + 1) =~= all.take(i as int).push(all[i as int]));
            assert(so_far.push(dir@) =~= rest + all.take(i + 1));
            i += 1;
        }
        assert(all.take(i as int) =~= all);
        None
    }

    /// The settings of a new project.
    pub fn create(course_id: u32, problem_id: u32, problem_name: &str, files: &Vec<String>) -> (made:
        ProjectConfig)
        ensures
            made@ == (ProjectConfigView {
                version: config_version(),
                problem: ProblemConfigView {
                    course_id,
                    problem_id,
                    problem_name: problem_name@,
                    files: files.deep_view(),
                },
            }),
    {
        let copied = copy_files(files);
        ProjectConfig {
            version: "0.0.1".to_owned(),
            problem: ProblemConfig {
                course_id,
                problem_id,
                problem_name: problem_name.to_owned(),
                files: copied,
            },
        }
    }

    /// The files as they are written when the settings are saved: each file
    /// once, at the place where it first occurs.
    pub fn saved_files(&self) -> (files: Vec<String>)
        ensures
            files.deep_view() == unique_files(self@.problem.files),
    {
        let ghost all = self.problem.files.deep_view();
        let mut files: Vec<String> = Vec::new();
        let mut i: usize = 0;
        assert(all.take(0) =~= Seq::empty());
        assert(files.deep_view() =~= Seq::empty());
        while i < self.problem.files.len()
            invariant
                i <= self.problem.files.len(),
                all == self.problem.files.deep_view(),
                files.deep_view() == unique_files(all.take(i as int)),
            decreases self.problem.files.len() - i,
        {
            assert(all.take(i + 1).drop_last() =~= all.take(i as int));
            assert(all.take(i + 1).last() == self.problem.files@[i as int]@);
            if !lists_file(&files, self.problem.files[i].as_str()) {
                let ghost before = files.deep_view();
                let file = self.problem.files[i].clone();
                files.push(file);
                assert(files.deep_view() =~= before.push(file@));
            }
            i += 1;
        }
        assert(all.take(i as int) =~= all);
        files
    }

    /// Lists `files` behind the files that the project lists already.
    pub fn add_files(&mut self, files: Vec<String>)
        ensures
            final(self)@.problem.files == old(self)@.problem.files + files.deep_view(),
            final(self)@.version == old(self)@.version,
            final(self)@.problem.course_id == old(self)@.problem.course_id,
            final(self)@.problem.problem_id == old(self)@.problem.problem_id,
            final(self)@.problem.problem_name == old(self)@.problem.problem_name,
    {
        let ghost before = self.problem.files.deep_view();
        let ghost added = files.deep_view();
        let mut i: usize = 0;
        assert(added.take(0) =~= Seq::empty());
        assert(before + added.take(0) =~= before);
        while i < files.len()
            invariant
                i <= files.len(),
                added == files.deep_view(),
                self.problem.files.deep_view() == before + added.take(i as int),
                self.version == old(self).version,
                self.problem.course_id == old(self).problem.course_id,
                self.problem.problem_id == old(self).problem.problem_id,
                self.problem.problem_name == old(self).problem.problem_name,
            decreases files.len() - i,
        {
            let ghost so_far = self.problem.files.deep_view();
            let file = files[i].clone();
            self.problem.files.push(file);
            assert(self.problem.files.deep_view() =~= so_far.push(file@));
            assert(added.take(i + 1) =~= added.take(i as int).push(added[i as int]));
            assert(so_far.push(file@) =~= before + added.take(i + 1));
            i += 1;
        }
        assert(added.take(i as int) =~= added);
    }

    /// Makes the menu from which files below a directory are added to the
    /// project. `found` holds the files that were found there. On offer are
    /// those that a project may list, each by a path from the directory
    /// `relative_to`, as far as it can be reached from there; which path that
    /// is, is not stated. Ticked are the files that the project lists
    /// already.
    pub fn add_files_from(&self, found: &Vec<ProjectFile>, relative_to: &str) -> (menu: FileMenu)
        ensures
            exists|paths: Seq<Option<Seq<char>>>|
                paths.len() == listable_files(found.deep_view()).len() && menu.files.deep_view()
                    == paths_in(#[trigger] moved_files(listable_files(found.deep_view()), paths)),
            menu.ticked@ == listed_indices(menu.files.deep_view(), self@.problem.files),
    {
        let ghost all = found.deep_view();
        let mut listable: Vec<ProjectFile> = Vec::new();
        let mut i: usize = 0;
        assert(all.take(0) =~= Seq::empty());
        assert(listable.deep_view() =~= Seq::empty());
        while i < found.len()
            invariant
                i <= found.len(),
                all == found.deep_view(),
                listable.deep_view() == listable_files(all.take(i as int)),
            decreases found.len() - i,
        {
            assert(all.take(i + 1).drop_last() =~= all.take(i as int));
            assert(all.take(i + 1).last() == found@[i as int]@);
            if ProjectConfig::may_list(found[i].name.as_str()) {
                let ghost before = listable.deep_view();
                let file = ProjectFile { path: found[i].path.clone(), name: found[i].name.clone() };
                listable.push(file);
                assert(listable.deep_view() =~= before.push(file@));
            }
            i += 1;
        }
        assert(all.take(i as int) =~= all);
        let moved = relative_files(&listable, relative_to);
        let mut files: Vec<String> = Vec::new();
        let mut k: usize = 0;
        while k < moved.len()
            invariant
                k <= moved.len(),
                files.len() == k,
                forall|j: int| 0 <= j < k ==> (#[trigger] files@[j])@ == moved@[j].path@,
            decreases moved.len() - k,
        {
            files.push(moved[k].path.clone());
            k += 1;
        }
        assert(files.deep_view() =~= paths_in(moved.deep_view()));
        let ticked = self.listed_among(&files);
        FileMenu { files, ticked }
    }

    /// Whether a file of the name `file_name` may be listed by a project:
    /// any file but the project's own settings.
    pub fn may_list(file_name: &str) -> (allowed: bool)
        ensures
            allowed == (file_name@ != project_config_name()),
    {
        !same_text(file_name, "list-submit.toml")
    }

    /// The indices of the `candidates` that the project lists already.
    pub fn listed_among(&self, candidates: &Vec<String>) -> (indices: Vec<usize>)
        ensures
            indices@ == listed_indices(candidates.deep_view(), self@.problem.files),
    {
        let ghost all = candidates.deep_view();
        let mut indices: Vec<usize> = Vec::new();
        let mut i: usize = 0;
        assert(all.take(0) =~= Seq::empty());
        while i < candidates.len()
            invariant
                i <= candidates.len(),
                all == candidates.deep_view(),
                indices@ == listed_indices(all.take(i as int), self@.problem.files),
            decreases candidates.len() - i,
        {
            assert(all.take(i + 1).drop_last() =~= all.take(i as int));
            assert(all.take(i + 1).last() == candidates@[i as int]@);
            if lists_file(&self.problem.files, candidates[i].as_str()) {
                indices.push(i);
            }
            i += 1;
        }
        assert(all.take(i as int) =~= all);
        indices
    }

    /// Applies the choice that was made in the menu of the project's files:
    /// keeps the files that occur in `picked` and drops the others.
    pub fn files_menu_interactive(&mut self, picked: &Vec<String>)
        ensures
            final(self)@.problem.files == picked_files(
                old(self)@.problem.files,
                picked.deep_view(),
            ),
            final(self)@.version == old(self)@.version,
            final(self)@.problem.course_id == old(self)@.problem.course_id,
            final(self)@.problem.problem_id == old(self)@.problem.problem_id,
            final(self)@.problem.problem_name == old(self)@.problem.problem_name,
    {
        let ghost all = self.problem.files.deep_view();
        let mut kept: Vec<String> = Vec::new();
        let mut i: usize = 0;
        assert(all.take(0) =~= Seq::empty());
        assert(kept.deep_view() =~= Seq::empty());
        while i < self.problem.files.len()
            invariant
                i <= self.problem.files.len(),
                all == self.problem.files.deep_view(),
                *self == *old(self),
                kept.deep_view() == picked_files(all.take(i as int), picked.deep_view()),
            decreases self.problem.files.len() - i,
        {
            assert(all.take(i + 1).drop_last() =~= all.take(i as int));
            assert(all.take(i + 1).last() == self.problem.files@[i as int]@);
            if lists_file(picked, self.problem.files[i].as_str()) {
                let ghost before = kept.deep_view();
                let file = self.problem.files[i].clone();
                kept.push(file);
                assert(kept.deep_view() =~= before.push(file@));
            }
            i += 1;
        }
        assert(all.take(i as int) =~= all);
        self.problem.files = kept;
    }

    /// Drops the files that are gone. `present` says for each file of the
    /// project, in order, whether it exists. Returns how many were dropped.
    pub fn clean_files(&mut self, present: &Vec<bool>) -> (dropped: usize)
        ensures
            final(self)@.problem.files == kept_files(old(self)@.problem.files, present@),
            dropped == old(self)@.problem.files.len() - final(self)@.problem.files.len(),
            final(self)@.version == old(self)@.version,
            final(self)@.problem.course_id == old(self)@.problem.course_id,
            final(self)@.problem.problem_id == old(self)@.problem.problem_id,
            final(self)@.problem.problem_name == old(self)@.problem.problem_name,
    {
        let ghost all = self.problem.files.deep_view();
        let mut kept: Vec<String> = Vec::new();
        let mut i: usize = 0;
        assert(all.take(0) =~= Seq::empty());
        assert(kept.deep_view() =~= Seq::empty());
        while i < self.problem.files.len()
            invariant
                i <= self.problem.files.len(),
                all == self.problem.files.deep_view(),
                *self == *old(self),
                kept.len() <= i,
                kept.deep_view() == kept_files(all.take(i as int), present@),
            decreases self.problem.files.len() - i,
        {
            assert(all.take(i + 1).drop_last() =~= all.take(i as int));
            assert(all.take(i + 1).last() == self.problem.files@[i as int]@);
            if i < present.len() && present[i] {
                let ghost before = kept.deep_view();
                let file = self.problem.files[i].clone();
                kept.push(file);
                assert(kept.deep_view() =~= before.push(file@));
            }
            i += 1;
        }
        assert(all.take(i as int) =~= all);
        let dropped = self.problem.files.len() - kept.len();
        self.problem.files = kept;
        dropped
    }
}

fn copy_files(files: &Vec<String>) -> (copied: Vec<String>)
    ensures
        copied.deep_view() == files.deep_view(),
{
    let mut copied: Vec<String> = Vec::new();
    let mut i: usize = 0;
    while i < files.len()
        invariant
            i <= files.len(),
            copied.len() == i,
            forall|j: int| 0 <= j < i ==> (#[trigger] copied@[j])@ == files@[j]@,
        decreases files.len() - i,
    {
        copied.push(files[i].clone());
        i += 1;
    }
    assert(copied.deep_view() =~= files.deep_view());
    copied
}

} // verus!
