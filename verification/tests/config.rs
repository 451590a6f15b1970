use std::collections::VecDeque;

use list_submit::args::{
    AccountKeeping, AccountSource, AddCommand, ListSubmitArgs, ListSubmitCommand,
};
use list_submit::config::{
    file_version, get_global_config_path, lists_file, AuthConfig, ConfigError, DirReport, FileMenu,
    GlobalConfig, Platform, ProblemConfig, ProjectConfig,
};
use list_submit::detectors::ProjectFile;

fn strings(list: &[&str]) -> Vec<String> {
    list.iter().map(|text| text.to_string()).collect()
}

fn project(files: &[&str]) -> ProjectConfig {
    ProjectConfig::create(12, 5365, "Domáca úloha 1", &strings(files))
}

#[test]
fn auth_config_is_empty_only_without_address_and_password() {
    let auth = |email: &str, password: &str| AuthConfig {
        email: email.to_owned(),
        password: password.to_owned(),
    };
    assert!(auth("", "").is_empty());
    assert!(!auth("a@b.sk", "").is_empty());
    assert!(!auth("", "x").is_empty());
    assert!(!auth("a@b.sk", "x").is_empty());
}

#[test]
fn default_global_config_has_the_current_version_and_no_account() {
    assert_eq!(GlobalConfig::default(), GlobalConfig { version: "0.0.1".to_owned(), auth: None });
}

#[test]
fn global_config_path_lies_below_the_home_directory() {
    assert_eq!(
        get_global_config_path("/home/jano", Platform::Unix),
        "/home/jano/.config/list-submit/config.toml"
    );
    assert_eq!(
        get_global_config_path("C:\\Users\\jano", Platform::Windows),
        "C:\\Users\\jano/AppData/Roaming/list-submit/config.toml"
    );
}

#[test]
fn global_config_load_accepts_only_the_current_version() {
    let stored = GlobalConfig {
        version: "0.0.1".to_owned(),
        auth: Some(AuthConfig { email: "a@b.sk".to_owned(), password: "x".to_owned() }),
    };
    assert_eq!(GlobalConfig::load(Some("0.0.1"), Some(stored.clone())), Some(stored.clone()));
    assert_eq!(GlobalConfig::load(Some("0.0.2"), Some(stored.clone())), None);
    assert_eq!(GlobalConfig::load(None, Some(stored.clone())), None);
    assert_eq!(GlobalConfig::load(Some("0.0.1"), None), None);
}

#[test]
fn global_config_load_drops_an_empty_account() {
    let blank = GlobalConfig {
        version: "0.0.1".to_owned(),
        auth: Some(AuthConfig { email: "".to_owned(), password: "".to_owned() }),
    };
    assert_eq!(
        GlobalConfig::load(Some("0.0.1"), Some(blank)),
        Some(GlobalConfig { version: "0.0.1".to_owned(), auth: None })
    );
    let half = GlobalConfig {
        version: "0.0.1".to_owned(),
        auth: Some(AuthConfig { email: "a@b.sk".to_owned(), password: "".to_owned() }),
    };
    assert_eq!(GlobalConfig::load(Some("0.0.1"), Some(half.clone())), Some(half));
}

#[test]
fn project_config_load_rejects_another_version() {
    let config = project(&["a.py"]);
    assert_eq!(ProjectConfig::load(Some("0.0.1"), config.clone()), Ok(config.clone()));
    assert_eq!(
        ProjectConfig::load(Some("1.0.0"), config.clone()),
        Err(ConfigError::VersionMismatch(Some("1.0.0".to_owned())))
    );
    assert_eq!(ProjectConfig::load(None, config), Err(ConfigError::VersionMismatch(None)));
}

#[test]
fn project_config_create_copies_its_arguments() {
    assert_eq!(
        project(&["a.py", "b.py"]),
        ProjectConfig {
            version: "0.0.1".to_owned(),
            problem: ProblemConfig {
                course_id: 12,
                problem_id: 5365,
                problem_name: "Domáca úloha 1".to_owned(),
                files: strings(&["a.py", "b.py"]),
            },
        }
    );
}

#[test]
fn find_project_config_up_returns_the_nearest_place_that_has_the_file() {
    let places = strings(&["/a/b/c/list-submit.toml", "/a/b/list-submit.toml", "/a/list-submit.toml"]);
    assert_eq!(
        ProjectConfig::find_project_config_up(&places, &vec![false, true, true]),
        Some("/a/b/list-submit.toml".to_owned())
    );
    assert_eq!(ProjectConfig::find_project_config_up(&places, &vec![false, false, false]), None);
    assert_eq!(
        ProjectConfig::find_project_config_up(&places, &vec![true]),
        Some("/a/b/c/list-submit.toml".to_owned())
    );
    assert_eq!(ProjectConfig::find_project_config_up(&places, &vec![false]), None);
    assert_eq!(ProjectConfig::find_project_config_up(&places, &vec![]), None);
    assert_eq!(ProjectConfig::find_project_config_up(&vec![], &vec![true]), None);
}

#[test]
fn find_project_config_down_walks_breadth_first() {
    let report = |name: &str, has_config: bool, subdirs: &[&str]| DirReport {
        name: Some(name.to_owned()),
        config_path: format!("{name}/list-submit.toml"),
        has_config,
        subdirs: strings(subdirs),
    };
    let mut queue: VecDeque<String> = VecDeque::from(strings(&["root"]));
    assert_eq!(
        ProjectConfig::find_project_config_down(&mut queue, "du1", report("root", true, &["x", "y"])),
        None
    );
    assert_eq!(queue, VecDeque::from(strings(&["x", "y"])));
    assert_eq!(
        ProjectConfig::find_project_config_down(&mut queue, "du1", report("x", false, &["x/du1"])),
        None
    );
    assert_eq!(queue, VecDeque::from(strings(&["y", "x/du1"])));
    assert_eq!(
        ProjectConfig::find_project_config_down(&mut queue, "du1", report("du1", false, &[])),
        None
    );
    assert_eq!(queue, VecDeque::from(strings(&["x/du1"])));
    assert_eq!(
        ProjectConfig::find_project_config_down(&mut queue, "du1", report("du1", true, &["z"])),
        Some("du1/list-submit.toml".to_owned())
    );
    assert_eq!(queue, VecDeque::from(strings(&["x/du1"])));
    let nameless =
        DirReport { name: None, config_path: "/l".to_owned(), has_config: true, subdirs: vec![] };
    assert_eq!(ProjectConfig::find_project_config_down(&mut queue, "du1", nameless.clone()), None);
    assert!(queue.is_empty());
    assert_eq!(ProjectConfig::find_project_config_down(&mut queue, "du1", nameless), None);
    assert!(queue.is_empty());
}

#[test]
fn add_files_appends_in_order() {
    let mut config = project(&["a.py"]);
    config.add_files(strings(&["b.py", "a.py"]));
    assert_eq!(config.problem.files, strings(&["a.py", "b.py", "a.py"]));
    config.add_files(vec![]);
    assert_eq!(config.problem.files, strings(&["a.py", "b.py", "a.py"]));
    assert_eq!(config.problem.problem_id, 5365);
}

#[test]
fn saved_files_lists_each_file_once_at_its_first_place() {
    assert_eq!(
        project(&["b.py", "a.py", "b.py", "c.py", "a.py"]).saved_files(),
        strings(&["b.py", "a.py", "c.py"])
    );
    assert_eq!(project(&[]).saved_files(), strings(&[]));
}

#[test]
fn clean_files_drops_what_is_gone_and_counts_it() {
    let mut config = project(&["a.py", "b.py", "c.py", "d.py"]);
    assert_eq!(config.clean_files(&vec![true, false, true, false]), 2);
    assert_eq!(config.problem.files, strings(&["a.py", "c.py"]));
    assert_eq!(config.clean_files(&vec![true, true]), 0);
    assert_eq!(config.problem.files, strings(&["a.py", "c.py"]));
    assert_eq!(config.clean_files(&vec![true]), 1);
    assert_eq!(config.problem.files, strings(&["a.py"]));
}

#[test]
fn files_menu_interactive_retains_what_was_picked() {
    let mut config = project(&["a.py", "b.py", "a.py", "c.py"]);
    config.files_menu_interactive(&strings(&["c.py", "a.py", "z.py"]));
    assert_eq!(config.problem.files, strings(&["a.py", "a.py", "c.py"]));
    config.files_menu_interactive(&vec![]);
    assert_eq!(config.problem.files, strings(&[]));
}

#[test]
fn listed_among_marks_the_candidates_that_are_listed() {
    let config = project(&["src/a.py", "b.py"]);
    assert_eq!(
        config.listed_among(&strings(&["b.py", "c.py", "src/a.py", "b.py"])),
        vec![0, 2, 3]
    );
    assert_eq!(config.listed_among(&vec![]), Vec::<usize>::new());
    assert!(lists_file(&config.problem.files, "b.py"));
    assert!(!lists_file(&config.problem.files, "a.py"));
}

#[test]
fn a_project_may_list_any_file_but_its_own_settings() {
    assert!(ProjectConfig::may_list("riesenie.py"));
    assert!(!ProjectConfig::may_list("list-submit.toml"));
    assert!(ProjectConfig::may_list("list-submit.toml.bak"));
}

#[test]
fn args_tell_update_and_auth_apart() {
    let args = |subcommand| ListSubmitArgs { project: None, subcommand };
    assert!(args(Some(ListSubmitCommand::Update)).wants_update());
    assert!(!args(Some(ListSubmitCommand::Auth)).wants_update());
    assert!(!args(None).wants_update());
    assert!(args(Some(ListSubmitCommand::Auth)).asks_for_account());
    assert!(!args(Some(ListSubmitCommand::Add(AddCommand { files: vec![] }))).asks_for_account());
    assert!(!args(None).asks_for_account());
}

#[test]
fn file_version_reads_the_text_at_the_version_key() {
    assert_eq!(file_version("version = \"0.0.1\"\n"), Some("0.0.1".to_owned()));
    assert_eq!(
        file_version("# settings\nversion = '2'\n[auth]\nversion = \"x\"\n"),
        Some("2".to_owned())
    );
    assert_eq!(file_version("version = 1\n"), None);
    assert_eq!(file_version("[problem]\nversion = \"0.0.1\"\n"), None);
    assert_eq!(file_version(""), None);
    assert_eq!(file_version("version = "), None);
}

#[test]
fn save_rewrites_the_settings_and_keeps_the_rest_of_the_file() {
    let config = project(&["b.py", "a.py", "b.py"]);
    let content = "# project settings\nversion = \"0.0.0\"\n\n[problem]\n# which problem\ncourse_id = 1\nproblem_id = 2\nproblem_name = \"x\"\nfiles = [\"old.py\"]\n\n[other]\nkept = true\n";
    let saved = config.save(content).unwrap();
    assert_eq!(
        saved,
        "# project settings\nversion = \"0.0.1\"\n\n[problem]\n# which problem\ncourse_id = 12\nproblem_id = 5365\nproblem_name = \"Domáca úloha 1\"\nfiles = [\"b.py\", \"a.py\"]\n\n[other]\nkept = true\n"
    );
    assert_eq!(file_version(&saved), Some("0.0.1".to_owned()));
    assert_eq!(config.save(&saved), Some(saved));
}

#[test]
fn save_fills_a_problem_table_that_holds_only_the_list_of_files() {
    let saved = project(&[]).save("version = \"0.0.1\"\n[problem]\nfiles = []\n").unwrap();
    assert!(saved.contains("course_id = 12"));
    assert!(saved.contains("problem_id = 5365"));
    assert!(saved.contains("problem_name = \"Domáca úloha 1\""));
    assert!(saved.contains("files = []"));
}

#[test]
fn save_fails_where_the_list_of_files_is_missing() {
    let config = project(&["a.py"]);
    assert_eq!(config.save("version = \"0.0.1\"\n"), None);
    assert_eq!(config.save("version = \"0.0.1\"\n[problem]\ncourse_id = 1\n"), None);
}

#[test]
fn save_fails_on_a_file_of_another_shape() {
    let config = project(&["a.py"]);
    assert_eq!(config.save("version = "), None);
    assert_eq!(config.save("problem = 5\n"), None);
    assert_eq!(config.save("[problem]\nfiles = \"a.py\"\n"), None);
    assert_eq!(config.save(""), None);
}

#[test]
fn add_files_from_offers_listable_files_and_ticks_the_listed() {
    let file = |path: &str, name: &str| ProjectFile { path: path.to_owned(), name: name.to_owned() };
    let found = vec![
        file("/p/du1/a.py", "a.py"),
        file("/p/du1/list-submit.toml", "list-submit.toml"),
        file("/p/du1/src/b.py", "b.py"),
        file("/p/du1/notes.txt", "notes.txt"),
    ];
    let config = project(&["src/b.py", "gone.py"]);
    assert_eq!(
        config.add_files_from(&found, "/p/du1"),
        FileMenu { files: strings(&["a.py", "src/b.py", "notes.txt"]), ticked: vec![1] }
    );
    assert_eq!(
        config.add_files_from(&vec![], "/p/du1"),
        FileMenu { files: vec![], ticked: vec![] }
    );
}

#[test]
fn the_account_is_asked_for_when_needed() {
    let args = |subcommand| ListSubmitArgs { project: None, subcommand };
    let plain = args(Some(ListSubmitCommand::Submit));
    let auth = args(Some(ListSubmitCommand::Auth));
    assert_eq!(plain.account_source(true, false), AccountSource::Stored);
    assert_eq!(plain.account_source(false, false), AccountSource::Asked);
    assert_eq!(plain.account_source(true, true), AccountSource::Asked);
    assert_eq!(auth.account_source(true, false), AccountSource::Asked);
    assert_eq!(args(None).account_source(true, false), AccountSource::Stored);
    assert_eq!(auth.account_keeping(true), AccountKeeping::Store);
    assert_eq!(auth.account_keeping(false), AccountKeeping::Store);
    assert_eq!(plain.account_keeping(false), AccountKeeping::Offer);
    assert_eq!(plain.account_keeping(true), AccountKeeping::Leave);
}
