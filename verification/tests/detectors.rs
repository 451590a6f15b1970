use list_submit::detectors::{
    extension, files_with_paths, has_kind, has_list_header_comment, is_program_file, most_likely, relative_files, select_paths, DetectionResult,
    JavaDetector, Kind, ProjectFile, PythonDetector,
};

fn files(paths: &[&str]) -> Vec<ProjectFile> {
    paths
        .iter()
        .map(|path| ProjectFile {
            path: path.to_string(),
            name: path.rsplit('/').next().unwrap().to_string(),
        })
        .collect()
}

fn strings(list: &[&str]) -> Vec<String> {
    list.iter().map(|text| text.to_string()).collect()
}

fn plain(probability: u32, files: &[&str]) -> DetectionResult {
    DetectionResult { probability, files: strings(files), recommendations: vec![] }
}

#[test]
fn extension_follows_the_last_dot() {
    assert_eq!(extension("a.py"), Some("py"));
    assert_eq!(extension("a.tar.gz"), Some("gz"));
    assert_eq!(extension("Makefile"), None);
    assert_eq!(extension(".gitignore"), None);
    assert_eq!(extension(".config.toml"), Some("toml"));
    assert_eq!(extension("a."), Some(""));
    assert_eq!(extension(""), None);
    assert_eq!(extension("..a"), Some("a"));
    assert_eq!(extension(".."), None);
    assert_eq!(extension("."), None);
}

#[test]
fn extension_agrees_with_std_paths() {
    for name in ["a.py", "a.tar.gz", "Makefile", ".gitignore", ".a.b", "a.", "x.J", "..a", "..", "...", "."] {
        let expected = std::path::Path::new(name).extension().map(|e| e.to_str().unwrap());
        assert_eq!(extension(name), expected, "{name}");
    }
}

#[test]
fn is_program_file_goes_by_the_extension() {
    for name in ["a.py", "B.java", "c.cpp", "d.c", "e.h", "f.hpp", "g.cc", "h.kt", "i.hs"] {
        assert!(is_program_file(name), "{name}");
    }
    for name in ["a.txt", "a.PY", "py", ".py", "a.pyc", "a.py.bak", "a.", "list-submit.toml"] {
        assert!(!is_program_file(name), "{name}");
    }
}

#[test]
fn kinds_of_files() {
    assert!(has_kind("Main.java", Kind::JavaSource));
    assert!(!has_kind("MainTest.java", Kind::JavaSource));
    assert!(!has_kind("TestMain.java", Kind::JavaSource));
    assert!(has_kind("MainTest.java", Kind::Java));
    assert!(has_kind("MyTests.java", Kind::JavaSource));
    assert!(!has_kind("Main.py", Kind::Java));
    assert!(has_kind("Main.py", Kind::Python));
    assert!(has_kind("Main.py", Kind::Program));
    assert!(!has_kind("Main.md", Kind::Program));
    let all = files(&["a.py", "x/B.java", "notes.txt", "x/c.py"]);
    assert_eq!(select_paths(&all, Kind::Python), strings(&["a.py", "x/c.py"]));
    assert_eq!(select_paths(&all, Kind::Program), strings(&["a.py", "x/B.java", "x/c.py"]));
}

#[test]
fn header_comment_needs_three_lines_of_the_right_shape() {
    assert!(has_list_header_comment("# 1. zadanie\n# autor: Jano\n# datum: 1.1.2024\nprint(1)\n"));
    assert!(has_list_header_comment("#\r\n# autor\r\n# datum"));
    assert!(!has_list_header_comment("# a\n# autor: Jano\n"));
    assert!(!has_list_header_comment("# a\n# datum: x\n# autor: Jano\n"));
    assert!(!has_list_header_comment("print(1)\n# autor: Jano\n# datum: x\n"));
    assert!(!has_list_header_comment("# a\n#autor: Jano\n# datum: x\n"));
    assert!(!has_list_header_comment(""));
    assert!(!has_list_header_comment("# a\n\n# autor: Jano\n# datum: x\n"));
}

#[test]
fn header_comment_agrees_with_line_splitting() {
    let by_lines = |content: &str| {
        let lines: Vec<&str> = content.lines().take(3).collect();
        lines.len() == 3
            && lines[0].starts_with("#")
            && lines[1].starts_with("# autor")
            && lines[2].starts_with("# datum")
    };
    for content in [
        "# x\n# autor y\n# datum z",
        "# x\n# autor y\n# datum z\n",
        "# x\r\n# autor y\r\n# datum z\r\n",
        "# x\n# autor y\n",
        "# x\n# autor y",
        "#\n# autor\n\n# datum",
        "",
        "\n\n\n",
        "a",
    ] {
        assert_eq!(has_list_header_comment(content), by_lines(content), "{content:?}");
    }
}

#[test]
fn python_detector_prefers_the_solution_file() {
    let detector = PythonDetector;
    assert_eq!(detector.name(), "Python");
    let found = files(&["a.py", "riesenie.py", "B.java", "src/riesenie.py"]);
    assert_eq!(detector.main_file(&found), Some("riesenie.py"));
    assert_eq!(detector.detect(&found, true), plain(900, &["riesenie.py"]));
    assert_eq!(
        detector.detect(&found, false),
        DetectionResult {
            probability: 800,
            files: strings(&["riesenie.py"]),
            recommendations: strings(&["File `riesenie.py` is missing a header comment."]),
        }
    );
    let nested = files(&["src/riesenie.py", "src/util.py"]);
    assert_eq!(detector.main_file(&nested), Some("src/riesenie.py"));
    assert_eq!(detector.detect(&nested, true), plain(900, &["src/riesenie.py"]));
    assert_eq!(
        detector.detect(&nested, false),
        DetectionResult {
            probability: 800,
            files: strings(&["src/riesenie.py"]),
            recommendations: strings(&["File `src/riesenie.py` is missing a header comment."]),
        }
    );
}

#[test]
fn python_detector_goes_by_the_share_of_python_files() {
    let detector = PythonDetector;
    assert_eq!(detector.main_file(&files(&["a.py"])), None);
    assert_eq!(detector.detect(&files(&["a.py", "b.py", "notes.txt"]), false), plain(800, &["a.py", "b.py"]));
    assert_eq!(
        detector.detect(&files(&["a.py", "b.py", "C.java"]), false),
        plain(500, &["a.py", "b.py"])
    );
    assert_eq!(detector.detect(&files(&["a.py", "C.java"]), false), plain(300, &["a.py"]));
    assert_eq!(
        detector.detect(&files(&["a.py", "C.java", "d.c", "e.h"]), true),
        plain(300, &["a.py"])
    );
    assert_eq!(detector.detect(&files(&["C.java", "d.c"]), false), plain(0, &[]));
    assert_eq!(detector.detect(&files(&["notes.txt"]), false), plain(800, &[]));
    assert_eq!(detector.detect(&files(&[]), false), plain(800, &[]));
}

#[test]
fn java_detector_leaves_out_the_tests() {
    let detector = JavaDetector;
    assert_eq!(detector.name(), "Java");
    assert_eq!(
        detector.detect(&files(&["src/Main.java", "src/MainTest.java", "src/TestUtil.java", "README.md"])),
        plain(800, &["src/Main.java"])
    );
    assert_eq!(
        detector.detect(&files(&["A.java", "B.java", "c.py"])),
        plain(500, &["A.java", "B.java"])
    );
    assert_eq!(detector.detect(&files(&["A.java", "c.py"])), plain(0, &[]));
    assert_eq!(detector.detect(&files(&["c.py"])), plain(0, &[]));
    assert_eq!(detector.detect(&files(&[])), plain(0, &[]));
    assert_eq!(detector.detect(&files(&["ATest.java"])), plain(800, &[]));
}

#[test]
fn files_with_paths_renames_and_leaves_out() {
    let found = files(&["/p/a.py", "/p/src/b.py", "/q/c.py"]);
    let paths = vec![Some("a.py".to_owned()), None, Some("../q/c.py".to_owned())];
    assert_eq!(
        files_with_paths(&found, &paths),
        vec![
            ProjectFile { path: "a.py".to_owned(), name: "a.py".to_owned() },
            ProjectFile { path: "../q/c.py".to_owned(), name: "c.py".to_owned() },
        ]
    );
    assert_eq!(files_with_paths(&found, &vec![]), vec![]);
    assert_eq!(
        files_with_paths(&found, &vec![Some("x".to_owned())]),
        vec![ProjectFile { path: "x".to_owned(), name: "a.py".to_owned() }]
    );
}

#[test]
fn relative_files_rewrites_paths_from_the_base() {
    let found = files(&["/p/a.py", "/p/src/b.py", "rel/c.py"]);
    let moved = relative_files(&found, "/p");
    let expected: Vec<ProjectFile> = found
        .iter()
        .filter_map(|file| {
            pathdiff::diff_paths(&file.path, "/p").map(|path| ProjectFile {
                path: path.to_string_lossy().into_owned(),
                name: file.name.clone(),
            })
        })
        .collect();
    assert_eq!(moved, expected);
    assert_eq!(moved.len(), 2);
    assert_eq!(moved[0].name, "a.py");
    assert_ne!(moved[1].path, found[1].path);
}

#[test]
fn most_likely_takes_the_last_of_the_greatest() {
    assert_eq!(most_likely(&vec![]), None);
    assert_eq!(most_likely(&vec![0, 0]), None);
    assert_eq!(most_likely(&vec![0, 300, 0]), Some(1));
    assert_eq!(most_likely(&vec![800, 500]), Some(0));
    assert_eq!(most_likely(&vec![800, 900]), Some(1));
    assert_eq!(most_likely(&vec![800, 800, 100]), Some(1));
}
