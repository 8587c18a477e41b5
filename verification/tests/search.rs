use dotnet_lens::parser::parse;
use dotnet_lens::search::{
    decide_entry, has_project_extension, is_blocked_directory, EntryDecision, ProjectSearch,
    SearchAction, SearchEvent, BLOCKED_DIRS,
};
use dotnet_lens::{ProjectLanguage, ProjectReference};

/// A file with its content, a directory with what it lists, or a directory
/// that cannot be read.
enum Node {
    File(&'static str, &'static str),
    Dir(&'static str, Vec<Node>),
    Locked(&'static str),
}

fn file(name: &'static str) -> Node {
    Node::File(name, "")
}

fn dir(name: &'static str, entries: Vec<Node>) -> Node {
    Node::Dir(name, entries)
}

/// Searches a tree held in memory the way a caller searches a file system.
/// Returns what was found and the directories that were entered, or the
/// directory that could not be read.
fn try_search(root: &str, entries: &[Node]) -> Result<(Vec<String>, Vec<String>), String> {
    let mut open = vec![(root.to_string(), entries.iter())];
    let mut entered = Vec::new();
    let mut failure: Option<String> = None;
    let mut search = ProjectSearch::new(root.to_string());

    loop {
        let mut listed: Option<&[Node]> = None;
        let event = match (&failure, open.last_mut()) {
            (Some(_), _) => SearchEvent::Failed,
            (None, None) => panic!("no directory is open"),
            (None, Some((parent, rest))) => match rest.next() {
                Some(Node::File(name, _)) => SearchEvent::Entry {
                    path: format!("{}/{}", parent, name),
                    is_dir: false,
                },
                Some(Node::Dir(name, entries)) => {
                    listed = Some(entries);
                    SearchEvent::Entry {
                        path: format!("{}/{}", parent, name),
                        is_dir: true,
                    }
                }
                Some(Node::Locked(name)) => SearchEvent::Entry {
                    path: format!("{}/{}", parent, name),
                    is_dir: true,
                },
                None => SearchEvent::End,
            },
        };

        match search.step(event) {
            SearchAction::Next => {}
            SearchAction::Enter(path) => match listed {
                Some(entries) => {
                    entered.push(path.clone());
                    open.push((path, entries.iter()));
                }
                None => failure = Some(path),
            },
            SearchAction::Leave => {
                open.pop();
            }
            SearchAction::Finish => {
                open.pop();
                assert!(open.is_empty());
                assert!(search.is_finished());
                return Ok((search.into_found(), entered));
            }
            SearchAction::Abort => {
                assert!(search.is_finished());
                assert!(search.found().is_empty());
                return Err(failure.unwrap());
            }
        }
    }
}

fn search(root: &str, entries: &[Node]) -> (Vec<String>, Vec<String>) {
    try_search(root, entries).unwrap()
}

fn content_of<'a>(entries: &'a [Node], path: &str) -> &'a str {
    let (first, rest) = match path.split_once('/') {
        Some((first, rest)) => (first, Some(rest)),
        None => (path, None),
    };
    for node in entries {
        match (node, rest) {
            (Node::File(name, content), None) if *name == first => return content,
            (Node::Dir(name, entries), Some(rest)) if *name == first => {
                return content_of(entries, rest);
            }
            _ => {}
        }
    }
    panic!("no file at {:?}", path)
}

#[test]
fn test_search_csproj_files_and_ignore() {
    // given
    let tree = vec![
        dir("src", vec![file("project2.csproj"), file("project3.fsproj")]),
        dir("bin", vec![file("ignored_project.csproj")]),
        dir("obj", vec![file("ignored_project.csproj")]),
        file("project1.csproj"),
    ];

    // when
    let (files, _) = search("/tmp/dir", &tree);

    // then
    let mut paths: Vec<String> = vec![
        "/tmp/dir/project1.csproj".to_string(),
        "/tmp/dir/src/project2.csproj".to_string(),
        "/tmp/dir/src/project3.fsproj".to_string(),
    ];
    paths.sort();
    let mut result_files = files;
    result_files.sort();
    assert_eq!(result_files, paths);
}

#[test]
fn test_no_csproj_files() {
    // given
    let tree = vec![
        dir("src", vec![file("project.txt")]),
        dir("bin", vec![]),
        dir("obj", vec![]),
    ];

    // when
    let (projects, _) = search("/tmp/dir", &tree);

    // then
    assert!(projects.is_empty());
}

#[test]
fn search_and_parse_files() {
    let tree = vec![
        dir(
            "CsharpConsole",
            vec![
                file("Program.cs"),
                Node::File(
                    "CsharpConsole.csproj",
                    r#"<Project Sdk="Microsoft.NET.Sdk">

  <ItemGroup>
    <ProjectReference Include="..\CsharpClassLib\CsharpClassLib.csproj" />
  </ItemGroup>

  <PropertyGroup>
    <OutputType>Exe</OutputType>
    <TargetFramework>net8.0</TargetFramework>
    <ImplicitUsings>enable</ImplicitUsings>
    <Nullable>enable</Nullable>
  </PropertyGroup>

</Project>
"#,
                ),
                dir("obj", vec![file("CsharpConsole.csproj.nuget.g.props")]),
            ],
        ),
        dir("VbConsole", vec![file("VbConsole.vbproj"), file("Program.vb")]),
        dir("FsharpConsole", vec![file("FsharpConsole.fsproj")]),
        dir(
            "CsharpClassLib",
            vec![file("Class1.cs"), file("CsharpClassLib.csproj")],
        ),
    ];
    let path = "tests/search_and_parse_data";

    let (projects_paths, _) = search(path, &tree);
    let expected_paths = vec![
        format!("{}/{}", path, "CsharpConsole/CsharpConsole.csproj"),
        format!("{}/{}", path, "VbConsole/VbConsole.vbproj"),
        format!("{}/{}", path, "FsharpConsole/FsharpConsole.fsproj"),
        format!("{}/{}", path, "CsharpClassLib/CsharpClassLib.csproj"),
    ];

    assert_eq!(projects_paths, expected_paths);

    let content = content_of(&tree, "CsharpConsole/CsharpConsole.csproj");
    let csharp_console = parse(content.as_bytes(), &projects_paths[0], false).unwrap();

    assert_eq!(csharp_console.name(), &"CsharpConsole".to_string());
    assert_eq!(csharp_console.language(), ProjectLanguage::CSharp);
    assert_eq!(csharp_console.path(), &expected_paths[0]);
    assert_eq!(
        csharp_console.target_framework(),
        Some("net8.0".to_string()).as_ref()
    );
    assert_eq!(
        csharp_console.project_references(),
        &vec![ProjectReference::new(
            "CsharpClassLib".into(),
            "../CsharpClassLib/CsharpClassLib.csproj".into()
        )]
    );
    assert_eq!(csharp_console.package_references(), &vec![]);
}

#[test]
fn blocked_directories_are_never_entered() {
    let tree = vec![
        dir(
            "a",
            vec![
                dir("bin", vec![dir("deep", vec![file("x.csproj")])]),
                dir(".git", vec![file("y.fsproj")]),
                dir("b", vec![dir("obj", vec![file("z.vbproj")]), file("kept.vbproj")]),
            ],
        ),
        dir("bin", vec![file("w.csproj")]),
        dir("binary", vec![file("v.csproj")]),
        dir("Obj", vec![file("u.csproj")]),
    ];

    let (found, entered) = search("root", &tree);

    assert_eq!(
        found,
        vec!["root/a/b/kept.vbproj", "root/binary/v.csproj", "root/Obj/u.csproj"]
    );
    assert_eq!(entered, vec!["root/a", "root/a/b", "root/binary", "root/Obj"]);
}

#[test]
fn files_beneath_a_directory_come_at_its_place() {
    let tree = vec![
        file("1.csproj"),
        dir(
            "d",
            vec![
                file("2.csproj"),
                dir("e", vec![file("3.csproj")]),
                file("4.csproj"),
            ],
        ),
        file("5.csproj"),
        dir("empty", vec![]),
        file("6.csproj"),
    ];

    let (found, _) = search(".", &tree);

    assert_eq!(
        found,
        vec![
            "./1.csproj",
            "./d/2.csproj",
            "./d/e/3.csproj",
            "./d/4.csproj",
            "./5.csproj",
            "./6.csproj",
        ]
    );
}

#[test]
fn an_empty_root_gives_nothing() {
    let (found, entered) = search("root", &[]);

    assert!(found.is_empty());
    assert!(entered.is_empty());
}

#[test]
fn a_directory_with_a_project_extension_is_entered_not_collected() {
    let tree = vec![dir("odd.csproj", vec![file("inner.fsproj"), file("notes.txt")])];

    let (found, entered) = search("root", &tree);

    assert_eq!(found, vec!["root/odd.csproj/inner.fsproj"]);
    assert_eq!(entered, vec!["root/odd.csproj"]);
}

#[test]
fn decide_entry_enters_directories_that_are_not_blocked() {
    assert_eq!(decide_entry("root/src", true), EntryDecision::Descend);
    assert_eq!(decide_entry("root/src/", true), EntryDecision::Descend);
    assert_eq!(decide_entry("root/a.csproj", true), EntryDecision::Descend);
    assert_eq!(decide_entry("root/bin2", true), EntryDecision::Descend);
    assert_eq!(decide_entry("root/.github", true), EntryDecision::Descend);
    assert_eq!(decide_entry("bin/src", true), EntryDecision::Descend);
    assert_eq!(decide_entry("", true), EntryDecision::Descend);
}

#[test]
fn decide_entry_skips_blocked_directories() {
    assert_eq!(decide_entry("root/bin", true), EntryDecision::Skip);
    assert_eq!(decide_entry("root/.git", true), EntryDecision::Skip);
    assert_eq!(decide_entry("root/obj", true), EntryDecision::Skip);
    assert_eq!(decide_entry("obj", true), EntryDecision::Skip);
    assert_eq!(decide_entry("root/obj/", true), EntryDecision::Skip);
    assert_eq!(decide_entry("root/bin/.", true), EntryDecision::Skip);
}

#[test]
fn decide_entry_collects_project_files() {
    assert_eq!(decide_entry("root/a.csproj", false), EntryDecision::Collect);
    assert_eq!(decide_entry("root/a.fsproj", false), EntryDecision::Collect);
    assert_eq!(decide_entry("root/a.vbproj", false), EntryDecision::Collect);
    assert_eq!(decide_entry("root/bin/a.csproj", false), EntryDecision::Collect);
    assert_eq!(decide_entry("bin.csproj", false), EntryDecision::Collect);
}

#[test]
fn decide_entry_skips_other_files() {
    assert_eq!(decide_entry("root/a.txt", false), EntryDecision::Skip);
    assert_eq!(decide_entry("root/csproj", false), EntryDecision::Skip);
    assert_eq!(decide_entry("root/.csproj", false), EntryDecision::Skip);
    assert_eq!(decide_entry("root/a.csproj.user", false), EntryDecision::Skip);
    assert_eq!(decide_entry("root/bin", false), EntryDecision::Skip);
    assert_eq!(decide_entry("root/src", false), EntryDecision::Skip);
    assert_eq!(decide_entry("", false), EntryDecision::Skip);
}

#[test]
fn blocked_names_are_bin_git_and_obj() {
    assert_eq!(BLOCKED_DIRS, ["bin", ".git", "obj"]);
    for name in BLOCKED_DIRS {
        assert!(is_blocked_directory(name));
        assert!(is_blocked_directory(&format!("some/where/{}", name)));
        assert!(!is_blocked_directory(&format!("{}/inside", name)));
        assert!(!is_blocked_directory(&format!("{}x", name)));
    }
    assert!(!is_blocked_directory("git"));
    assert!(!is_blocked_directory("BIN"));
    assert!(!is_blocked_directory(""));
    assert!(!is_blocked_directory("bin/.."));
}

#[test]
fn has_project_extension_looks_at_the_extension_only() {
    assert!(has_project_extension("a.csproj"));
    assert!(has_project_extension("x/y/.z.fsproj"));
    assert!(has_project_extension("a.b.vbproj"));
    assert!(has_project_extension("a.csproj/"));
    assert!(!has_project_extension("a.csproj/b"));
    assert!(!has_project_extension(".csproj"));
    assert!(!has_project_extension("a.Csproj"));
    assert!(!has_project_extension("a.proj"));
    assert!(!has_project_extension(""));
}

#[test]
fn step_answers_each_event() {
    let mut search = ProjectSearch::new("r".to_string());
    assert!(!search.is_finished());
    assert!(search.found().is_empty());

    let entry = |path: &str, is_dir: bool| SearchEvent::Entry {
        path: path.to_string(),
        is_dir,
    };

    assert_eq!(search.step(entry("r/a.txt", false)), SearchAction::Next);
    assert_eq!(search.step(entry("r/a.csproj", false)), SearchAction::Next);
    assert_eq!(search.found(), &vec!["r/a.csproj".to_string()]);
    assert_eq!(search.step(entry("r/obj", true)), SearchAction::Next);
    assert_eq!(
        search.step(entry("r/d", true)),
        SearchAction::Enter("r/d".to_string())
    );
    assert_eq!(search.step(entry("r/d/b.fsproj", false)), SearchAction::Next);
    assert_eq!(search.step(SearchEvent::End), SearchAction::Leave);
    assert!(!search.is_finished());
    assert_eq!(search.step(entry("r/c.vbproj", false)), SearchAction::Next);
    assert_eq!(search.step(SearchEvent::End), SearchAction::Finish);
    assert!(search.is_finished());
    assert_eq!(
        search.found(),
        &vec![
            "r/a.csproj".to_string(),
            "r/d/b.fsproj".to_string(),
            "r/c.vbproj".to_string()
        ]
    );
}

#[test]
fn a_finished_search_stays_as_it_is() {
    let mut search = ProjectSearch::new("r".to_string());
    assert_eq!(
        search.step(SearchEvent::Entry {
            path: "r/a.csproj".to_string(),
            is_dir: false
        }),
        SearchAction::Next
    );
    assert_eq!(search.step(SearchEvent::End), SearchAction::Finish);
    let finished = search.clone();

    assert_eq!(
        search.step(SearchEvent::Entry {
            path: "r/b.csproj".to_string(),
            is_dir: false
        }),
        SearchAction::Finish
    );
    assert_eq!(
        search.step(SearchEvent::Entry {
            path: "r/d".to_string(),
            is_dir: true
        }),
        SearchAction::Finish
    );
    assert_eq!(search.step(SearchEvent::End), SearchAction::Finish);

    assert_eq!(search, finished);
    assert_eq!(search.into_found(), vec!["r/a.csproj".to_string()]);
}

#[test]
fn a_directory_that_cannot_be_read_fails_the_search() {
    let tree = vec![
        file("found.csproj"),
        dir("a", vec![file("b.csproj"), Node::Locked("secret")]),
        file("never.csproj"),
    ];

    assert_eq!(try_search("root", &tree), Err("root/a/secret".to_string()));
}

#[test]
fn a_blocked_directory_that_cannot_be_read_does_no_harm() {
    let tree = vec![
        Node::Locked("obj"),
        Node::Locked(".git"),
        dir("a", vec![Node::Locked("bin"), file("b.csproj")]),
    ];

    let (found, entered) = search("root", &tree);

    assert_eq!(found, vec!["root/a/b.csproj"]);
    assert_eq!(entered, vec!["root/a"]);
}

#[test]
fn a_failure_leaves_nothing_found() {
    let mut search = ProjectSearch::new("r".to_string());
    let entry = |path: &str, is_dir: bool| SearchEvent::Entry {
        path: path.to_string(),
        is_dir,
    };
    assert_eq!(search.step(entry("r/a.csproj", false)), SearchAction::Next);
    assert_eq!(
        search.step(entry("r/d", true)),
        SearchAction::Enter("r/d".to_string())
    );
    assert_eq!(search.step(entry("r/d/b.csproj", false)), SearchAction::Next);
    assert_eq!(search.found().len(), 2);

    assert_eq!(search.step(SearchEvent::Failed), SearchAction::Abort);

    assert!(search.is_finished());
    assert!(search.found().is_empty());
    assert_eq!(search.step(entry("r/c.csproj", false)), SearchAction::Finish);
    assert_eq!(search.step(SearchEvent::Failed), SearchAction::Finish);
    assert!(search.into_found().is_empty());
}

#[test]
fn a_root_that_cannot_be_opened_fails_the_search() {
    let mut search = ProjectSearch::new("missing".to_string());

    assert_eq!(search.step(SearchEvent::Failed), SearchAction::Abort);
    assert!(search.is_finished());
    assert!(search.found().is_empty());
}
