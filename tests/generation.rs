use ros_msg::artifacts::MsgErrorCode;
use ros_msg::parse_package::{dir_to_package, DirEntry, Directory, PackageGenerator, SourceFile};
use ros_msg::source_generator::{build_msg_source, build_msg_sources};

const HEADER_BLOCK: &str = "pub struct Header {\n    time_stamp: usize,\n    frame_id: String,\n}\n";

fn file(name: &str, contents: &str) -> DirEntry {
    DirEntry::File(SourceFile { name: name.to_string(), contents: contents.to_string() })
}

fn dir(name: &str, entries: Vec<DirEntry>) -> Directory {
    Directory { name: name.to_string(), entries }
}

fn vector3_tree() -> Directory {
    dir(
        "geometry_msgs",
        vec![file(
            "Vector3.msg",
            "# This represents a vector in free space.\n\nfloat64 x\nfloat64 y\nfloat64 z",
        )],
    )
}

#[test]
fn vector3_round_trip() {
    let out = build_msg_source(&vector3_tree()).unwrap();
    let expected = format!(
        "pub mod geometry_msgs {{\npub struct Vector3 {{\n    x: f64,\n    y: f64,\n    z: f64,\n}}\n{}}}\n",
        HEADER_BLOCK
    );
    assert_eq!(out, expected);
}

#[test]
fn two_runs_give_identical_output() {
    let tree = dir(
        "common_msgs",
        vec![
            DirEntry::Dir(dir("nav_msgs", vec![file("Path.msg", "Header header\ngeometry_msgs/PoseStamped[] poses\n")])),
            DirEntry::Dir(vector3_tree()),
            file("notes.txt", "not a definition"),
        ],
    );
    let first = build_msg_source(&tree).unwrap();
    let second = build_msg_source(&tree).unwrap();
    assert_eq!(first, second);
}

#[test]
fn tree_mirrors_directories() {
    let tree = dir(
        "common_msgs",
        vec![
            DirEntry::Dir(dir("empty", vec![])),
            DirEntry::Dir(dir(
                "actionlib_msgs",
                vec![DirEntry::Dir(dir("msg", vec![file("GoalID.msg", "time stamp\nstring id\n")]))],
            )),
            file("package.xml", "<package/>"),
        ],
    );
    let out = build_msg_source(&tree).unwrap();
    let expected = format!(
        "pub mod common_msgs {{\n{}pub mod actionlib_msgs {{\npub mod msg {{\npub struct GoalID {{\n    stamp: usize,\n    id: String,\n}}\n}}\n}}\n}}\n",
        HEADER_BLOCK
    );
    assert_eq!(out, expected);
}

#[test]
fn empty_root_still_gets_header() {
    let out = build_msg_source(&dir("root", vec![])).unwrap();
    assert_eq!(out, format!("pub mod root {{\n{}}}\n", HEADER_BLOCK));
}

#[test]
fn empty_definition_file_stops_the_run() {
    let tree = dir(
        "std_msgs",
        vec![DirEntry::Dir(dir("msg", vec![file("Empty.msg", "")]))],
    );
    assert_eq!(build_msg_source(&tree), Err(MsgErrorCode::EmptyDefinition));
    assert!(dir_to_package(&tree).is_err());
}

#[test]
fn comment_only_definition_is_a_message_without_fields() {
    let tree = dir("std_msgs", vec![file("Empty.msg", "# nothing\n")]);
    let out = build_msg_source(&tree).unwrap();
    assert_eq!(
        out,
        format!("pub mod std_msgs {{\npub struct Empty {{\n}}\n{}}}\n", HEADER_BLOCK)
    );
}

#[test]
fn package_builder_keeps_listing_order() {
    let tree = dir(
        "root",
        vec![
            file("B.msg", "int8 b"),
            DirEntry::Dir(dir("z", vec![])),
            file("A.msg", "int8 a"),
            DirEntry::Dir(dir("y", vec![])),
            file("README.md", "text"),
        ],
    );
    let package = dir_to_package(&tree).unwrap();
    assert_eq!(package.name, "root");
    let msgs: Vec<&str> = package.messages.iter().map(|m| m.name.as_str()).collect();
    assert_eq!(msgs, vec!["B", "A"]);
    let kids: Vec<&str> = package.packages.iter().map(|p| p.name.as_str()).collect();
    assert_eq!(kids, vec!["z", "y"]);
}

#[test]
fn generator_path_is_restored() {
    let mut generator = PackageGenerator::default();
    generator.path.push("outer".to_string());
    let tree = dir("root", vec![DirEntry::Dir(dir("child", vec![file("M.msg", "int8 m")]))]);
    let package = generator.build_package(&tree).unwrap();
    assert_eq!(package.packages[0].messages[0].name, "M");
    assert_eq!(generator.path, vec!["outer".to_string()]);
}

#[test]
fn several_roots_give_one_module_each() {
    let roots = vec![vector3_tree(), dir("std_msgs", vec![file("Bool.msg", "bool data")])];
    let out = build_msg_sources(&roots).unwrap();
    let first = build_msg_source(&roots[0]).unwrap();
    let second = build_msg_source(&roots[1]).unwrap();
    assert_eq!(out, format!("{}{}", first, second));
    assert!(second.starts_with("pub mod std_msgs {\npub struct Bool {\n    data: bool,\n}\n"));
}

#[test]
fn no_roots_give_no_text() {
    assert_eq!(build_msg_sources(&vec![]), Ok(String::new()));
}

#[test]
fn one_bad_root_fails_all() {
    let roots = vec![vector3_tree(), dir("bad", vec![file("E.msg", "")])];
    assert_eq!(build_msg_sources(&roots), Err(MsgErrorCode::EmptyDefinition));
}
