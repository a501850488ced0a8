use ros_msg::artifacts::{Field, Msg, MsgErrorCode, Package};
use ros_msg::module_formatter::package_to_module;
use ros_msg::msg_formatter::msg_to_struct;
use ros_msg::rust_artifacts::{
    FormatParameters, Formattable, Module, Struct, StructDerives, StructImplementation,
    StructMember,
};
use ros_msg::source_generator::generate_source;

fn named_package(name: &str) -> Package {
    let mut p = Package::default();
    p.name = name.to_string();
    p
}

fn named_msg(name: &str) -> Msg {
    let mut m = Msg::default();
    m.name = name.to_string();
    m
}

fn emit(p: &Package) -> String {
    package_to_module(p).format()
}

#[test]
fn empty_tree_emits_nothing() {
    let package = Package::default();
    assert_eq!(emit(&package), "");
    assert_eq!(generate_source(&package), Ok(String::new()));
}

#[test]
fn deep_tree_without_messages_emits_nothing() {
    let mut root = named_package("root");
    let mut a = named_package("a");
    a.packages.push(named_package("b"));
    root.packages.push(a);
    root.packages.push(named_package("c"));
    assert_eq!(emit(&root), "");
    assert_eq!(generate_source(&root), Ok(String::new()));
}

#[test]
fn generate_modules_with_struct() {
    let mut package = Package::default();
    package.messages.push(named_msg("Test"));
    assert_eq!(emit(&package), "pub mod  {\npub struct Test {\n}\n}\n");
}

#[test]
fn single_message_ignores_empty_siblings() {
    let mut package = named_package("pkg");
    package.messages.push(named_msg("Test"));
    package.packages.push(named_package("empty"));
    let mut deeper = named_package("deeper");
    deeper.packages.push(named_package("leaf"));
    package.packages.push(deeper);
    assert_eq!(emit(&package), "pub mod pkg {\npub struct Test {\n}\n}\n");
    assert_eq!(
        generate_source(&package),
        Ok("pub mod pkg {\npub struct Test {\n}\n}\n".to_string())
    );
}

#[test]
fn nested_generate_modules_with_child() {
    let mut package = named_package("parent");
    let mut child_package = named_package("child");
    child_package.messages.push(named_msg("Test"));
    package.packages.push(child_package);
    let expected = "pub mod parent {\npub mod child {\npub struct Test {\n}\n}\n}\n";
    assert_eq!(emit(&package), expected);
}

#[test]
fn nested_generate_modules_with_siblings() {
    let mut package = named_package("parent");
    let mut child_package = named_package("child");
    child_package.messages.push(named_msg("Test"));
    package.packages.push(child_package);
    let mut child_package2 = named_package("child2");
    child_package2.messages.push(named_msg("Test2"));
    package.packages.push(child_package2);
    let expected = "pub mod parent {\npub mod child {\npub struct Test {\n}\n}\npub mod child2 {\npub struct Test2 {\n}\n}\n}\n";
    assert_eq!(emit(&package), expected);
}

#[test]
fn module_without_direct_messages_wraps_deep_content() {
    let mut root = named_package("a");
    let mut b = named_package("b");
    let mut c = named_package("c");
    c.messages.push(named_msg("Deep"));
    b.packages.push(c);
    root.packages.push(b);
    assert_eq!(
        emit(&root),
        "pub mod a {\npub mod b {\npub mod c {\npub struct Deep {\n}\n}\n}\n}\n"
    );
}

#[test]
fn messages_come_before_submodules() {
    let mut root = named_package("r");
    let mut child = named_package("k");
    child.messages.push(named_msg("Inner"));
    root.packages.push(child);
    root.messages.push(named_msg("One"));
    root.messages.push(named_msg("Two"));
    assert_eq!(
        emit(&root),
        "pub mod r {\npub struct One {\n}\npub struct Two {\n}\npub mod k {\npub struct Inner {\n}\n}\n}\n"
    );
}

fn test_msg() -> Msg {
    let mut input = named_msg("Test");
    let mut msg_member = Field::default();
    msg_member.name = "test_name".to_string();
    msg_member.value = "member_type".to_string();
    input.fields.push(msg_member.clone());
    input.fields.push(msg_member);
    input
}

#[test]
fn struct_generation() {
    assert_eq!(
        msg_to_struct(&test_msg(), 0).format(),
        "pub struct Test {\n    test_name: member_type,\n    test_name: member_type,\n}"
    );
}

#[test]
fn struct_generation_with_padding() {
    assert_eq!(
        msg_to_struct(&test_msg(), 2).format(),
        "  pub struct Test {\n    test_name: member_type,\n    test_name: member_type,\n  }"
    );
}

#[test]
fn fields_are_mapped_in_structs() {
    let mut msg = named_msg("Shape");
    let mut f = Field::default();
    f.name = "type".to_string();
    f.value = "uint8".to_string();
    msg.fields.push(f);
    let mut g = Field::default();
    g.name = "points".to_string();
    g.value = "geometry_msgs/Point[]".to_string();
    msg.fields.push(g);
    assert_eq!(
        msg_to_struct(&msg, 0).format(),
        "pub struct Shape {\n    _type: u8,\n    points: Vec<geometry_msgs::Point>,\n}"
    );
}

#[test]
fn member_format_uses_own_padding() {
    let mut member = StructMember::default();
    member.format = FormatParameters::new(3);
    member.name = "x".to_string();
    member._type = "f64".to_string();
    assert_eq!(member.format(), "       x: f64,\n");
}

#[test]
fn padded_module_pads_wrapper_and_submodules() {
    let mut inner = Module::default();
    inner.name = "inner".to_string();
    inner.format_params = FormatParameters::new(2);
    let mut s = Struct::default();
    s.name = "S".to_string();
    inner.structs.push(s);
    let mut outer = Module::default();
    outer.name = "outer".to_string();
    outer.format_params = FormatParameters::new(1);
    outer.modules.push(inner);
    outer.modules.push(Module::default());
    assert!(outer.has_elements());
    assert_eq!(
        outer.format(),
        " pub mod outer {\n   pub mod inner {\npub struct S {\n}\n  }\n }\n"
    );
}

#[test]
fn empty_module_has_no_elements() {
    let mut m = Module::default();
    m.modules.push(Module::default());
    assert!(!m.has_elements());
    assert_eq!(m.format(), "");
}

#[test]
fn derives_and_implementation_texts() {
    assert_eq!(StructDerives::default().format(), "#[derives()]");
    assert_eq!(StructImplementation::default().format(), "");
}

#[test]
fn unnamed_message_is_refused() {
    let mut root = named_package("root");
    let mut child = named_package("child");
    child.messages.push(Msg::default());
    root.packages.push(child);
    assert_eq!(generate_source(&root), Err(MsgErrorCode::ModelDefMissingName));
}

#[test]
fn default_message_is_header() {
    let header = Package::build_default_message();
    assert_eq!(header.name, "Header");
    assert_eq!(header.fields.len(), 2);
    assert_eq!(header.fields[0].name, "time_stamp");
    assert_eq!(header.fields[0].value, "time");
    assert_eq!(header.fields[1].name, "frame_id");
    assert_eq!(header.fields[1].value, "string");
    assert_eq!(
        msg_to_struct(&header, 0).format(),
        "pub struct Header {\n    time_stamp: usize,\n    frame_id: String,\n}"
    );
}
