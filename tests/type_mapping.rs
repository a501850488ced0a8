use ros_msg::artifacts::Field;
use ros_msg::common::build_padding_string;
use ros_msg::field_formatter::{field_to_member, map_name, map_type};

#[test]
fn field_parser_map_typ_float64() {
    let out = map_type(&"float64".to_string());
    assert_eq!(out, "f64".to_string())
}

#[test]
fn field_parser_map_type_float64_array() {
    let out = map_type(&"float64[]".to_string());
    assert_eq!(out, "Vec<f64>".to_string())
}

#[test]
fn field_parser_map_type_type_array() {
    let out = map_type(&"Point32[]".to_string());
    assert_eq!(out, "Vec<Point32>".to_string())
}

#[test]
fn field_formatter_map_typ_float64() {
    let input = "float64".to_string();
    let out = map_type(&input);
    assert_eq!(out, "f64".to_string())
}

#[test]
fn field_formatter_map_type_float64_array() {
    let input = "float64[]".to_string();
    let out = map_type(&input);
    assert_eq!(out, "Vec<f64>".to_string())
}

#[test]
fn field_formatter_map_type_type_array() {
    let input = "Point32[]".to_string();
    let out = map_type(&input);
    assert_eq!(out, "Vec<Point32>".to_string())
}

#[test]
fn generates_correct_number_of_padding() {
    assert_eq!("    ", build_padding_string(4))
}

#[test]
fn padding_of_zero_is_empty() {
    assert_eq!("", build_padding_string(0));
}

#[test]
fn every_primitive_maps_and_wraps() {
    let table = [
        ("float64", "f64"),
        ("float32", "f32"),
        ("int8", "i8"),
        ("int16", "i16"),
        ("int32", "i32"),
        ("uint8", "u8"),
        ("byte", "u8"),
        ("char", "u8"),
        ("uint16", "u16"),
        ("uint32", "u32"),
        ("uint64", "u64"),
        ("string", "String"),
        ("time", "usize"),
        ("duration", "usize"),
    ];
    for (raw, target) in table.iter() {
        assert_eq!(map_type(&raw.to_string()), target.to_string());
        assert_eq!(map_type(&format!("{}[]", raw)), format!("Vec<{}>", target));
        assert_eq!(map_type(&raw.to_string()), map_type(&raw.to_string()));
    }
}

#[test]
fn array_length_is_ignored() {
    assert_eq!(map_type(&"uint8[16]".to_string()), "Vec<u8>");
    assert_eq!(map_type(&"float64[9]".to_string()), "Vec<f64>");
}

#[test]
fn unknown_types_pass_through() {
    assert_eq!(map_type(&"int64".to_string()), "int64");
    assert_eq!(map_type(&"bool".to_string()), "bool");
    assert_eq!(map_type(&"Header".to_string()), "Header");
    assert_eq!(map_type(&"".to_string()), "");
}

#[test]
fn qualified_types_use_module_paths() {
    assert_eq!(map_type(&"geometry_msgs/Point".to_string()), "geometry_msgs::Point");
    assert_eq!(
        map_type(&"geometry_msgs/PoseStamped[]".to_string()),
        "Vec<geometry_msgs::PoseStamped>"
    );
    assert_eq!(map_type(&"a/b/c".to_string()), "a::b::c");
}

#[test]
fn name_type_is_renamed() {
    assert_eq!(map_name(&"type".to_string()), "_type");
}

#[test]
fn other_names_are_kept() {
    for n in ["x", "types", "Type", "_type", "ty", "", "frame_id"].iter() {
        assert_eq!(map_name(&n.to_string()), n.to_string());
    }
}

#[test]
fn field_becomes_mapped_member() {
    let mut field = Field::default();
    field.name = "type".to_string();
    field.value = "geometry_msgs/Point[]".to_string();
    let member = field_to_member(&field);
    assert_eq!(member.name, "_type");
    assert_eq!(member._type, "Vec<geometry_msgs::Point>");
    assert_eq!(member.format.padding(), 0);
}
