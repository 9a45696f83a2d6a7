use brmap::property::decode_property;
use brmap::property::default_property;
use brmap::property::encode_property;
use brmap::property::white;
use brmap::property::DecodeError;
use brmap::property::ObjectProperty;
use brmap::property::ObjectPropertyValueType;
use brmap::resolve::local_path_to_project_path;

fn prop_eq(a: &ObjectProperty, b: &ObjectProperty) -> bool {
    a.name == b.name && a.value_b == b.value_b && a.value_c == b.value_c && a.value_f == b.value_f
        && a.value_s == b.value_s && a.value_i == b.value_i && a.value_type == b.value_type
}

#[test]
fn resolve_parent_traversal() {
    let r = local_path_to_project_path("../../sprites.tsx", "res/maps/tutorial/0.tmx");
    assert_eq!(r, "res/sprites.tsx");
}

#[test]
fn resolve_sibling_reference() {
    let r = local_path_to_project_path("door.tx", "maps/a.tmx");
    assert_eq!(r, "maps/door.tx");
}

#[test]
fn resolve_directory_segments_get_separators() {
    let r = local_path_to_project_path("img/sheet.png", "sprites.tsx");
    assert_eq!(r, "img/sheet.png");
}

#[test]
fn resolve_mixed_traversal() {
    let r = local_path_to_project_path("../gfx/tiles.tsx", "res/maps/0.tmx");
    assert_eq!(r, "res/gfx/tiles.tsx");
}

#[test]
fn resolve_pop_past_root_is_tolerated() {
    let r = local_path_to_project_path("../../a.tsx", "b.tmx");
    assert_eq!(r, "a.tsx");
}

#[test]
fn decode_bool_property() {
    let p = decode_property("solid".to_string(), Some("bool".to_string()), Some("true".to_string()))
        .unwrap();
    assert_eq!(p.value_type, ObjectPropertyValueType::Bool);
    assert!(p.value_b);
    let q = decode_property("solid".to_string(), Some("bool".to_string()), Some("false".to_string()))
        .unwrap();
    assert!(!q.value_b);
}

#[test]
fn decode_int_property() {
    let p = decode_property("hp".to_string(), Some("int".to_string()), Some("10".to_string()))
        .unwrap();
    assert_eq!(p.value_type, ObjectPropertyValueType::Int);
    assert_eq!(p.value_i, 10);
    let n = decode_property("hp".to_string(), Some("int".to_string()), Some("-42".to_string()))
        .unwrap();
    assert_eq!(n.value_i, -42);
}

#[test]
fn decode_object_property() {
    let p = decode_property("pair".to_string(), Some("object".to_string()), Some("7".to_string()))
        .unwrap();
    assert_eq!(p.value_type, ObjectPropertyValueType::Obj);
    assert_eq!(p.value_i, 7);
}

#[test]
fn decode_float_property_keeps_text() {
    let p = decode_property("z".to_string(), Some("float".to_string()), Some("2.5".to_string()))
        .unwrap();
    assert_eq!(p.value_type, ObjectPropertyValueType::Float);
    assert_eq!(p.value_f, "2.5");
}

#[test]
fn decode_string_and_file_properties() {
    let p = decode_property("name".to_string(), None, Some("rock".to_string())).unwrap();
    assert_eq!(p.value_type, ObjectPropertyValueType::Str);
    assert_eq!(p.value_s, "rock");
    let q = decode_property("name".to_string(), Some("string".to_string()), Some("rock".to_string()))
        .unwrap();
    assert_eq!(q.value_type, ObjectPropertyValueType::Str);
    let f = decode_property("src".to_string(), Some("file".to_string()), Some("a/b.png".to_string()))
        .unwrap();
    assert_eq!(f.value_type, ObjectPropertyValueType::File);
    assert_eq!(f.value_s, "a/b.png");
}

#[test]
fn any_color_value_decodes_to_white() {
    for v in ["#ff00aa00", "", "blue", "#00000000"] {
        let p = decode_property(
            "tint".to_string(),
            Some("color".to_string()),
            Some(v.to_string()),
        )
        .unwrap();
        assert_eq!(p.value_type, ObjectPropertyValueType::Color);
        assert_eq!(p.value_c, white());
    }
    // a colour-typed node does not even need a value
    let p = decode_property("tint".to_string(), Some("color".to_string()), None).unwrap();
    assert_eq!(p.value_c, white());
}

#[test]
fn decode_errors() {
    assert_eq!(
        decode_property("b".to_string(), Some("bool".to_string()), Some("yes".to_string()))
            .unwrap_err(),
        DecodeError::BadBool
    );
    assert_eq!(
        decode_property("i".to_string(), Some("int".to_string()), Some("ten".to_string()))
            .unwrap_err(),
        DecodeError::BadInt
    );
    assert_eq!(
        decode_property("f".to_string(), Some("float".to_string()), Some("1.".to_string()))
            .unwrap_err(),
        DecodeError::BadFloat
    );
    assert_eq!(
        decode_property("s".to_string(), None, None).unwrap_err(),
        DecodeError::MissingValue
    );
    assert_eq!(
        decode_property("x".to_string(), Some("vector".to_string()), Some("1".to_string()))
            .unwrap_err(),
        DecodeError::UnknownType
    );
}

#[test]
fn round_trip_each_variant() {
    let samples = vec![
        decode_property("b".to_string(), Some("bool".to_string()), Some("true".to_string()))
            .unwrap(),
        decode_property("c".to_string(), Some("color".to_string()), Some("#12345678".to_string()))
            .unwrap(),
        decode_property("f".to_string(), Some("float".to_string()), Some("-3.25".to_string()))
            .unwrap(),
        decode_property("p".to_string(), Some("file".to_string()), Some("a.png".to_string()))
            .unwrap(),
        decode_property("i".to_string(), Some("int".to_string()), Some("-9".to_string()))
            .unwrap(),
        decode_property("o".to_string(), Some("object".to_string()), Some("12".to_string()))
            .unwrap(),
        decode_property("s".to_string(), None, Some("hello".to_string())).unwrap(),
    ];
    for p in samples {
        let (t, v) = encode_property(&p);
        let back = decode_property(p.name.clone(), t, Some(v)).unwrap();
        assert!(prop_eq(&p, &back));
    }
}

#[test]
fn int_encoding_is_decimal() {
    let p = decode_property("i".to_string(), Some("int".to_string()), Some("+007".to_string()))
        .unwrap();
    assert_eq!(p.value_i, 7);
    let (t, v) = encode_property(&p);
    assert_eq!(t, Some("int".to_string()));
    assert_eq!(v, "7");
}

#[test]
fn default_property_slots() {
    let p = default_property("x".to_string());
    assert_eq!(p.value_b, false);
    assert_eq!(p.value_c, white());
    assert_eq!(p.value_f, "0");
    assert_eq!(p.value_s, "");
    assert_eq!(p.value_i, 0);
    assert_eq!(p.value_type, ObjectPropertyValueType::Int);
}
