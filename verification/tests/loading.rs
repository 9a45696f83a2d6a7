use brmap::loaders::floop_y;
use brmap::loaders::load_map;
use brmap::loaders::load_template;
use brmap::loaders::load_tileset;
use brmap::loaders::tile_coord;
use brmap::loaders::LoadError;
use brmap::property::ObjectPropertyValueType;
use brmap::text::chars_of;
use brmap::xml::parse_document;

const MAP_SRC: &str = "<?xml version=\"1.0\" encoding=\"UTF-8\"?>\n\
<map tilewidth=\"16\">\n\
 <tileset source=\"../sprites.tsx\"/>\n\
 <layer width=\"2\" height=\"2\">\n\
  <data>\n1,2,\n3,0\n  </data>\n\
 </layer>\n\
 <objectgroup>\n\
  <object id=\"1\" name=\"door\" type=\"Door\" template=\"door.tx\" x=\"16\" y=\"0\">\n\
   <properties>\n\
    <property name=\"Components\" value=\"Collider|Door\"/>\n\
    <property name=\"hp\" type=\"int\" value=\"5\"/>\n\
   </properties>\n\
  </object>\n\
 </objectgroup>\n\
</map>\n";

#[test]
fn parse_queries_work() {
    let cs = chars_of(MAP_SRC);
    let doc = parse_document(&cs).unwrap();
    let mi = doc.find("map").unwrap();
    assert_eq!(doc.tag_of(mi), "map");
    assert_eq!(doc.attr(mi, "tilewidth"), Some("16".to_string()));
    assert_eq!(doc.attr(mi, "absent"), None);
    let li = doc.find("layer").unwrap();
    assert_eq!(doc.attr(li, "width"), Some("2".to_string()));
    let di = doc.find("data").unwrap();
    assert!(doc.text_of(di).contains("1,2,"));
    let gi = doc.find("objectgroup").unwrap();
    let kids = doc.children_of(gi);
    assert_eq!(kids.len(), 1);
    assert_eq!(doc.tag_of(kids[0]), "object");
}

#[test]
fn parse_rejects_mismatched_close() {
    let cs = chars_of("<map><layer></map></layer>");
    assert!(parse_document(&cs).is_none());
}

#[test]
fn parse_rejects_second_root() {
    let cs = chars_of("<map></map><map></map>");
    assert!(parse_document(&cs).is_none());
}

#[test]
fn parse_rejects_stray_text() {
    let cs = chars_of("hello <map></map>");
    assert!(parse_document(&cs).is_none());
}

#[test]
fn load_map_extracts_everything() {
    let m = load_map(MAP_SRC.as_bytes().to_vec(), "maps/a.tmx").unwrap();
    assert_eq!(m.width, 2);
    assert_eq!(m.height, 2);
    assert_eq!(m.tile_width, 16);
    assert_eq!(m.data, vec![1, 2, 3, 0]);
    assert_eq!(m.sprite_sheet, "sprites.tsx");
    assert_eq!(m.objects.len(), 1);
    let o = &m.objects[0];
    assert_eq!(o.id, 1);
    assert_eq!(o.name, "door");
    assert_eq!(o.obj_type, "Door");
    assert_eq!(o.template, "maps/door.tx");
    assert_eq!(o.x, 1);
    // raw pixel y 0 flips to the top row: the map height in tiles
    assert_eq!(o.y, 2);
    assert_eq!(o.properties.len(), 2);
    assert_eq!(o.properties[0].name, "Components");
    assert_eq!(o.properties[0].value_s, "Collider|Door");
    assert_eq!(o.properties[1].name, "hp");
    assert_eq!(o.properties[1].value_i, 5);
}

#[test]
fn load_map_pads_missing_cells() {
    let src = "<map tilewidth=\"8\">\
<tileset source=\"s.tsx\"/>\
<layer width=\"2\" height=\"2\"><data>9</data></layer>\
<objectgroup></objectgroup>\
</map>";
    let m = load_map(src.as_bytes().to_vec(), "a.tmx").unwrap();
    assert_eq!(m.data, vec![9, 0, 0, 0]);
}

#[test]
fn load_map_rejects_too_many_cells() {
    let src = "<map tilewidth=\"8\">\
<tileset source=\"s.tsx\"/>\
<layer width=\"1\" height=\"1\"><data>1,2</data></layer>\
<objectgroup></objectgroup>\
</map>";
    let e = load_map(src.as_bytes().to_vec(), "a.tmx").unwrap_err();
    assert!(matches!(e, LoadError::BadValue(ref s) if s.as_str() == "data"));
}

#[test]
fn load_map_reports_missing_fields() {
    let e = load_map("<map></map>".as_bytes().to_vec(), "a.tmx").unwrap_err();
    assert!(matches!(e, LoadError::MissingField(ref s) if s.as_str() == "tilewidth"));
    let e2 = load_map("<map tilewidth=\"16\"></map>".as_bytes().to_vec(), "a.tmx").unwrap_err();
    assert!(matches!(e2, LoadError::MissingField(ref s) if s.as_str() == "layer"));
    let e3 = load_map("<hello></hello>".as_bytes().to_vec(), "a.tmx").unwrap_err();
    assert!(matches!(e3, LoadError::MissingField(ref s) if s.as_str() == "map"));
}

#[test]
fn load_map_rejects_bad_encoding_and_markup() {
    let e = load_map(vec![0xff, 0xfe, 0x00], "a.tmx").unwrap_err();
    assert!(matches!(e, LoadError::EncodingError));
    let e2 = load_map("<map".as_bytes().to_vec(), "a.tmx").unwrap_err();
    assert!(matches!(e2, LoadError::MalformedXml));
}

#[test]
fn load_map_rejects_bad_property() {
    let src = "<map tilewidth=\"16\">\
<tileset source=\"s.tsx\"/>\
<layer width=\"1\" height=\"1\"><data>1</data></layer>\
<objectgroup>\
<object id=\"1\" template=\"t.tx\" x=\"0\" y=\"0\">\
<properties><property name=\"hp\" type=\"int\" value=\"ten\"/></properties>\
</object>\
</objectgroup>\
</map>";
    let e = load_map(src.as_bytes().to_vec(), "a.tmx").unwrap_err();
    assert!(matches!(e, LoadError::BadProperty(_)));
}

#[test]
fn load_tileset_extracts_metrics() {
    let src = "<tileset tilewidth=\"16\" columns=\"4\"><image source=\"img/sheet.png\"/></tileset>";
    let sh = load_tileset(src.as_bytes().to_vec(), "sprites.tsx").unwrap();
    assert_eq!(sh.tile_width, 16);
    assert_eq!(sh.columns, 4);
    assert_eq!(sh.sprite, "img/sheet.png");
}

#[test]
fn load_tileset_requires_image() {
    let src = "<tileset tilewidth=\"16\" columns=\"4\"></tileset>";
    let e = load_tileset(src.as_bytes().to_vec(), "sprites.tsx").unwrap_err();
    assert!(matches!(e, LoadError::MissingField(ref s) if s.as_str() == "image"));
}

#[test]
fn load_template_extracts_everything() {
    let src = "<template>\
<tileset source=\"../sprites.tsx\"/>\
<object gid=\"5\">\
<properties>\
<property name=\"hp\" type=\"int\" value=\"10\"/>\
<property name=\"name\" value=\"rock\"/>\
</properties>\
</object>\
</template>";
    let t = load_template(src.as_bytes().to_vec(), "maps/door.tx").unwrap();
    assert_eq!(t.sprite_sheet, "sprites.tsx");
    assert_eq!(t.sprite_idx, 5);
    assert_eq!(t.properties.len(), 2);
    assert_eq!(t.properties[0].value_i, 10);
    assert_eq!(t.properties[1].value_type, ObjectPropertyValueType::Str);
}

#[test]
fn template_without_properties_has_none() {
    let src = "<template><tileset source=\"s.tsx\"/><object gid=\"2\"/></template>";
    let t = load_template(src.as_bytes().to_vec(), "door.tx").unwrap();
    assert_eq!(t.properties.len(), 0);
}

#[test]
fn y_flip_matches_convention() {
    // a raw pixel row of 0 on a 5-tile-high, 16-pixel map is tile row 5
    assert_eq!(floop_y("0", 16, 5), Ok(5));
    // a raw pixel row of 64 (4 tiles down) is tile row 1
    assert_eq!(floop_y("64", 16, 5), Ok(1));
    // below the bottom of the map is an error
    assert_eq!(floop_y("96", 16, 5), Err(()));
}

#[test]
fn tile_coord_rounds_to_nearest() {
    assert_eq!(tile_coord("16", 16), Ok(1));
    assert_eq!(tile_coord("23.9", 16), Ok(1));
    // halves round up
    assert_eq!(tile_coord("24", 16), Ok(2));
    assert_eq!(tile_coord("24.0001", 16), Ok(2));
    // negative pixels clamp to the first column
    assert_eq!(tile_coord("-5", 16), Ok(0));
    // non-numeric text is rejected
    assert_eq!(tile_coord("wide", 16), Err(()));
}

#[test]
fn attributes_tolerate_spaces_around_equals() {
    let cs = chars_of("<map  tilewidth = \"16\"  name=\"x\" />");
    let doc = parse_document(&cs).unwrap();
    let mi = doc.find("map").unwrap();
    assert_eq!(doc.attr(mi, "tilewidth"), Some("16".to_string()));
    assert_eq!(doc.attr(mi, "name"), Some("x".to_string()));
}

#[test]
fn empty_attribute_value_is_distinct_from_absence() {
    let cs = chars_of("<map name=\"\"/>");
    let doc = parse_document(&cs).unwrap();
    let mi = doc.find("map").unwrap();
    assert_eq!(doc.attr(mi, "name"), Some(String::new()));
    assert_eq!(doc.attr(mi, "other"), None);
}

#[test]
fn text_gathers_around_children() {
    let cs = chars_of("<a>one<b/>two</a>");
    let doc = parse_document(&cs).unwrap();
    let ai = doc.find("a").unwrap();
    assert_eq!(doc.text_of(ai), "onetwo");
    assert_eq!(doc.text_of(doc.find("b").unwrap()), "");
}

#[test]
fn floor_cell_must_fit_a_byte() {
    let src = "<map tilewidth=\"8\">\
<tileset source=\"s.tsx\"/>\
<layer width=\"1\" height=\"1\"><data>256</data></layer>\
<objectgroup></objectgroup>\
</map>";
    let e = load_map(src.as_bytes().to_vec(), "a.tmx").unwrap_err();
    assert!(matches!(e, LoadError::BadValue(ref s) if s.as_str() == "data"));
}

#[test]
fn zero_tile_width_is_rejected() {
    let src = "<map tilewidth=\"0\">\
<tileset source=\"s.tsx\"/>\
<layer width=\"1\" height=\"1\"><data>1</data></layer>\
<objectgroup></objectgroup>\
</map>";
    let e = load_map(src.as_bytes().to_vec(), "a.tmx").unwrap_err();
    assert!(matches!(e, LoadError::BadValue(ref s) if s.as_str() == "tilewidth"));
}
