use brmap::assemble::assemble;
use brmap::assemble::merge_properties;
use brmap::assemble::tile_data_from_coord;
use brmap::assemble::AssembleError;
use brmap::hydrate::component_tags;
use brmap::hydrate::rotate_dir;
use brmap::hydrate::get_property_value_from_object_or_default_b;
use brmap::hydrate::get_property_value_from_object_or_default_c;
use brmap::hydrate::get_property_value_from_object_or_default_f;
use brmap::hydrate::get_property_value_from_object_or_default_i;
use brmap::hydrate::get_property_value_from_object_or_default_s;
use brmap::hydrate::hydrate_object;
use brmap::hydrate::hydrate_teleporter;
use brmap::hydrate::ComponentData;
use brmap::hydrate::ComponentHydrators;
use brmap::hydrate::EntityBuild;
use brmap::hydrate::HydratorKind;
use brmap::loaders::load_map;
use brmap::loaders::load_template;
use brmap::loaders::load_tileset;
use brmap::property::decode_property;
use brmap::property::white;
use brmap::store::load_maps;
use brmap::store::AssetStore;

const MAP_SRC: &str = "<map tilewidth=\"16\">\
<tileset source=\"../sprites.tsx\"/>\
<layer width=\"2\" height=\"2\"><data>1,2,3,0</data></layer>\
<objectgroup>\
<object id=\"1\" name=\"front door\" type=\"Door\" template=\"door.tx\" x=\"16\" y=\"16\">\
<properties>\
<property name=\"Components\" value=\"Collider|Door\"/>\
<property name=\"hp\" type=\"int\" value=\"5\"/>\
</properties>\
</object>\
</objectgroup>\
</map>";

const TEMPLATE_SRC: &str = "<template>\
<tileset source=\"../sprites.tsx\"/>\
<object gid=\"5\">\
<properties>\
<property name=\"hp\" type=\"int\" value=\"10\"/>\
<property name=\"name\" value=\"rock\"/>\
<property name=\"z\" type=\"float\" value=\"2.5\"/>\
</properties>\
</object>\
</template>";

const SHEET_SRC: &str =
    "<tileset tilewidth=\"16\" columns=\"4\"><image source=\"img/sheet.png\"/></tileset>";

fn int_prop(name: &str, v: i64) -> brmap::property::ObjectProperty {
    decode_property(name.to_string(), Some("int".to_string()), Some(v.to_string())).unwrap()
}

fn str_prop(name: &str, v: &str) -> brmap::property::ObjectProperty {
    decode_property(name.to_string(), None, Some(v.to_string())).unwrap()
}

#[test]
fn merge_overrides_in_place_and_appends() {
    let defaults = vec![int_prop("hp", 10), str_prop("name", "rock")];
    let overrides = vec![int_prop("hp", 5)];
    let merged = merge_properties(&defaults, &overrides);
    assert_eq!(merged.len(), 2);
    assert_eq!(merged[0].name, "hp");
    assert_eq!(merged[0].value_i, 5);
    assert_eq!(merged[1].name, "name");
    assert_eq!(merged[1].value_s, "rock");

    let appended = merge_properties(&defaults, &vec![int_prop("speed", 2)]);
    assert_eq!(appended.len(), 3);
    assert_eq!(appended[0].name, "hp");
    assert_eq!(appended[0].value_i, 10);
    assert_eq!(appended[1].name, "name");
    assert_eq!(appended[2].name, "speed");
    assert_eq!(appended[2].value_i, 2);
}

fn loaded_store() -> AssetStore {
    let mut store = AssetStore::new();
    store.insert_map(
        "maps/a.tmx".to_string(),
        load_map(MAP_SRC.as_bytes().to_vec(), "maps/a.tmx").unwrap(),
    );
    store.insert_sheet(
        "sprites.tsx".to_string(),
        load_tileset(SHEET_SRC.as_bytes().to_vec(), "sprites.tsx").unwrap(),
    );
    store.insert_image("img/sheet.png".to_string());
    store
}

#[test]
fn tracker_stalls_on_missing_template() {
    // the map and its spritesheet chain resolve, but the object's template
    // never does: the tracker must stay in the loading phase
    let store = loaded_store();
    let mut tracker = load_maps(vec!["maps/a.tmx".to_string()]);
    assert!(!tracker.is_done());
    for _ in 0..5 {
        tracker.poll(&store);
        assert!(!tracker.is_done());
    }
}

#[test]
fn tracker_finishes_when_closure_is_ready() {
    let mut store = loaded_store();
    let mut tracker = load_maps(vec!["maps/a.tmx".to_string()]);
    tracker.poll(&store);
    assert!(!tracker.is_done());
    store.insert_template(
        "maps/door.tx".to_string(),
        load_template(TEMPLATE_SRC.as_bytes().to_vec(), "maps/door.tx").unwrap(),
    );
    tracker.poll(&store);
    assert!(tracker.is_done());
    // the transition is irreversible
    let empty = AssetStore::new();
    tracker.poll(&empty);
    assert!(tracker.is_done());
}

#[test]
fn tracker_stalls_on_missing_image() {
    let mut store = AssetStore::new();
    store.insert_map(
        "maps/a.tmx".to_string(),
        load_map(MAP_SRC.as_bytes().to_vec(), "maps/a.tmx").unwrap(),
    );
    store.insert_sheet(
        "sprites.tsx".to_string(),
        load_tileset(SHEET_SRC.as_bytes().to_vec(), "sprites.tsx").unwrap(),
    );
    store.insert_template(
        "maps/door.tx".to_string(),
        load_template(TEMPLATE_SRC.as_bytes().to_vec(), "maps/door.tx").unwrap(),
    );
    let mut tracker = load_maps(vec!["maps/a.tmx".to_string()]);
    tracker.poll(&store);
    assert!(!tracker.is_done());
}

fn resolved_server() -> brmap::assemble::MapServer {
    let mut store = loaded_store();
    store.insert_template(
        "maps/door.tx".to_string(),
        load_template(TEMPLATE_SRC.as_bytes().to_vec(), "maps/door.tx").unwrap(),
    );
    assemble(&store, &vec!["maps/a.tmx".to_string()]).unwrap()
}

#[test]
fn assembly_merges_and_derives() {
    let server = resolved_server();
    assert_eq!(server.map_idx, 0);
    assert_eq!(server.maps.len(), 1);
    let map = server.get_current_map();
    assert_eq!(map.width, 2);
    assert_eq!(map.data, vec![1, 2, 3, 0]);
    assert_eq!(map.sprite_sheet.tile_width, 16);
    assert_eq!(map.sprite_sheet.columns, 4);
    assert_eq!(map.sprite_sheet.sprite, "img/sheet.png");
    assert_eq!(map.sprite_sheet.texture_atlas_layout.tile_size, 16);

    let o = &map.objects[0];
    assert_eq!(o.obj_type, "Door");
    assert_eq!(o.name, "front door");
    assert_eq!(o.id, 1);
    assert_eq!(o.sprite_idx, 5);
    assert_eq!(o.x, 1);
    assert_eq!(o.y, 1);
    // the derived depth comes from the template's float-typed z property
    assert_eq!(o.z, "2.5");
    // template defaults merged with instance overrides, override in place
    assert_eq!(o.properties.len(), 4);
    assert_eq!(o.properties[0].name, "hp");
    assert_eq!(o.properties[0].value_i, 5);
    assert_eq!(o.properties[1].name, "name");
    assert_eq!(o.properties[1].value_s, "rock");
    assert_eq!(o.properties[2].name, "z");
    assert_eq!(o.properties[3].name, "Components");
    assert_eq!(o.properties[3].value_s, "Collider|Door");
}

#[test]
fn assembly_fails_on_unresolved_template() {
    let store = loaded_store();
    let e = assemble(&store, &vec!["maps/a.tmx".to_string()]).unwrap_err();
    let AssembleError::UnresolvedDependency(p) = e;
    assert_eq!(p, "maps/door.tx");
}

#[test]
fn assembly_fails_on_unknown_map() {
    let store = AssetStore::new();
    let e = assemble(&store, &vec!["maps/a.tmx".to_string()]).unwrap_err();
    let AssembleError::UnresolvedDependency(p) = e;
    assert_eq!(p, "maps/a.tmx");
}

#[test]
fn getters_read_merged_properties() {
    let server = resolved_server();
    let o = &server.maps[0].objects[0];
    assert_eq!(get_property_value_from_object_or_default_i(o, "hp", 0), 5);
    assert_eq!(get_property_value_from_object_or_default_i(o, "mana", 3), 3);
    assert_eq!(
        get_property_value_from_object_or_default_s(o, "name", "?".to_string()),
        "rock"
    );
    // reading a string property through the integer getter yields the
    // integer slot's default, the preserved quirk
    assert_eq!(get_property_value_from_object_or_default_i(o, "name", 9), 0);
    assert_eq!(
        get_property_value_from_object_or_default_f(o, "z", "0".to_string()),
        "2.5"
    );
    assert_eq!(get_property_value_from_object_or_default_b(o, "hp", true), false);
    assert_eq!(get_property_value_from_object_or_default_c(o, "hp", white()), white());
}

#[test]
fn hydrate_unknown_tag_leaves_entity_unmodified() {
    let server = resolved_server();
    let o = &server.maps[0].objects[0];
    let registry = ComponentHydrators::new();
    let mut e = EntityBuild::new();
    let hydrated = registry.hydrate_entity(&mut e, o, "Ghost");
    assert!(!hydrated);
    assert_eq!(e.components.len(), 0);
}

#[test]
fn end_to_end_door_with_collider() {
    // "Collider" is registered, "Door" is not: the collider hydrator runs
    // once and the unknown tag is reported, never a fault
    let server = resolved_server();
    let o = &server.maps[0].objects[0];
    assert_eq!(component_tags(o), vec!["Collider".to_string(), "Door".to_string()]);

    let mut registry = ComponentHydrators::new();
    registry.register_hydrator("Collider".to_string(), HydratorKind::Collider);
    let mut e = EntityBuild::new();
    let unknown = hydrate_object(&registry, &mut e, o);
    assert_eq!(unknown, vec!["Door".to_string()]);
    assert_eq!(e.components.len(), 1);
    match &e.components[0] {
        ComponentData::Collider { radius, name } => {
            assert_eq!(radius.as_str(), "4");
            assert_eq!(name.as_str(), "Door");
        },
        other => panic!("expected a collider, got {:?}", other),
    }
}

#[test]
fn registered_tag_attaches_marker() {
    let server = resolved_server();
    let o = &server.maps[0].objects[0];
    let mut registry = ComponentHydrators::new();
    registry.register_tag("Door".to_string());
    let mut e = EntityBuild::new();
    let hydrated = registry.hydrate_entity(&mut e, o, "Door");
    assert!(hydrated);
    match &e.components[0] {
        ComponentData::Marker(n) => assert_eq!(n.as_str(), "Door"),
        other => panic!("expected a marker, got {:?}", other),
    }
}

#[test]
fn last_registration_wins() {
    let server = resolved_server();
    let o = &server.maps[0].objects[0];
    let mut registry = ComponentHydrators::new();
    registry.register_tag("Thing".to_string());
    registry.register_hydrator("Thing".to_string(), HydratorKind::NoTearDown);
    let mut e = EntityBuild::new();
    registry.hydrate_entity(&mut e, o, "Thing");
    match &e.components[0] {
        ComponentData::NoTearDown { id, ignore_duplicates } => {
            assert_eq!(id.as_str(), "front door");
            assert!(!ignore_duplicates);
        },
        other => panic!("expected a tear-down exemption, got {:?}", other),
    }
}

#[test]
fn teleporter_reads_numbered_ids() {
    let o = brmap::assemble::ObjectData {
        obj_type: "Teleporter".to_string(),
        name: "tp".to_string(),
        id: 9,
        sprite_sheet: brmap::assemble::TextureAtlasData {
            tile_width: 16,
            columns: 4,
            sprite: "img/sheet.png".to_string(),
            texture_atlas_layout: brmap::assemble::AtlasLayout { tile_size: 16, columns: 4 },
        },
        sprite_idx: 1,
        x: 0,
        y: 0,
        z: "0".to_string(),
        properties: vec![
            int_prop("enter_portal", 3),
            int_prop("exit_portal_1", 4),
            int_prop("exit_portal_2", 7),
        ],
    };
    let mut e = EntityBuild::new();
    hydrate_teleporter(&mut e, &o);
    match &e.components[0] {
        ComponentData::Teleporter { enter_portal_id, exit_portal_ids } => {
            assert_eq!(*enter_portal_id, 3);
            assert_eq!(exit_portal_ids, &vec![4, 7]);
        },
        other => panic!("expected a teleporter, got {:?}", other),
    }
}

#[test]
fn tile_lookup_reads_top_down() {
    let server = resolved_server();
    let map = server.get_current_map();
    // the grid is [1, 2, 3, 0] over a 2 by 2 map
    assert_eq!(tile_data_from_coord(0, 1, map), 1);
    assert_eq!(tile_data_from_coord(1, 1, map), 2);
    assert_eq!(tile_data_from_coord(0, 0, map), 3);
    assert_eq!(tile_data_from_coord(1, 0, map), 0);
}

#[test]
fn map_server_navigation() {
    let mut server = resolved_server();
    server.map_idx = 0;
    server.go_to_first_map();
    assert_eq!(server.map_idx, 0);
    assert_eq!(server.get_current_map().height, 2);
}

#[test]
fn rotate_dir_turns_quarters() {
    assert_eq!(rotate_dir(1, 0, true), (0, -1));
    assert_eq!(rotate_dir(1, 0, false), (0, 1));
    assert_eq!(rotate_dir(0, -1, true), (-1, 0));
    assert_eq!(rotate_dir(-1, 0, true), (0, 1));
    assert_eq!(rotate_dir(0, 1, true), (1, 0));
    assert_eq!(rotate_dir(0, 0, true), (0, 0));
    assert_eq!(rotate_dir(2, 2, false), (0, 0));
}

#[test]
fn maps_assemble_in_request_order() {
    let second = "<map tilewidth=\"16\">\
<tileset source=\"../sprites.tsx\"/>\
<layer width=\"1\" height=\"1\"><data>7</data></layer>\
<objectgroup></objectgroup>\
</map>";
    let mut store = loaded_store();
    store.insert_template(
        "maps/door.tx".to_string(),
        load_template(TEMPLATE_SRC.as_bytes().to_vec(), "maps/door.tx").unwrap(),
    );
    store.insert_map(
        "maps/b.tmx".to_string(),
        load_map(second.as_bytes().to_vec(), "maps/b.tmx").unwrap(),
    );
    let server = assemble(
        &store,
        &vec!["maps/a.tmx".to_string(), "maps/b.tmx".to_string()],
    )
    .unwrap();
    assert_eq!(server.maps.len(), 2);
    assert_eq!(server.maps[0].width, 2);
    assert_eq!(server.maps[1].width, 1);
    assert_eq!(server.maps[1].data, vec![7]);
}

#[test]
fn empty_component_list_yields_one_empty_tag() {
    let o = brmap::assemble::ObjectData {
        obj_type: "Thing".to_string(),
        name: "t".to_string(),
        id: 2,
        sprite_sheet: brmap::assemble::TextureAtlasData {
            tile_width: 16,
            columns: 4,
            sprite: "img/sheet.png".to_string(),
            texture_atlas_layout: brmap::assemble::AtlasLayout { tile_size: 16, columns: 4 },
        },
        sprite_idx: 1,
        x: 0,
        y: 0,
        z: "0".to_string(),
        properties: vec![str_prop("Components", "")],
    };
    assert_eq!(component_tags(&o), vec![String::new()]);
    let registry = ComponentHydrators::new();
    let mut e = EntityBuild::new();
    let unknown = hydrate_object(&registry, &mut e, &o);
    assert_eq!(unknown, vec![String::new()]);
    assert_eq!(e.components.len(), 0);
}

#[test]
fn object_without_components_property_spawns_bare() {
    let o = brmap::assemble::ObjectData {
        obj_type: "Rock".to_string(),
        name: "r".to_string(),
        id: 3,
        sprite_sheet: brmap::assemble::TextureAtlasData {
            tile_width: 16,
            columns: 4,
            sprite: "img/sheet.png".to_string(),
            texture_atlas_layout: brmap::assemble::AtlasLayout { tile_size: 16, columns: 4 },
        },
        sprite_idx: 1,
        x: 0,
        y: 0,
        z: "0".to_string(),
        properties: vec![],
    };
    assert_eq!(component_tags(&o).len(), 0);
    let registry = ComponentHydrators::new();
    let mut e = EntityBuild::new();
    let unknown = hydrate_object(&registry, &mut e, &o);
    assert_eq!(unknown.len(), 0);
    assert_eq!(e.components.len(), 0);
}
