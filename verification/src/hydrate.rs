//! The component hydrator registry: a write-once table from string tags to
//! component construction strategies, consulted while spawning the objects
//! of a resolved map.
//!
//! A resolved object may carry a `Components` property whose value lists tag
//! names separated by `|`; the spawning code hydrates the entity under
//! construction once per tag.  A tag nobody registered is tolerated: the
//! entity is left as it stands and the tag is reported back, never a fault.

use vstd::prelude::*;

verus! {

use crate::assemble::ObjectData;
use crate::assemble::SpecObjData;
use crate::num::fmt_u64_chars;
use crate::num::spec_fmt_nat;
use crate::property::props_view;
use crate::property::spec_find_prop_from;
use crate::property::find_property;
use crate::property::ObjectProperty;
use crate::property::Rgba;
use crate::property::SpecProp;
use crate::resolve::segs_view;
use crate::resolve::split_char;
use crate::resolve::split_chars;
use crate::store::spec_assoc;
use crate::store::upsert;
use crate::store::find_key;
use crate::text::chars_of;
use crate::text::extend_chars;
use crate::text::string_from_chars;
use vstd::string::StringExecFns;

/// The view of a string list.
pub open spec fn strs_view(v: Seq<String>) -> Seq<Seq<char>> {
    v.map_values(|s: String| s@)
}

/// Configuration of the click-tracking host systems: whether every click on
/// a clickable area is also logged.
#[derive(Clone, Copy, Debug, PartialEq, Eq, Structural)]
pub struct ClickableAreaPlugin {
    pub debug_clicks: bool,
}

/// A mouse click on a spawned entity, carried by the entity's identifier.
#[derive(Clone, Copy, Debug, PartialEq, Eq, Structural)]
pub struct MouseClickEvent(pub u64);

// ---------------------------------------------------------------------------
// Typed property getters
// ---------------------------------------------------------------------------

/// The string slot of the first property named `name`, or the default.
pub open spec fn spec_get_s(props: Seq<SpecProp>, name: Seq<char>, default: Seq<char>) -> Seq<
    char,
> {
    match spec_find_prop_from(props, name, 0) {
        Some(i) => props[i].value_s,
        None => default,
    }
}

/// The integer slot of the first property named `name`, or the default.
pub open spec fn spec_get_i(props: Seq<SpecProp>, name: Seq<char>, default: i64) -> i64 {
    match spec_find_prop_from(props, name, 0) {
        Some(i) => props[i].value_i,
        None => default,
    }
}

/// The float-text slot of the first property named `name`, or the default.
pub open spec fn spec_get_f(props: Seq<SpecProp>, name: Seq<char>, default: Seq<char>) -> Seq<
    char,
> {
    match spec_find_prop_from(props, name, 0) {
        Some(i) => props[i].value_f,
        None => default,
    }
}

/// The colour slot of the first property named `name`, or the default.
pub open spec fn spec_get_c(props: Seq<SpecProp>, name: Seq<char>, default: Rgba) -> Rgba {
    match spec_find_prop_from(props, name, 0) {
        Some(i) => props[i].value_c,
        None => default,
    }
}

/// The boolean slot of the first property named `name`, or the default.
pub open spec fn spec_get_b(props: Seq<SpecProp>, name: Seq<char>, default: bool) -> bool {
    match spec_find_prop_from(props, name, 0) {
        Some(i) => props[i].value_b,
        None => default,
    }
}

fn prop_i64_or(props: &Vec<ObjectProperty>, name: &str, default: i64) -> (r: i64)
    ensures
        r == spec_get_i(props_view(props@), name@, default),
{
    match find_property(props, name) {
        Some(i) => {
            proof {
                assert(props_view(props@)[i as int] == props@[i as int]@);
            }
            props[i].value_i
        },
        None => default,
    }
}

fn prop_bool_or(props: &Vec<ObjectProperty>, name: &str, default: bool) -> (r: bool)
    ensures
        r == spec_get_b(props_view(props@), name@, default),
{
    match find_property(props, name) {
        Some(i) => {
            proof {
                assert(props_view(props@)[i as int] == props@[i as int]@);
            }
            props[i].value_b
        },
        None => default,
    }
}

/// Reads a property of the object as a string, with a default for an absent
/// name.  A property of another type yields its default string slot.
pub fn get_property_value_from_object_or_default_s(
    object_data: &ObjectData,
    property_name: &str,
    default_value: String,
) -> (r: String)
    ensures
        r@ == spec_get_s(object_data@.properties, property_name@, default_value@),
{
    match find_property(&object_data.properties, property_name) {
        Some(i) => {
            proof {
                assert(object_data@.properties[i as int] == object_data.properties@[i as int]@);
            }
            object_data.properties[i].value_s.clone()
        },
        None => default_value,
    }
}

/// Reads a property of the object as an integer, with a default for an
/// absent name.
pub fn get_property_value_from_object_or_default_i(
    object_data: &ObjectData,
    property_name: &str,
    default_value: i64,
) -> (r: i64)
    ensures
        r == spec_get_i(object_data@.properties, property_name@, default_value),
{
    prop_i64_or(&object_data.properties, property_name, default_value)
}

/// Reads a property of the object as float text, with a default for an
/// absent name.
pub fn get_property_value_from_object_or_default_f(
    object_data: &ObjectData,
    property_name: &str,
    default_value: String,
) -> (r: String)
    ensures
        r@ == spec_get_f(object_data@.properties, property_name@, default_value@),
{
    match find_property(&object_data.properties, property_name) {
        Some(i) => {
            proof {
                assert(object_data@.properties[i as int] == object_data.properties@[i as int]@);
            }
            object_data.properties[i].value_f.clone()
        },
        None => default_value,
    }
}

/// Reads a property of the object as a colour, with a default for an absent
/// name.
pub fn get_property_value_from_object_or_default_c(
    object_data: &ObjectData,
    property_name: &str,
    default_value: Rgba,
) -> (r: Rgba)
    ensures
        r == spec_get_c(object_data@.properties, property_name@, default_value),
{
    match find_property(&object_data.properties, property_name) {
        Some(i) => {
            proof {
                assert(object_data@.properties[i as int] == object_data.properties@[i as int]@);
            }
            object_data.properties[i].value_c
        },
        None => default_value,
    }
}

/// Reads a property of the object as a boolean, with a default for an
/// absent name.
pub fn get_property_value_from_object_or_default_b(
    object_data: &ObjectData,
    property_name: &str,
    default_value: bool,
) -> (r: bool)
    ensures
        r == spec_get_b(object_data@.properties, property_name@, default_value),
{
    prop_bool_or(&object_data.properties, property_name, default_value)
}

// ---------------------------------------------------------------------------
// Numbered property lists
// ---------------------------------------------------------------------------

/// The values of the properties `prefix1`, `prefix2`, ... read in order
/// until the first absent name; a value of `-1` also ends the list.  The
/// fuel bounds the walk: no object can carry more numbered properties than
/// it has properties.
pub open spec fn spec_numbered_ids(
    props: Seq<SpecProp>,
    prefix: Seq<char>,
    idx: nat,
    fuel: nat,
) -> Seq<i64>
    decreases fuel,
{
    if fuel == 0 {
        Seq::<i64>::empty()
    } else {
        let v = spec_get_i(props, prefix + spec_fmt_nat(idx), -1i64);
        if v == -1 {
            Seq::<i64>::empty()
        } else {
            seq![v] + spec_numbered_ids(props, prefix, idx + 1, (fuel - 1) as nat)
        }
    }
}

/// Collects the values of the numbered properties `prefix1`, `prefix2`,
/// ... until the first absent one.
#[verifier::loop_isolation(false)]
fn numbered_ids(props: &Vec<ObjectProperty>, prefix: &str) -> (r: Vec<i64>)
    ensures
        r@ == spec_numbered_ids(props_view(props@), prefix@, 1, props@.len()),
{
    let ghost pv = props_view(props@);
    let prefix_chars = chars_of(prefix);
    let fuel0 = props.len();
    let mut ids: Vec<i64> = Vec::new();
    let mut fuel = fuel0;
    proof {
        assert(ids@ + spec_numbered_ids(pv, prefix@, 1, fuel0 as nat) =~= spec_numbered_ids(
            pv,
            prefix@,
            1,
            fuel0 as nat,
        ));
    }
    while fuel > 0
        invariant
            fuel <= fuel0,
            spec_numbered_ids(pv, prefix@, 1, fuel0 as nat) == ids@ + spec_numbered_ids(
                pv,
                prefix@,
                (fuel0 - fuel + 1) as nat,
                fuel as nat,
            ),
        decreases fuel,
    {
        let idx = fuel0 - fuel + 1;
        let mut name_chars = subrange_copy(&prefix_chars);
        extend_chars(&mut name_chars, &fmt_u64_chars(idx as u64));
        let name = string_from_chars(&name_chars);
        proof {
            assert(name@ == prefix@ + spec_fmt_nat(idx as nat));
        }
        let v = prop_i64_or(props, name.as_str(), -1);
        if v == -1 {
            proof {
                assert(spec_numbered_ids(pv, prefix@, idx as nat, fuel as nat) =~= Seq::<
                    i64,
                >::empty());
                assert(ids@ + Seq::<i64>::empty() =~= ids@);
            }
            return ids;
        }
        let ghost before = ids@;
        ids.push(v);
        proof {
            assert(ids@ =~= before.push(v));
            assert(before + (seq![v] + spec_numbered_ids(pv, prefix@, idx as nat + 1, (fuel
                - 1) as nat)) =~= ids@ + spec_numbered_ids(
                pv,
                prefix@,
                idx as nat + 1,
                (fuel - 1) as nat,
            ));
        }
        fuel = fuel - 1;
    }
    proof {
        assert(spec_numbered_ids(pv, prefix@, (fuel0 + 1) as nat, 0) =~= Seq::<i64>::empty());
        assert(ids@ + Seq::<i64>::empty() =~= ids@);
    }
    ids
}

fn subrange_copy(v: &Vec<char>) -> (r: Vec<char>)
    ensures
        r@ == v@,
{
    let r = crate::text::subrange_chars(v, 0, v.len());
    proof {
        assert(v@.subrange(0, v@.len() as int) =~= v@);
    }
    r
}

// ---------------------------------------------------------------------------
// Components
// ---------------------------------------------------------------------------

/// The mathematical image of a [`ComponentData`].
#[verifier::ext_equal]
pub ghost enum SpecComponent {
    Marker(Seq<char>),
    Mover { dir_x: i64, dir_y: i64, coord_x: u16, coord_y: u16, clockwise: bool },
    Collider { radius: Seq<char>, name: Seq<char> },
    ClickableArea { x: u16, y: u16, radius: Seq<char> },
    EnterPortal { id: u16, exit_portal_id: i64 },
    ExitPortal { id: u16, exit_dir_x: i64, exit_dir_y: i64 },
    Teleporter { enter_portal_id: i64, exit_portal_ids: Seq<i64> },
    Planks { id: u16, active: bool },
    PlanksTrigger { planks_ids: Seq<i64> },
    NoTearDown { id: Seq<char>, ignore_duplicates: bool },
}

/// One gameplay component attached to an entity under construction, holding
/// the data its hydrator read from the resolved object.  Lengths and radii
/// read from float properties are carried as their decimal text.
#[derive(Debug)]
pub enum ComponentData {
    /// A zero-data categorical marker under its registered tag name.
    Marker(String),
    Mover { dir_x: i64, dir_y: i64, coord_x: u16, coord_y: u16, clockwise: bool },
    Collider { radius: String, name: String },
    ClickableArea { x: u16, y: u16, radius: String },
    EnterPortal { id: u16, exit_portal_id: i64 },
    ExitPortal { id: u16, exit_dir_x: i64, exit_dir_y: i64 },
    Teleporter { enter_portal_id: i64, exit_portal_ids: Vec<i64> },
    Planks { id: u16, active: bool },
    PlanksTrigger { planks_ids: Vec<i64> },
    NoTearDown { id: String, ignore_duplicates: bool },
}

impl View for ComponentData {
    type V = SpecComponent;

    open spec fn view(&self) -> SpecComponent {
        match self {
            ComponentData::Marker(s) => SpecComponent::Marker(s@),
            ComponentData::Mover { dir_x, dir_y, coord_x, coord_y, clockwise } => SpecComponent::Mover {
                dir_x: *dir_x,
                dir_y: *dir_y,
                coord_x: *coord_x,
                coord_y: *coord_y,
                clockwise: *clockwise,
            },
            ComponentData::Collider { radius, name } => SpecComponent::Collider {
                radius: radius@,
                name: name@,
            },
            ComponentData::ClickableArea { x, y, radius } => SpecComponent::ClickableArea {
                x: *x,
                y: *y,
                radius: radius@,
            },
            ComponentData::EnterPortal { id, exit_portal_id } => SpecComponent::EnterPortal {
                id: *id,
                exit_portal_id: *exit_portal_id,
            },
            ComponentData::ExitPortal { id, exit_dir_x, exit_dir_y } => SpecComponent::ExitPortal {
                id: *id,
                exit_dir_x: *exit_dir_x,
                exit_dir_y: *exit_dir_y,
            },
            ComponentData::Teleporter { enter_portal_id, exit_portal_ids } => SpecComponent::Teleporter {
                enter_portal_id: *enter_portal_id,
                exit_portal_ids: exit_portal_ids@,
            },
            ComponentData::Planks { id, active } => SpecComponent::Planks {
                id: *id,
                active: *active,
            },
            ComponentData::PlanksTrigger { planks_ids } => SpecComponent::PlanksTrigger {
                planks_ids: planks_ids@,
            },
            ComponentData::NoTearDown { id, ignore_duplicates } => SpecComponent::NoTearDown {
                id: id@,
                ignore_duplicates: *ignore_duplicates,
            },
        }
    }
}

/// The view of a component list.
pub open spec fn comps_view(v: Seq<ComponentData>) -> Seq<SpecComponent> {
    v.map_values(|c: ComponentData| c@)
}

/// An entity under construction: the components attached so far, in the
/// order they were attached.
#[derive(Debug)]
pub struct EntityBuild {
    pub components: Vec<ComponentData>,
}

impl EntityBuild {
    /// An entity with nothing attached yet.
    pub fn new() -> (e: EntityBuild)
        ensures
            e.components@.len() == 0,
    {
        EntityBuild { components: Vec::new() }
    }
}

// ---------------------------------------------------------------------------
// The hydrators
// ---------------------------------------------------------------------------

/// The mover read from an object: its direction and starting coordinates.
pub open spec fn spec_mover_component(o: SpecObjData) -> SpecComponent {
    SpecComponent::Mover {
        dir_x: spec_get_i(o.properties, "dir_x"@, 0),
        dir_y: spec_get_i(o.properties, "dir_y"@, 0),
        coord_x: o.x,
        coord_y: o.y,
        clockwise: spec_get_b(o.properties, "clockwise"@, false),
    }
}

/// A mover's turning rule: each of the four unit directions turns a quarter
/// either way; anything else stops the mover.
pub open spec fn spec_rotate_dir(dir_x: i64, dir_y: i64, cw: bool) -> (i64, i64) {
    if dir_x == 1 && dir_y == 0 {
        if cw {
            (0i64, -1i64)
        } else {
            (0i64, 1i64)
        }
    } else if dir_x == 0 && dir_y == -1 {
        if cw {
            (-1i64, 0i64)
        } else {
            (1i64, 0i64)
        }
    } else if dir_x == -1 && dir_y == 0 {
        if cw {
            (0i64, 1i64)
        } else {
            (0i64, -1i64)
        }
    } else if dir_x == 0 && dir_y == 1 {
        if cw {
            (1i64, 0i64)
        } else {
            (-1i64, 0i64)
        }
    } else {
        (0i64, 0i64)
    }
}

/// Turns a mover's direction a quarter, clockwise or widdershins.
pub fn rotate_dir(dir_x: i64, dir_y: i64, cw: bool) -> (r: (i64, i64))
    ensures
        r == spec_rotate_dir(dir_x, dir_y, cw),
{
    if dir_x == 1 && dir_y == 0 {
        if cw {
            (0, -1)
        } else {
            (0, 1)
        }
    } else if dir_x == 0 && dir_y == -1 {
        if cw {
            (-1, 0)
        } else {
            (1, 0)
        }
    } else if dir_x == -1 && dir_y == 0 {
        if cw {
            (0, 1)
        } else {
            (0, -1)
        }
    } else if dir_x == 0 && dir_y == 1 {
        if cw {
            (1, 0)
        } else {
            (-1, 0)
        }
    } else {
        (0, 0)
    }
}

/// The collider read from an object: its radius as float text and the
/// object's type as its name.
pub open spec fn spec_collider_component(o: SpecObjData) -> SpecComponent {
    SpecComponent::Collider {
        radius: spec_get_f(o.properties, "collider_radius"@, "4"@),
        name: o.obj_type,
    }
}

/// The clickable area read from an object: its tile and its radius as float
/// text.
pub open spec fn spec_clickable_area_component(o: SpecObjData) -> SpecComponent {
    SpecComponent::ClickableArea { x: o.x, y: o.y, radius: spec_get_f(o.properties, "radius"@, "0.5"@) }
}

/// The entering portal read from an object: the object's id and its partner
/// exit portal's id.
pub open spec fn spec_enter_portal_component(o: SpecObjData) -> SpecComponent {
    SpecComponent::EnterPortal { id: o.id, exit_portal_id: spec_get_i(o.properties, "exit_portal"@, 0) }
}

/// The exit portal read from an object: the object's id and the direction a
/// mover leaves it in.
pub open spec fn spec_exit_portal_component(o: SpecObjData) -> SpecComponent {
    SpecComponent::ExitPortal {
        id: o.id,
        exit_dir_x: spec_get_i(o.properties, "exit_dir_x"@, 0),
        exit_dir_y: spec_get_i(o.properties, "exit_dir_y"@, 0),
    }
}

/// The teleporter read from an object: its entering portal's id and the
/// numbered list of exit portal ids.
pub open spec fn spec_teleporter_component(o: SpecObjData) -> SpecComponent {
    SpecComponent::Teleporter {
        enter_portal_id: spec_get_i(o.properties, "enter_portal"@, 0),
        exit_portal_ids: spec_numbered_ids(o.properties, "exit_portal_"@, 1, o.properties.len()),
    }
}

/// The planks read from an object: the object's id and whether they start
/// laid out.
pub open spec fn spec_planks_component(o: SpecObjData) -> SpecComponent {
    SpecComponent::Planks { id: o.id, active: spec_get_b(o.properties, "active"@, true) }
}

/// The planks trigger read from an object: the numbered list of planks ids
/// it toggles.
pub open spec fn spec_planks_trigger_component(o: SpecObjData) -> SpecComponent {
    SpecComponent::PlanksTrigger {
        planks_ids: spec_numbered_ids(o.properties, "planks_"@, 1, o.properties.len()),
    }
}

/// The tear-down exemption read from an object, labelled by its name.
pub open spec fn spec_no_tear_down_component(o: SpecObjData) -> SpecComponent {
    SpecComponent::NoTearDown { id: o.name, ignore_duplicates: false }
}

fn mover_component(object_data: &ObjectData) -> (r: ComponentData)
    ensures
        r@ == spec_mover_component(object_data@),
{
    let dir_x = prop_i64_or(&object_data.properties, "dir_x", 0);
    let dir_y = prop_i64_or(&object_data.properties, "dir_y", 0);
    let clockwise = prop_bool_or(&object_data.properties, "clockwise", false);
    ComponentData::Mover {
        dir_x,
        dir_y,
        coord_x: object_data.x,
        coord_y: object_data.y,
        clockwise,
    }
}

fn collider_component(object_data: &ObjectData) -> (r: ComponentData)
    ensures
        r@ == spec_collider_component(object_data@),
{
    let radius = get_property_value_from_object_or_default_f(
        object_data,
        "collider_radius",
        String::from_str("4"),
    );
    ComponentData::Collider { radius, name: object_data.obj_type.clone() }
}

fn clickable_area_component(object_data: &ObjectData) -> (r: ComponentData)
    ensures
        r@ == spec_clickable_area_component(object_data@),
{
    let radius = get_property_value_from_object_or_default_f(
        object_data,
        "radius",
        String::from_str("0.5"),
    );
    ComponentData::ClickableArea { x: object_data.x, y: object_data.y, radius }
}

fn enter_portal_component(object_data: &ObjectData) -> (r: ComponentData)
    ensures
        r@ == spec_enter_portal_component(object_data@),
{
    let exit_portal_id = prop_i64_or(&object_data.properties, "exit_portal", 0);
    ComponentData::EnterPortal { id: object_data.id, exit_portal_id }
}

fn exit_portal_component(object_data: &ObjectData) -> (r: ComponentData)
    ensures
        r@ == spec_exit_portal_component(object_data@),
{
    let exit_dir_x = prop_i64_or(&object_data.properties, "exit_dir_x", 0);
    let exit_dir_y = prop_i64_or(&object_data.properties, "exit_dir_y", 0);
    ComponentData::ExitPortal { id: object_data.id, exit_dir_x, exit_dir_y }
}

fn teleporter_component(object_data: &ObjectData) -> (r: ComponentData)
    ensures
        r@ == spec_teleporter_component(object_data@),
{
    let enter_portal_id = prop_i64_or(&object_data.properties, "enter_portal", 0);
    let exit_portal_ids = numbered_ids(&object_data.properties, "exit_portal_");
    ComponentData::Teleporter { enter_portal_id, exit_portal_ids }
}

fn planks_component(object_data: &ObjectData) -> (r: ComponentData)
    ensures
        r@ == spec_planks_component(object_data@),
{
    let active = prop_bool_or(&object_data.properties, "active", true);
    ComponentData::Planks { id: object_data.id, active }
}

fn planks_trigger_component(object_data: &ObjectData) -> (r: ComponentData)
    ensures
        r@ == spec_planks_trigger_component(object_data@),
{
    let planks_ids = numbered_ids(&object_data.properties, "planks_");
    ComponentData::PlanksTrigger { planks_ids }
}

fn no_tear_down_component(object_data: &ObjectData) -> (r: ComponentData)
    ensures
        r@ == spec_no_tear_down_component(object_data@),
{
    ComponentData::NoTearDown { id: object_data.name.clone(), ignore_duplicates: false }
}

/// Attaches a mover read from the object: direction from `dir_x` and
/// `dir_y`, turning sense from `clockwise`, starting at the object's tile.
pub fn hydrate_mover(entity_commands: &mut EntityBuild, object_data: &ObjectData)
    ensures
        comps_view(final(entity_commands).components@) == comps_view(
            old(entity_commands).components@,
        ).push(spec_mover_component(object_data@)),
{
    push_component(entity_commands, mover_component(object_data));
}

/// Attaches a collider read from the object: its radius from
/// `collider_radius` and its name from the object's type.
pub fn hydrate_collider(entity_commands: &mut EntityBuild, object_data: &ObjectData)
    ensures
        comps_view(final(entity_commands).components@) == comps_view(
            old(entity_commands).components@,
        ).push(spec_collider_component(object_data@)),
{
    push_component(entity_commands, collider_component(object_data));
}

/// Attaches a clickable area read from the object: its tile and its radius
/// from `radius`.
pub fn hydrate_clickable_area(entity_commands: &mut EntityBuild, object_data: &ObjectData)
    ensures
        comps_view(final(entity_commands).components@) == comps_view(
            old(entity_commands).components@,
        ).push(spec_clickable_area_component(object_data@)),
{
    push_component(entity_commands, clickable_area_component(object_data));
}

/// Attaches an entering portal read from the object: its partner's id from
/// `exit_portal`.
pub fn hydrate_enter_portal(entity_commands: &mut EntityBuild, object_data: &ObjectData)
    ensures
        comps_view(final(entity_commands).components@) == comps_view(
            old(entity_commands).components@,
        ).push(spec_enter_portal_component(object_data@)),
{
    push_component(entity_commands, enter_portal_component(object_data));
}

/// Attaches an exit portal read from the object: its leave direction from
/// `exit_dir_x` and `exit_dir_y`.
pub fn hydrate_exit_portal(entity_commands: &mut EntityBuild, object_data: &ObjectData)
    ensures
        comps_view(final(entity_commands).components@) == comps_view(
            old(entity_commands).components@,
        ).push(spec_exit_portal_component(object_data@)),
{
    push_component(entity_commands, exit_portal_component(object_data));
}

/// Attaches a teleporter read from the object: its entering portal from
/// `enter_portal` and the numbered `exit_portal_` list.
pub fn hydrate_teleporter(entity_commands: &mut EntityBuild, object_data: &ObjectData)
    ensures
        comps_view(final(entity_commands).components@) == comps_view(
            old(entity_commands).components@,
        ).push(spec_teleporter_component(object_data@)),
{
    push_component(entity_commands, teleporter_component(object_data));
}

/// Attaches a tear-down exemption labelled by the object's name.
pub fn hydrate_no_tear_down(entity_commands: &mut EntityBuild, object_data: &ObjectData)
    ensures
        comps_view(final(entity_commands).components@) == comps_view(
            old(entity_commands).components@,
        ).push(spec_no_tear_down_component(object_data@)),
{
    push_component(entity_commands, no_tear_down_component(object_data));
}

fn push_component(entity_commands: &mut EntityBuild, c: ComponentData)
    ensures
        comps_view(final(entity_commands).components@) == comps_view(
            old(entity_commands).components@,
        ).push(c@),
{
    let ghost before = comps_view(entity_commands.components@);
    entity_commands.components.push(c);
    proof {
        assert(comps_view(entity_commands.components@) =~= before.push(
            entity_commands.components@.last()@,
        ));
    }
}

// ---------------------------------------------------------------------------
// The registry
// ---------------------------------------------------------------------------

/// A component construction strategy: a zero-data marker, or one of the
/// data-driven hydrators.
#[derive(Clone, Copy, Debug, PartialEq, Eq, Structural)]
pub enum HydratorKind {
    Tag,
    Mover,
    Collider,
    ClickableArea,
    EnterPortal,
    ExitPortal,
    Teleporter,
    Planks,
    PlanksTrigger,
    NoTearDown,
}

impl View for HydratorKind {
    type V = HydratorKind;

    open spec fn view(&self) -> HydratorKind {
        *self
    }
}

/// The component that hydrating a resolved object under a registered tag
/// attaches.
pub open spec fn spec_make_component(kind: HydratorKind, name: Seq<char>, o: SpecObjData) -> SpecComponent {
    match kind {
        HydratorKind::Tag => SpecComponent::Marker(name),
        HydratorKind::Mover => spec_mover_component(o),
        HydratorKind::Collider => spec_collider_component(o),
        HydratorKind::ClickableArea => spec_clickable_area_component(o),
        HydratorKind::EnterPortal => spec_enter_portal_component(o),
        HydratorKind::ExitPortal => spec_exit_portal_component(o),
        HydratorKind::Teleporter => spec_teleporter_component(o),
        HydratorKind::Planks => spec_planks_component(o),
        HydratorKind::PlanksTrigger => spec_planks_trigger_component(o),
        HydratorKind::NoTearDown => spec_no_tear_down_component(o),
    }
}

fn make_component(kind: HydratorKind, name: &str, o: &ObjectData) -> (r: ComponentData)
    ensures
        r@ == spec_make_component(kind, name@, o@),
{
    match kind {
        HydratorKind::Tag => ComponentData::Marker(name.to_owned()),
        HydratorKind::Mover => mover_component(o),
        HydratorKind::Collider => collider_component(o),
        HydratorKind::ClickableArea => clickable_area_component(o),
        HydratorKind::EnterPortal => enter_portal_component(o),
        HydratorKind::ExitPortal => exit_portal_component(o),
        HydratorKind::Teleporter => teleporter_component(o),
        HydratorKind::Planks => planks_component(o),
        HydratorKind::PlanksTrigger => planks_trigger_component(o),
        HydratorKind::NoTearDown => no_tear_down_component(o),
    }
}

/// The hydrator registered under `name`.
pub open spec fn spec_hydrator_of(entries: Seq<(String, HydratorKind)>, name: Seq<char>) -> Option<
    HydratorKind,
> {
    spec_assoc(entries, name)
}

/// The registry from tag names to construction strategies.  It is filled
/// during a registration phase and read while spawning; the last
/// registration under a name wins.
#[derive(Debug)]
pub struct ComponentHydrators {
    pub hydrators: Vec<(String, HydratorKind)>,
}

impl ComponentHydrators {
    /// An empty registry.
    pub fn new() -> (r: ComponentHydrators)
        ensures
            forall|n: Seq<char>| spec_hydrator_of(r.hydrators@, n) is None,
    {
        ComponentHydrators { hydrators: Vec::new() }
    }

    /// Installs a construction strategy under a tag name; a later
    /// registration under the same name wins.
    pub fn register_hydrator(&mut self, component_name: String, kind: HydratorKind)
        ensures
            spec_hydrator_of(final(self).hydrators@, component_name@) == Some(kind),
            forall|n: Seq<char>|
                n != component_name@ ==> spec_hydrator_of(final(self).hydrators@, n)
                    == spec_hydrator_of(old(self).hydrators@, n),
    {
        upsert(&mut self.hydrators, component_name, kind);
    }

    /// Installs a zero-data marker under a tag name: hydrating an object
    /// with it attaches a categorical label and nothing more.
    pub fn register_tag(&mut self, component_name: String)
        ensures
            spec_hydrator_of(final(self).hydrators@, component_name@) == Some(HydratorKind::Tag),
            forall|n: Seq<char>|
                n != component_name@ ==> spec_hydrator_of(final(self).hydrators@, n)
                    == spec_hydrator_of(old(self).hydrators@, n),
    {
        self.register_hydrator(component_name, HydratorKind::Tag);
    }

    /// Hydrates the entity under construction with the component registered
    /// under `component_name`, reading the resolved object's data.  An
    /// unregistered tag is tolerated: the entity is left exactly as it was
    /// and the call reports `false`.
    pub fn hydrate_entity(
        &self,
        entity_commands: &mut EntityBuild,
        object_data: &ObjectData,
        component_name: &str,
    ) -> (hydrated: bool)
        ensures
            match spec_hydrator_of(self.hydrators@, component_name@) {
                Some(kind) => hydrated && comps_view(final(entity_commands).components@)
                    == comps_view(old(entity_commands).components@).push(
                    spec_make_component(kind, component_name@, object_data@),
                ),
                None => !hydrated && final(entity_commands).components@ == old(
                    entity_commands,
                ).components@,
            },
    {
        match find_key(&self.hydrators, component_name) {
            Some(i) => {
                let kind = self.hydrators[i].1;
                let c = make_component(kind, component_name, object_data);
                let ghost before = comps_view(entity_commands.components@);
                entity_commands.components.push(c);
                proof {
                    assert(comps_view(entity_commands.components@) =~= before.push(c@));
                }
                true
            },
            None => false,
        }
    }
}

// ---------------------------------------------------------------------------
// Spawning from the Components property
// ---------------------------------------------------------------------------

/// The tag names listed in the object's `Components` property, split on
/// `|`; an object without the property lists none.
pub open spec fn spec_component_tags(o: SpecObjData) -> Seq<Seq<char>> {
    match spec_find_prop_from(o.properties, "Components"@, 0) {
        None => Seq::<Seq<char>>::empty(),
        Some(i) => split_char(o.properties[i].value_s, '|'),
    }
}

/// The tag names listed in the object's `Components` property.
pub fn component_tags(object_data: &ObjectData) -> (r: Vec<String>)
    ensures
        strs_view(r@) == spec_component_tags(object_data@),
{
    match find_property(&object_data.properties, "Components") {
        None => {
            let r: Vec<String> = Vec::new();
            proof {
                assert(strs_view(r@) =~= Seq::<Seq<char>>::empty());
            }
            r
        },
        Some(i) => {
            proof {
                assert(object_data@.properties[i as int] == object_data.properties@[i as int]@);
            }
            let cs = chars_of(object_data.properties[i].value_s.as_str());
            let segs = split_chars(&cs, '|');
            let mut r: Vec<String> = Vec::new();
            let mut j: usize = 0;
            proof {
                assert(strs_view(r@) =~= segs_view(segs@).take(0));
            }
            while j < segs.len()
                invariant
                    j <= segs@.len(),
                    r@.len() == j,
                    segs_view(segs@) == spec_component_tags(object_data@),
                    strs_view(r@) == segs_view(segs@).take(j as int),
                decreases segs@.len() - j,
            {
                proof {
                    assert(segs_view(segs@)[j as int] == segs@[j as int]@);
                }
                let s = string_from_chars(&segs[j]);
                let ghost before = r@;
                r.push(s);
                j = j + 1;
                proof {
                    assert forall|m: int| 0 <= m < j implies #[trigger] strs_view(r@)[m]
                        == segs_view(segs@).take(j as int)[m] by {
                        if m < j - 1 {
                            assert(r@[m] == before[m]);
                            assert(strs_view(before)[m] == before[m]@);
                        } else {
                            assert(r@[m] == s);
                        }
                    }
                    assert(strs_view(r@) =~= segs_view(segs@).take(j as int));
                }
            }
            proof {
                assert(segs_view(segs@).take(segs@.len() as int) =~= segs_view(segs@));
            }
            r
        },
    }
}

/// The components attached, and the unknown tags reported, when the listed
/// tags from position `j` on are hydrated in order.
pub open spec fn spec_hydrate_tags(
    entries: Seq<(String, HydratorKind)>,
    o: SpecObjData,
    tags: Seq<Seq<char>>,
    j: int,
) -> (Seq<SpecComponent>, Seq<Seq<char>>)
    decreases tags.len() - j,
{
    if j < 0 || j >= tags.len() {
        (Seq::<SpecComponent>::empty(), Seq::<Seq<char>>::empty())
    } else {
        let rest = spec_hydrate_tags(entries, o, tags, j + 1);
        match spec_hydrator_of(entries, tags[j]) {
            Some(kind) => (seq![spec_make_component(kind, tags[j], o)] + rest.0, rest.1),
            None => (rest.0, seq![tags[j]] + rest.1),
        }
    }
}

/// Hydrates the entity once per tag of the object's `Components` property,
/// in order.  Unknown tags are tolerated and returned so the caller may
/// report them; they leave the entity untouched.
#[verifier::loop_isolation(false)]
pub fn hydrate_object(
    registry: &ComponentHydrators,
    entity_commands: &mut EntityBuild,
    object_data: &ObjectData,
) -> (unknown: Vec<String>)
    ensures
        ({
            let outcome = spec_hydrate_tags(
                registry.hydrators@,
                object_data@,
                spec_component_tags(object_data@),
                0,
            );
            &&& comps_view(final(entity_commands).components@) == comps_view(
                old(entity_commands).components@,
            ) + outcome.0
            &&& strs_view(unknown@) == outcome.1
        }),
{
    let tags = component_tags(object_data);
    let ghost tv = strs_view(tags@);
    let mut unknown: Vec<String> = Vec::new();
    let mut j: usize = 0;
    let ghost comps0 = comps_view(entity_commands.components@);
    let ghost goal = spec_hydrate_tags(registry.hydrators@, object_data@, tv, 0);
    proof {
        assert(comps_view(entity_commands.components@) =~= comps0 + Seq::<SpecComponent>::empty());
        assert(strs_view(unknown@) =~= Seq::<Seq<char>>::empty());
    }
    while j < tags.len()
        invariant
            j <= tv.len(),
            tv == strs_view(tags@),
            goal == spec_hydrate_tags(registry.hydrators@, object_data@, tv, 0),
            ({
                let rest = spec_hydrate_tags(registry.hydrators@, object_data@, tv, j as int);
                &&& goal.0 =~= comps_view(entity_commands.components@).skip(comps0.len() as int)
                    + rest.0
                &&& comps_view(entity_commands.components@).take(comps0.len() as int) =~= comps0
                &&& comps0.len() <= comps_view(entity_commands.components@).len()
                &&& goal.1 =~= strs_view(unknown@) + rest.1
            }),
        decreases tv.len() - j,
    {
        proof {
            assert(tv[j as int] == tags@[j as int]@);
        }
        let ghost comps_before = comps_view(entity_commands.components@);
        let ghost unknown_before = strs_view(unknown@);
        let hydrated = registry.hydrate_entity(
            entity_commands,
            object_data,
            tags[j].as_str(),
        );
        if !hydrated {
            unknown.push(string_clone(&tags[j]));
            proof {
                assert(strs_view(unknown@) =~= unknown_before.push(tv[j as int]));
            }
        }
        j = j + 1;
        proof {
            let rest = spec_hydrate_tags(registry.hydrators@, object_data@, tv, j as int);
            assert(comps_view(entity_commands.components@).take(comps0.len() as int) =~= comps0);
            assert(goal.0 =~= comps_view(entity_commands.components@).skip(comps0.len() as int)
                + rest.0);
            assert(goal.1 =~= strs_view(unknown@) + rest.1);
        }
    }
    proof {
        assert(comps_view(entity_commands.components@) =~= comps0 + comps_view(
            entity_commands.components@,
        ).skip(comps0.len() as int));
        assert(comps_view(entity_commands.components@).skip(comps0.len() as int) + Seq::<
            SpecComponent,
        >::empty() =~= comps_view(entity_commands.components@).skip(comps0.len() as int));
        assert(strs_view(unknown@) + Seq::<Seq<char>>::empty() =~= strs_view(unknown@));
    }
    unknown
}

fn string_clone(s: &String) -> (r: String)
    ensures
        r@ == s@,
{
    s.clone()
}

} // verus!
