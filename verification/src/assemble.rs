//! Map resolution: once every dependency is loaded, each raw map is walked
//! and turned into a self-contained, render-ready description.
//!
//! Every object's template is looked up, the template's default properties
//! are merged with the object's instance properties — an instance property
//! replaces the default of the same name in place, otherwise it is appended
//! — and the derived depth is read from the property named `z`.  A template
//! or spritesheet that never resolved is a fatal assembly error.

use vstd::prelude::*;

verus! {

use crate::loaders::SpecObjRef;
use crate::loaders::SpecSheet;
use crate::loaders::SpritesheetData;
use crate::property::props_view;
use crate::property::spec_find_prop;
use crate::property::spec_find_prop_from;
use crate::property::find_property;
use crate::property::ObjectProperty;
use crate::property::SpecProp;
use crate::store::paths_view;
use crate::store::spec_map_of;
use crate::store::spec_sheet_of;
use crate::store::spec_template_of;
use crate::store::AssetStore;
use vstd::string::StringExecFns;

// ---------------------------------------------------------------------------
// Atlas layout
// ---------------------------------------------------------------------------

/// The tile-atlas layout computed from a spritesheet's metrics: a single row
/// of `columns` square tiles of `tile_size` pixels.  Sheets with the same
/// metrics share the same layout, so a host may cache it by these two
/// fields.
#[derive(Clone, Copy, Debug, PartialEq, Eq, Structural)]
pub struct AtlasLayout {
    pub tile_size: u8,
    pub columns: u32,
}

/// The mathematical image of a [`TextureAtlasData`].
#[verifier::ext_equal]
pub ghost struct SpecAtlas {
    pub tile_width: u8,
    pub columns: u32,
    pub sprite: Seq<char>,
    pub texture_atlas_layout: AtlasLayout,
}

/// A resolved spritesheet: its metrics, its image's project-relative path,
/// and its computed atlas layout.
#[derive(Debug)]
pub struct TextureAtlasData {
    pub tile_width: u8,
    pub columns: u32,
    pub sprite: String,
    pub texture_atlas_layout: AtlasLayout,
}

impl View for TextureAtlasData {
    type V = SpecAtlas;

    open spec fn view(&self) -> SpecAtlas {
        SpecAtlas {
            tile_width: self.tile_width,
            columns: self.columns,
            sprite: self.sprite@,
            texture_atlas_layout: self.texture_atlas_layout,
        }
    }
}

/// The resolved spritesheet built from a loaded sheet.
pub open spec fn spec_atlas_of(sh: SpecSheet) -> SpecAtlas {
    SpecAtlas {
        tile_width: sh.tile_width,
        columns: sh.columns,
        sprite: sh.sprite,
        texture_atlas_layout: AtlasLayout { tile_size: sh.tile_width, columns: sh.columns },
    }
}

fn atlas_of(sh: &SpritesheetData) -> (r: TextureAtlasData)
    ensures
        r@ == spec_atlas_of(sh@),
{
    TextureAtlasData {
        tile_width: sh.tile_width,
        columns: sh.columns,
        sprite: sh.sprite.clone(),
        texture_atlas_layout: AtlasLayout { tile_size: sh.tile_width, columns: sh.columns },
    }
}

// ---------------------------------------------------------------------------
// Property merging
// ---------------------------------------------------------------------------

/// Merges one instance property into the list: it replaces the first
/// property of the same name in place, or is appended when none exists.
pub open spec fn spec_merge_one(acc: Seq<SpecProp>, p: SpecProp) -> Seq<SpecProp> {
    match spec_find_prop_from(acc, p.name, 0) {
        Some(i) => acc.update(i, p),
        None => acc.push(p),
    }
}

/// Merges the instance properties from position `j` on into the defaults.
pub open spec fn spec_merge(defaults: Seq<SpecProp>, overrides: Seq<SpecProp>, j: int) -> Seq<
    SpecProp,
>
    decreases overrides.len() - j,
{
    if j < 0 || j >= overrides.len() {
        defaults
    } else {
        spec_merge(spec_merge_one(defaults, overrides[j]), overrides, j + 1)
    }
}

/// Merges template default properties with instance overrides: an override
/// replaces the default of the same name in place, preserving the original
/// order; an override without a matching default is appended at the end.
#[verifier::loop_isolation(false)]
pub fn merge_properties(defaults: &Vec<ObjectProperty>, overrides: &Vec<ObjectProperty>) -> (r: Vec<
    ObjectProperty,
>)
    ensures
        props_view(r@) == spec_merge(props_view(defaults@), props_view(overrides@), 0),
{
    let ghost dv = props_view(defaults@);
    let ghost ov = props_view(overrides@);
    let mut acc: Vec<ObjectProperty> = Vec::new();
    let mut i: usize = 0;
    while i < defaults.len()
        invariant
            i <= defaults@.len(),
            props_view(acc@) == dv.take(i as int),
        decreases defaults@.len() - i,
    {
        proof {
            assert(dv[i as int] == defaults@[i as int]@);
        }
        acc.push(defaults[i].duplicate());
        i = i + 1;
        proof {
            assert(props_view(acc@) =~= dv.take(i as int));
        }
    }
    proof {
        assert(dv.take(dv.len() as int) =~= dv);
    }
    let mut j: usize = 0;
    while j < overrides.len()
        invariant
            j <= overrides@.len(),
            spec_merge(dv, ov, 0) == spec_merge(props_view(acc@), ov, j as int),
        decreases overrides@.len() - j,
    {
        proof {
            assert(ov[j as int] == overrides@[j as int]@);
        }
        let p = overrides[j].duplicate();
        let ghost before = props_view(acc@);
        match find_property(&acc, overrides[j].name.as_str()) {
            Some(at) => {
                acc.remove(at);
                acc.insert(at, p);
                proof {
                    assert(props_view(acc@) =~= before.update(at as int, ov[j as int]));
                    assert(spec_merge_one(before, ov[j as int]) == props_view(acc@));
                }
            },
            None => {
                acc.push(p);
                proof {
                    assert(props_view(acc@) =~= before.push(ov[j as int]));
                    assert(spec_merge_one(before, ov[j as int]) == props_view(acc@));
                }
            },
        }
        j = j + 1;
    }
    proof {
        assert(spec_merge(props_view(acc@), ov, ov.len() as int) == props_view(acc@));
    }
    acc
}

proof fn lemma_find_prop_found(props: Seq<SpecProp>, n: Seq<char>, j: int)
    ensures
        spec_find_prop_from(props, n, j) matches Some(k) ==> j <= k < props.len() && props[k].name
            == n,
    decreases props.len() - j,
{
    if 0 <= j < props.len() && props[j].name != n {
        lemma_find_prop_found(props, n, j + 1);
    }
}

proof fn lemma_find_prop_update(props: Seq<SpecProp>, at: int, p: SpecProp, n: Seq<char>, j: int)
    requires
        0 <= at < props.len(),
        props[at].name == p.name,
    ensures
        spec_find_prop_from(props.update(at, p), n, j) == spec_find_prop_from(props, n, j),
    decreases props.len() - j,
{
    if 0 <= j < props.len() {
        assert(props.update(at, p)[j].name == props[j].name);
        lemma_find_prop_update(props, at, p, n, j + 1);
    }
}

proof fn lemma_find_prop_push(props: Seq<SpecProp>, p: SpecProp, n: Seq<char>, j: int)
    requires
        0 <= j <= props.len(),
    ensures
        spec_find_prop_from(props, n, j) matches Some(k) ==> spec_find_prop_from(
            props.push(p),
            n,
            j,
        ) == Some(k),
        spec_find_prop_from(props, n, j) is None && p.name == n ==> spec_find_prop_from(
            props.push(p),
            n,
            j,
        ) == Some(props.len() as int),
        spec_find_prop_from(props, n, j) is None && p.name != n ==> spec_find_prop_from(
            props.push(p),
            n,
            j,
        ) is None,
    decreases props.len() - j,
{
    if j < props.len() {
        assert(props.push(p)[j].name == props[j].name);
        lemma_find_prop_push(props, p, n, j + 1);
    } else {
        assert(props.push(p)[j].name == p.name);
        if p.name != n {
            assert(spec_find_prop_from(props.push(p), n, j + 1) is None);
        }
    }
}

/// Merging one override decides every lookup: the override itself under its
/// own name, the unchanged list under any other.
proof fn lemma_merge_one_lookup(props: Seq<SpecProp>, p: SpecProp, n: Seq<char>)
    ensures
        spec_find_prop(spec_merge_one(props, p), n) == if p.name == n {
            Some(p)
        } else {
            spec_find_prop(props, n)
        },
{
    lemma_find_prop_found(props, p.name, 0);
    lemma_find_prop_found(props, n, 0);
    match spec_find_prop_from(props, p.name, 0) {
        Some(i) => {
            lemma_find_prop_update(props, i, p, n, 0);
            lemma_find_prop_found(props.update(i, p), n, 0);
        },
        None => {
            lemma_find_prop_push(props, p, n, 0);
        },
    }
}

/// The last override named `n` at or after position `j`, if any.
pub open spec fn spec_last_override(overrides: Seq<SpecProp>, n: Seq<char>, j: int) -> Option<
    SpecProp,
>
    decreases overrides.len() - j,
{
    if j < 0 || j >= overrides.len() {
        None
    } else {
        let rest = spec_last_override(overrides, n, j + 1);
        if rest is Some {
            rest
        } else if overrides[j].name == n {
            Some(overrides[j])
        } else {
            None
        }
    }
}

/// The merge rule, seen through lookups: after the merge, any name resolves
/// to the last instance override of that name, and to the template default
/// when no override carries it.
pub proof fn lemma_merge_lookup(
    defaults: Seq<SpecProp>,
    overrides: Seq<SpecProp>,
    n: Seq<char>,
    j: int,
)
    requires
        0 <= j <= overrides.len(),
    ensures
        spec_find_prop(spec_merge(defaults, overrides, j), n) == (match spec_last_override(
            overrides,
            n,
            j,
        ) {
            Some(p) => Some(p),
            None => spec_find_prop(defaults, n),
        }),
    decreases overrides.len() - j,
{
    if j < overrides.len() {
        lemma_merge_one_lookup(defaults, overrides[j], n);
        lemma_merge_lookup(spec_merge_one(defaults, overrides[j]), overrides, n, j + 1);
    }
}

/// The merge rule keeps the template's layout: every default keeps its
/// position and its name; overrides without a matching default only extend
/// the list.
pub proof fn lemma_merge_preserves_layout(
    defaults: Seq<SpecProp>,
    overrides: Seq<SpecProp>,
    j: int,
)
    requires
        0 <= j <= overrides.len(),
    ensures
        spec_merge(defaults, overrides, j).len() >= defaults.len(),
        forall|i: int|
            0 <= i < defaults.len() ==> #[trigger] spec_merge(defaults, overrides, j)[i].name
                == defaults[i].name,
    decreases overrides.len() - j,
{
    if j < overrides.len() {
        let p = overrides[j];
        let merged = spec_merge_one(defaults, p);
        lemma_find_prop_found(defaults, p.name, 0);
        assert(merged.len() >= defaults.len());
        assert forall|i: int| 0 <= i < defaults.len() implies #[trigger] merged[i].name
            == defaults[i].name by {
            match spec_find_prop_from(defaults, p.name, 0) {
                Some(at) => {
                    assert(defaults.update(at, p)[i].name == defaults[i].name);
                },
                None => {
                    assert(defaults.push(p)[i].name == defaults[i].name);
                },
            }
        }
        lemma_merge_preserves_layout(merged, overrides, j + 1);
    }
}

/// The derived depth of an object: the float text of the property named
/// `z`, or zero when there is none.  A `z` property of another type yields
/// zero through its default float slot.
pub open spec fn spec_z_of(props: Seq<SpecProp>) -> Seq<char> {
    match spec_find_prop_from(props, "z"@, 0) {
        Some(i) => props[i].value_f,
        None => seq!['0'],
    }
}

fn z_of(props: &Vec<ObjectProperty>) -> (r: String)
    ensures
        r@ == spec_z_of(props_view(props@)),
{
    match find_property(props, "z") {
        Some(i) => props[i].value_f.clone(),
        None => {
            let z = String::from_str("0");
            proof {
                reveal_strlit("0");
                assert(z@ =~= seq!['0']);
            }
            z
        },
    }
}

// ---------------------------------------------------------------------------
// Resolved data
// ---------------------------------------------------------------------------

/// The mathematical image of an [`ObjectData`].
#[verifier::ext_equal]
pub ghost struct SpecObjData {
    pub obj_type: Seq<char>,
    pub name: Seq<char>,
    pub id: u16,
    pub sprite_sheet: SpecAtlas,
    pub sprite_idx: u32,
    pub x: u16,
    pub y: u16,
    pub z: Seq<char>,
    pub properties: Seq<SpecProp>,
}

/// One fully resolved placed object: its merged properties, its derived
/// depth as float text, and its template's resolved spritesheet.
#[derive(Debug)]
pub struct ObjectData {
    pub obj_type: String,
    pub name: String,
    pub id: u16,
    pub sprite_sheet: TextureAtlasData,
    pub sprite_idx: u32,
    pub x: u16,
    pub y: u16,
    pub z: String,
    pub properties: Vec<ObjectProperty>,
}

impl View for ObjectData {
    type V = SpecObjData;

    open spec fn view(&self) -> SpecObjData {
        SpecObjData {
            obj_type: self.obj_type@,
            name: self.name@,
            id: self.id,
            sprite_sheet: self.sprite_sheet@,
            sprite_idx: self.sprite_idx,
            x: self.x,
            y: self.y,
            z: self.z@,
            properties: props_view(self.properties@),
        }
    }
}

/// The view of a resolved object list.
pub open spec fn objdata_view(v: Seq<ObjectData>) -> Seq<SpecObjData> {
    v.map_values(|o: ObjectData| o@)
}

/// The mathematical image of a [`MapData`].
#[verifier::ext_equal]
pub ghost struct SpecMapData {
    pub width: usize,
    pub height: usize,
    pub tile_width: u16,
    pub data: Seq<u8>,
    pub objects: Seq<SpecObjData>,
    pub sprite_sheet: SpecAtlas,
}

/// One fully resolved map: the grid copied from the raw map, the resolved
/// objects in their original order, and the map's own resolved spritesheet.
#[derive(Debug)]
pub struct MapData {
    pub width: usize,
    pub height: usize,
    pub tile_width: u16,
    pub data: Vec<u8>,
    pub objects: Vec<ObjectData>,
    pub sprite_sheet: TextureAtlasData,
}

impl View for MapData {
    type V = SpecMapData;

    open spec fn view(&self) -> SpecMapData {
        SpecMapData {
            width: self.width,
            height: self.height,
            tile_width: self.tile_width,
            data: self.data@,
            objects: objdata_view(self.objects@),
            sprite_sheet: self.sprite_sheet@,
        }
    }
}

/// The view of a resolved map list.
pub open spec fn mapdata_view(v: Seq<MapData>) -> Seq<SpecMapData> {
    v.map_values(|m: MapData| m@)
}

/// Why assembly failed: a map, template or spritesheet that never resolved,
/// named by its project-relative path.
#[derive(Debug)]
pub enum AssembleError {
    UnresolvedDependency(String),
}

impl View for AssembleError {
    type V = Seq<char>;

    open spec fn view(&self) -> Seq<char> {
        match self {
            AssembleError::UnresolvedDependency(p) => p@,
        }
    }
}

// ---------------------------------------------------------------------------
// Assembly
// ---------------------------------------------------------------------------

/// Resolves one placed object against the store; the error names the
/// dependency that never resolved.
pub open spec fn spec_assemble_object(store: &AssetStore, o: SpecObjRef) -> Result<
    SpecObjData,
    Seq<char>,
> {
    match spec_template_of(store, o.template) {
        None => Err(o.template),
        Some(t) => match spec_sheet_of(store, t.sprite_sheet) {
            None => Err(t.sprite_sheet),
            Some(sh) => Ok(
                SpecObjData {
                    obj_type: o.obj_type,
                    name: o.name,
                    id: o.id,
                    sprite_sheet: spec_atlas_of(sh),
                    sprite_idx: t.sprite_idx,
                    x: o.x,
                    y: o.y,
                    z: spec_z_of(spec_merge(t.properties, o.properties, 0)),
                    properties: spec_merge(t.properties, o.properties, 0),
                },
            ),
        },
    }
}

fn assemble_object(store: &AssetStore, o: &crate::loaders::ObjectReference) -> (r: Result<
    ObjectData,
    AssembleError,
>)
    ensures
        match r {
            Ok(od) => spec_assemble_object(store, o@) == Ok::<SpecObjData, Seq<char>>(od@),
            Err(e) => spec_assemble_object(store, o@) == Err::<SpecObjData, Seq<char>>(e@),
        },
{
    let t = match store.get_template(o.template.as_str()) {
        Some(t) => t,
        None => {
            return Err(AssembleError::UnresolvedDependency(o.template.clone()));
        },
    };
    let sh = match store.get_sheet(t.sprite_sheet.as_str()) {
        Some(sh) => sh,
        None => {
            return Err(AssembleError::UnresolvedDependency(t.sprite_sheet.clone()));
        },
    };
    let properties = merge_properties(&t.properties, &o.properties);
    let z = z_of(&properties);
    Ok(
        ObjectData {
            obj_type: o.obj_type.clone(),
            name: o.name.clone(),
            id: o.id,
            sprite_sheet: atlas_of(sh),
            sprite_idx: t.sprite_idx,
            x: o.x,
            y: o.y,
            z,
            properties,
        },
    )
}

/// Resolves the objects of a raw map, from position `j` on.
pub open spec fn spec_assemble_objects(store: &AssetStore, objs: Seq<SpecObjRef>, j: int) -> Result<
    Seq<SpecObjData>,
    Seq<char>,
>
    decreases objs.len() - j,
{
    if j < 0 || j >= objs.len() {
        Ok(Seq::<SpecObjData>::empty())
    } else {
        match spec_assemble_object(store, objs[j]) {
            Err(e) => Err(e),
            Ok(od) => match spec_assemble_objects(store, objs, j + 1) {
                Err(e) => Err(e),
                Ok(rest) => Ok(seq![od] + rest),
            },
        }
    }
}

/// Resolves one raw map against the store.
pub open spec fn spec_assemble_map(store: &AssetStore, path: Seq<char>) -> Result<
    SpecMapData,
    Seq<char>,
> {
    match spec_map_of(store, path) {
        None => Err(path),
        Some(m) => match spec_assemble_objects(store, m.objects, 0) {
            Err(e) => Err(e),
            Ok(objects) => match spec_sheet_of(store, m.sprite_sheet) {
                None => Err(m.sprite_sheet),
                Some(sh) => Ok(
                    SpecMapData {
                        width: m.width,
                        height: m.height,
                        tile_width: m.tile_width,
                        data: m.data,
                        objects,
                        sprite_sheet: spec_atlas_of(sh),
                    },
                ),
            },
        },
    }
}

#[verifier::loop_isolation(false)]
fn assemble_map(store: &AssetStore, path: &str) -> (r: Result<MapData, AssembleError>)
    ensures
        match r {
            Ok(md) => spec_assemble_map(store, path@) == Ok::<SpecMapData, Seq<char>>(md@),
            Err(e) => spec_assemble_map(store, path@) == Err::<SpecMapData, Seq<char>>(e@),
        },
{
    let m = match store.get_map(path) {
        Some(m) => m,
        None => {
            return Err(AssembleError::UnresolvedDependency(path.to_owned()));
        },
    };
    let ghost mv = m@;
    let mut objects: Vec<ObjectData> = Vec::new();
    let mut j: usize = 0;
    proof {
        assert(objdata_view(objects@) =~= Seq::<SpecObjData>::empty());
    }
    while j < m.objects.len()
        invariant
            j <= mv.objects.len(),
            mv.objects.len() == m.objects@.len(),
            spec_assemble_objects(store, mv.objects, 0) == (match spec_assemble_objects(
                store,
                mv.objects,
                j as int,
            ) {
                Ok(rest) => Ok::<Seq<SpecObjData>, Seq<char>>(objdata_view(objects@) + rest),
                Err(e) => Err(e),
            }),
        decreases mv.objects.len() - j,
    {
        proof {
            assert(mv.objects[j as int] == m.objects@[j as int]@);
        }
        match assemble_object(store, &m.objects[j]) {
            Ok(od) => {
                let ghost before = objdata_view(objects@);
                objects.push(od);
                proof {
                    assert(objdata_view(objects@) =~= before.push(od@));
                    assert(spec_assemble_objects(store, mv.objects, j as int) matches Ok(rest)
                        ==> before + rest =~= objdata_view(objects@) + spec_assemble_objects(
                        store,
                        mv.objects,
                        j + 1,
                    )->Ok_0);
                }
            },
            Err(e) => {
                return Err(e);
            },
        }
        j = j + 1;
    }
    proof {
        assert(objdata_view(objects@) + Seq::<SpecObjData>::empty() =~= objdata_view(objects@));
    }
    let sh = match store.get_sheet(m.sprite_sheet.as_str()) {
        Some(sh) => sh,
        None => {
            return Err(AssembleError::UnresolvedDependency(m.sprite_sheet.clone()));
        },
    };
    let mut data: Vec<u8> = Vec::new();
    let mut c: usize = 0;
    while c < m.data.len()
        invariant
            c <= m.data@.len(),
            data@ == m.data@.take(c as int),
        decreases m.data@.len() - c,
    {
        data.push(m.data[c]);
        c = c + 1;
        proof {
            assert(data@ =~= m.data@.take(c as int));
        }
    }
    proof {
        assert(m.data@.take(m.data@.len() as int) =~= m.data@);
    }
    Ok(
        MapData {
            width: m.width,
            height: m.height,
            tile_width: m.tile_width,
            data,
            objects,
            sprite_sheet: atlas_of(sh),
        },
    )
}

/// Resolves the maps at the given paths, from position `j` on, in request
/// order.
pub open spec fn spec_assemble(store: &AssetStore, paths: Seq<Seq<char>>, j: int) -> Result<
    Seq<SpecMapData>,
    Seq<char>,
>
    decreases paths.len() - j,
{
    if j < 0 || j >= paths.len() {
        Ok(Seq::<SpecMapData>::empty())
    } else {
        match spec_assemble_map(store, paths[j]) {
            Err(e) => Err(e),
            Ok(md) => match spec_assemble(store, paths, j + 1) {
                Err(e) => Err(e),
                Ok(rest) => Ok(seq![md] + rest),
            },
        }
    }
}

/// The session's resolved maps, in request order, and the map the game is
/// currently on.
#[derive(Debug)]
pub struct MapServer {
    pub maps: Vec<MapData>,
    pub map_idx: usize,
}

impl MapServer {
    /// The map the game is currently on.
    pub fn get_current_map(&self) -> (r: &MapData)
        requires
            self.map_idx < self.maps@.len(),
        ensures
            r == self.maps@[self.map_idx as int],
    {
        &self.maps[self.map_idx]
    }

    /// Returns to the first map.
    pub fn go_to_first_map(&mut self)
        ensures
            final(self).maps@ == old(self).maps@,
            final(self).map_idx == 0,
    {
        self.map_idx = 0;
    }
}

/// Assembles every requested map into a fully resolved map set, in request
/// order, starting on the first map.  A map, template or spritesheet that
/// never resolved is a fatal error naming that dependency.
#[verifier::loop_isolation(false)]
pub fn assemble(store: &AssetStore, map_paths: &Vec<String>) -> (r: Result<MapServer, AssembleError>)
    ensures
        match r {
            Ok(ms) => spec_assemble(store, paths_view(map_paths@), 0) == Ok::<
                Seq<SpecMapData>,
                Seq<char>,
            >(mapdata_view(ms.maps@)) && ms.map_idx == 0,
            Err(e) => spec_assemble(store, paths_view(map_paths@), 0) == Err::<
                Seq<SpecMapData>,
                Seq<char>,
            >(e@),
        },
{
    let ghost pv = paths_view(map_paths@);
    let mut maps: Vec<MapData> = Vec::new();
    let mut j: usize = 0;
    proof {
        assert(mapdata_view(maps@) =~= Seq::<SpecMapData>::empty());
    }
    while j < map_paths.len()
        invariant
            j <= pv.len(),
            pv.len() == map_paths@.len(),
            spec_assemble(store, pv, 0) == (match spec_assemble(store, pv, j as int) {
                Ok(rest) => Ok::<Seq<SpecMapData>, Seq<char>>(mapdata_view(maps@) + rest),
                Err(e) => Err(e),
            }),
        decreases pv.len() - j,
    {
        proof {
            assert(pv[j as int] == map_paths@[j as int]@);
        }
        match assemble_map(store, map_paths[j].as_str()) {
            Ok(md) => {
                let ghost before = mapdata_view(maps@);
                maps.push(md);
                proof {
                    assert(mapdata_view(maps@) =~= before.push(md@));
                    assert(spec_assemble(store, pv, j as int) matches Ok(rest) ==> before + rest
                        =~= mapdata_view(maps@) + spec_assemble(store, pv, j + 1)->Ok_0);
                }
            },
            Err(e) => {
                return Err(e);
            },
        }
        j = j + 1;
    }
    proof {
        assert(mapdata_view(maps@) + Seq::<SpecMapData>::empty() =~= mapdata_view(maps@));
    }
    Ok(MapServer { maps, map_idx: 0 })
}

/// The floor cell at a tile coordinate, read in the top-down order the grid
/// is stored in: the row index counts down from the top of the map.
pub fn tile_data_from_coord(x: usize, y: usize, map_data: &MapData) -> (r: u8)
    requires
        y < map_data@.width,
        x + (map_data@.width - y - 1) * map_data@.width < map_data@.data.len(),
    ensures
        r == map_data@.data[x + (map_data@.width - y - 1) * map_data@.width],
{
    let n = map_data.data.len();
    let row = map_data.width - y - 1;
    proof {
        assert(row * map_data@.width < n);
    }
    let idx = x + row * map_data.width;
    map_data.data[idx]
}

} // verus!
