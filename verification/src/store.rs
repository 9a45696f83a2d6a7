//! The asset cache and the map-loading state machine.
//!
//! The store keeps every raw asset that has finished loading, keyed by its
//! project-relative path.  The tracker is created with the list of top-level
//! map paths and polled once per tick: it moves from `Loading` to `Done`,
//! once and irreversibly, exactly when every map's whole transitive chain —
//! the map, its spritesheet, that sheet's image, and every object's
//! template, the template's spritesheet and that sheet's image — is in the
//! store.  No partial readiness is ever exposed.

use vstd::prelude::*;

verus! {

use crate::loaders::RawMapData;
use crate::loaders::SpecObjRef;
use crate::loaders::SpecRawMap;
use crate::loaders::SpecSheet;
use crate::loaders::SpecTemplate;
use crate::loaders::SpritesheetData;
use crate::loaders::TemplateData;
use crate::text::str_eq;

// ---------------------------------------------------------------------------
// Keyed entries
// ---------------------------------------------------------------------------

/// The position of the first entry keyed `key`, at or after `i`.
pub open spec fn spec_find_key<V>(entries: Seq<(String, V)>, key: Seq<char>, i: int) -> Option<int>
    decreases entries.len() - i,
{
    if i < 0 || i >= entries.len() {
        None
    } else if entries[i].0@ == key {
        Some(i)
    } else {
        spec_find_key(entries, key, i + 1)
    }
}

#[verifier::loop_isolation(false)]
pub fn find_key<V>(entries: &Vec<(String, V)>, key: &str) -> (r: Option<usize>)
    ensures
        match r {
            Some(i) => i < entries@.len() && spec_find_key(entries@, key@, 0) == Some(i as int),
            None => spec_find_key(entries@, key@, 0) is None,
        },
{
    let mut i: usize = 0;
    while i < entries.len()
        invariant
            i <= entries@.len(),
            spec_find_key(entries@, key@, 0) == spec_find_key(entries@, key@, i as int),
        decreases entries@.len() - i,
    {
        if str_eq(entries[i].0.as_str(), key) {
            return Some(i);
        }
        i = i + 1;
    }
    None
}

/// A found entry indeed carries the key looked for.
proof fn lemma_find_key_found<V>(entries: Seq<(String, V)>, key: Seq<char>, i: int)
    ensures
        spec_find_key(entries, key, i) matches Some(k) ==> i <= k < entries.len()
            && entries[k].0@ == key,
    decreases entries.len() - i,
{
    if 0 <= i < entries.len() && entries[i].0@ != key {
        lemma_find_key_found(entries, key, i + 1);
    }
}

/// Updating the value under an existing key leaves every lookup position
/// unchanged.
proof fn lemma_find_key_update<V>(
    entries: Seq<(String, V)>,
    at: int,
    e: (String, V),
    key: Seq<char>,
    i: int,
)
    requires
        0 <= at < entries.len(),
        e.0@ == entries[at].0@,
    ensures
        spec_find_key(entries.update(at, e), key, i) == spec_find_key(entries, key, i),
    decreases entries.len() - i,
{
    if 0 <= i < entries.len() {
        assert(entries.update(at, e)[i].0@ == entries[i].0@);
        lemma_find_key_update(entries, at, e, key, i + 1);
    }
}

/// Pushing an entry does not disturb the lookup of other keys, and makes an
/// absent key found at the end.
proof fn lemma_find_key_push<V>(entries: Seq<(String, V)>, e: (String, V), key: Seq<char>, i: int)
    requires
        0 <= i <= entries.len(),
    ensures
        spec_find_key(entries, key, i) matches Some(k) ==> spec_find_key(
            entries.push(e),
            key,
            i,
        ) == Some(k),
        spec_find_key(entries, key, i) is None && e.0@ == key ==> spec_find_key(
            entries.push(e),
            key,
            i,
        ) == Some(entries.len() as int),
        spec_find_key(entries, key, i) is None && e.0@ != key ==> spec_find_key(
            entries.push(e),
            key,
            i,
        ) is None,
    decreases entries.len() - i,
{
    if i < entries.len() {
        assert(entries.push(e)[i].0@ == entries[i].0@);
        lemma_find_key_push(entries, e, key, i + 1);
    } else {
        assert(entries.push(e)[i].0@ == e.0@);
        if e.0@ != key {
            assert(spec_find_key(entries.push(e), key, i + 1) is None);
        }
    }
}

/// The view of the value stored under `key`.
pub open spec fn spec_assoc<V: View>(entries: Seq<(String, V)>, key: Seq<char>) -> Option<V::V> {
    match spec_find_key(entries, key, 0) {
        Some(i) => Some(entries[i].1@),
        None => None,
    }
}

/// Stores `v` under `path`: a later store under the same path replaces the
/// earlier one, every other path keeps its value.
pub fn upsert<V: View>(entries: &mut Vec<(String, V)>, path: String, v: V)
    ensures
        spec_assoc(final(entries)@, path@) == Some(v@),
        forall|p: Seq<char>|
            p != path@ ==> spec_assoc(final(entries)@, p) == spec_assoc(old(entries)@, p),
{
    let ghost before = entries@;
    match find_key(entries, path.as_str()) {
        Some(i) => {
            entries.remove(i);
            entries.insert(i, (path, v));
            proof {
                lemma_find_key_found(before, path@, 0);
                assert(entries@ =~= before.update(i as int, entries@[i as int]));
                assert(entries@[i as int].0@ == path@);
                assert forall|p: Seq<char>| true implies spec_find_key(entries@, p, 0)
                    == spec_find_key(before, p, 0) by {
                    lemma_find_key_update(before, i as int, entries@[i as int], p, 0);
                    assert(before.update(i as int, entries@[i as int]) =~= entries@);
                }
                assert forall|p: Seq<char>| p != path@ implies spec_assoc(entries@, p)
                    == spec_assoc(before, p) by {
                    lemma_find_key_found(before, p, 0);
                }
            }
        },
        None => {
            entries.push((path, v));
            proof {
                let last = entries@.last();
                assert(entries@ =~= before.push(last));
                assert forall|p: Seq<char>| p != path@ implies spec_assoc(entries@, p)
                    == spec_assoc(before, p) by {
                    lemma_find_key_push(before, last, p, 0);
                    lemma_find_key_found(before, p, 0);
                }
                lemma_find_key_push(before, last, path@, 0);
            }
        },
    }
}

// ---------------------------------------------------------------------------
// The store
// ---------------------------------------------------------------------------

/// The cache of raw assets that have finished loading, each keyed by its
/// project-relative path.  An image has no parsed content of its own: the
/// store only records that it is present.
pub struct AssetStore {
    pub maps: Vec<(String, RawMapData)>,
    pub sheets: Vec<(String, SpritesheetData)>,
    pub templates: Vec<(String, TemplateData)>,
    pub images: Vec<String>,
}

/// The raw map stored under `path`.
pub open spec fn spec_map_of(store: &AssetStore, path: Seq<char>) -> Option<SpecRawMap> {
    spec_assoc(store.maps@, path)
}

/// The spritesheet stored under `path`.
pub open spec fn spec_sheet_of(store: &AssetStore, path: Seq<char>) -> Option<SpecSheet> {
    spec_assoc(store.sheets@, path)
}

/// The template stored under `path`.
pub open spec fn spec_template_of(store: &AssetStore, path: Seq<char>) -> Option<SpecTemplate> {
    spec_assoc(store.templates@, path)
}

/// Whether the image at `path` has finished loading.
pub open spec fn spec_has_image(images: Seq<String>, path: Seq<char>, i: int) -> bool
    decreases images.len() - i,
{
    if i < 0 || i >= images.len() {
        false
    } else if images[i]@ == path {
        true
    } else {
        spec_has_image(images, path, i + 1)
    }
}

proof fn lemma_has_image_push(images: Seq<String>, e: String, path: Seq<char>, i: int)
    requires
        0 <= i <= images.len(),
    ensures
        spec_has_image(images.push(e), path, i) == (spec_has_image(images, path, i) || e@
            == path),
    decreases images.len() - i,
{
    if i < images.len() {
        assert(images.push(e)[i]@ == images[i]@);
        lemma_has_image_push(images, e, path, i + 1);
    } else {
        assert(images.push(e)[i]@ == e@);
        if e@ != path {
            assert(spec_has_image(images.push(e), path, i + 1) == false);
        }
    }
}

impl AssetStore {
    /// An empty store.
    pub fn new() -> (s: AssetStore)
        ensures
            forall|p: Seq<char>| spec_map_of(&s, p) is None,
            forall|p: Seq<char>| spec_sheet_of(&s, p) is None,
            forall|p: Seq<char>| spec_template_of(&s, p) is None,
            forall|p: Seq<char>| !spec_has_image(s.images@, p, 0),
    {
        AssetStore {
            maps: Vec::new(),
            sheets: Vec::new(),
            templates: Vec::new(),
            images: Vec::new(),
        }
    }

    /// Stores a loaded raw map under its path; a later load of the same
    /// path replaces the earlier one.
    pub fn insert_map(&mut self, path: String, m: RawMapData)
        ensures
            spec_map_of(final(self), path@) == Some(m@),
            forall|p: Seq<char>|
                p != path@ ==> spec_map_of(final(self), p) == spec_map_of(old(self), p),
            final(self).sheets@ == old(self).sheets@,
            final(self).templates@ == old(self).templates@,
            final(self).images@ == old(self).images@,
    {
        upsert(&mut self.maps, path, m);
    }

    /// Stores a loaded spritesheet under its path.
    pub fn insert_sheet(&mut self, path: String, sh: SpritesheetData)
        ensures
            spec_sheet_of(final(self), path@) == Some(sh@),
            forall|p: Seq<char>|
                p != path@ ==> spec_sheet_of(final(self), p) == spec_sheet_of(old(self), p),
            final(self).maps@ == old(self).maps@,
            final(self).templates@ == old(self).templates@,
            final(self).images@ == old(self).images@,
    {
        upsert(&mut self.sheets, path, sh);
    }

    /// Stores a loaded template under its path.
    pub fn insert_template(&mut self, path: String, t: TemplateData)
        ensures
            spec_template_of(final(self), path@) == Some(t@),
            forall|p: Seq<char>|
                p != path@ ==> spec_template_of(final(self), p) == spec_template_of(old(self), p),
            final(self).maps@ == old(self).maps@,
            final(self).sheets@ == old(self).sheets@,
            final(self).images@ == old(self).images@,
    {
        upsert(&mut self.templates, path, t);
    }

    /// Records that the image at `path` has finished loading.
    pub fn insert_image(&mut self, path: String)
        ensures
            forall|p: Seq<char>|
                spec_has_image(final(self).images@, p, 0) == (spec_has_image(
                    old(self).images@,
                    p,
                    0,
                ) || p == path@),
            final(self).maps@ == old(self).maps@,
            final(self).sheets@ == old(self).sheets@,
            final(self).templates@ == old(self).templates@,
    {
        let ghost before = self.images@;
        let ghost pv = path@;
        self.images.push(path);
        proof {
            assert forall|p: Seq<char>| true implies spec_has_image(self.images@, p, 0) == (
            spec_has_image(before, p, 0) || p == pv) by {
                assert(self.images@ =~= before.push(self.images@.last()));
                lemma_has_image_push(before, self.images@.last(), p, 0);
            }
        }
    }

    /// The raw map stored under `path`, if it has finished loading.
    pub fn get_map(&self, path: &str) -> (r: Option<&RawMapData>)
        ensures
            match r {
                Some(m) => spec_map_of(self, path@) == Some(m@),
                None => spec_map_of(self, path@) is None,
            },
    {
        match find_key(&self.maps, path) {
            Some(i) => Some(&self.maps[i].1),
            None => None,
        }
    }

    /// The spritesheet stored under `path`, if it has finished loading.
    pub fn get_sheet(&self, path: &str) -> (r: Option<&SpritesheetData>)
        ensures
            match r {
                Some(sh) => spec_sheet_of(self, path@) == Some(sh@),
                None => spec_sheet_of(self, path@) is None,
            },
    {
        match find_key(&self.sheets, path) {
            Some(i) => Some(&self.sheets[i].1),
            None => None,
        }
    }

    /// The template stored under `path`, if it has finished loading.
    pub fn get_template(&self, path: &str) -> (r: Option<&TemplateData>)
        ensures
            match r {
                Some(t) => spec_template_of(self, path@) == Some(t@),
                None => spec_template_of(self, path@) is None,
            },
    {
        match find_key(&self.templates, path) {
            Some(i) => Some(&self.templates[i].1),
            None => None,
        }
    }

    /// Whether the image at `path` has finished loading.
    #[verifier::loop_isolation(false)]
    pub fn has_image(&self, path: &str) -> (r: bool)
        ensures
            r == spec_has_image(self.images@, path@, 0),
    {
        let mut i: usize = 0;
        while i < self.images.len()
            invariant
                i <= self.images@.len(),
                spec_has_image(self.images@, path@, 0) == spec_has_image(
                    self.images@,
                    path@,
                    i as int,
                ),
            decreases self.images@.len() - i,
        {
            if str_eq(self.images[i].as_str(), path) {
                return true;
            }
            i = i + 1;
        }
        false
    }
}

// ---------------------------------------------------------------------------
// Readiness of the transitive closure
// ---------------------------------------------------------------------------

/// A spritesheet reference is ready when the sheet itself and its image
/// have both finished loading.
pub open spec fn spec_sheet_ready(store: &AssetStore, sheet_path: Seq<char>) -> bool {
    match spec_sheet_of(store, sheet_path) {
        None => false,
        Some(sh) => spec_has_image(store.images@, sh.sprite, 0),
    }
}

/// An object is ready when its template, the template's spritesheet and
/// that sheet's image have all finished loading.
pub open spec fn spec_object_ready(store: &AssetStore, o: SpecObjRef) -> bool {
    match spec_template_of(store, o.template) {
        None => false,
        Some(t) => spec_sheet_ready(store, t.sprite_sheet),
    }
}

/// A map is ready when the map itself, its own spritesheet chain, and every
/// one of its objects are ready.
pub open spec fn spec_map_ready(store: &AssetStore, path: Seq<char>) -> bool {
    match spec_map_of(store, path) {
        None => false,
        Some(m) => spec_sheet_ready(store, m.sprite_sheet) && forall|k: int|
            0 <= k < m.objects.len() ==> spec_object_ready(store, #[trigger] m.objects[k]),
    }
}

/// The view of a path list.
pub open spec fn paths_view(paths: Seq<String>) -> Seq<Seq<char>> {
    paths.map_values(|p: String| p@)
}

/// The whole closure is ready when every requested map is ready.
pub open spec fn spec_closure_ready(store: &AssetStore, paths: Seq<Seq<char>>) -> bool {
    forall|k: int| 0 <= k < paths.len() ==> spec_map_ready(store, #[trigger] paths[k])
}

fn sheet_ready(store: &AssetStore, sheet_path: &str) -> (r: bool)
    ensures
        r == spec_sheet_ready(store, sheet_path@),
{
    match store.get_sheet(sheet_path) {
        None => false,
        Some(sh) => store.has_image(sh.sprite.as_str()),
    }
}

#[verifier::loop_isolation(false)]
fn map_ready(store: &AssetStore, path: &str) -> (r: bool)
    ensures
        r == spec_map_ready(store, path@),
{
    let m = match store.get_map(path) {
        None => {
            return false;
        },
        Some(m) => m,
    };
    if !sheet_ready(store, m.sprite_sheet.as_str()) {
        return false;
    }
    let mut k: usize = 0;
    while k < m.objects.len()
        invariant
            k <= m.objects@.len(),
            forall|t: int| 0 <= t < k ==> spec_object_ready(store, #[trigger] m@.objects[t]),
        decreases m.objects@.len() - k,
    {
        proof {
            assert(m@.objects[k as int] == m.objects@[k as int]@);
        }
        let o = &m.objects[k];
        let t = match store.get_template(o.template.as_str()) {
            None => {
                proof {
                    assert(!spec_object_ready(store, m@.objects[k as int]));
                }
                return false;
            },
            Some(t) => t,
        };
        if !sheet_ready(store, t.sprite_sheet.as_str()) {
            proof {
                assert(!spec_object_ready(store, m@.objects[k as int]));
            }
            return false;
        }
        proof {
            assert(spec_object_ready(store, m@.objects[k as int]));
        }
        k = k + 1;
    }
    true
}

/// Whether every requested map's transitive chain has finished loading.
#[verifier::loop_isolation(false)]
pub fn closure_ready(store: &AssetStore, paths: &Vec<String>) -> (r: bool)
    ensures
        r == spec_closure_ready(store, paths_view(paths@)),
{
    let mut k: usize = 0;
    while k < paths.len()
        invariant
            k <= paths@.len(),
            forall|t: int|
                0 <= t < k ==> spec_map_ready(store, #[trigger] paths_view(paths@)[t]),
        decreases paths@.len() - k,
    {
        proof {
            assert(paths_view(paths@)[k as int] == paths@[k as int]@);
        }
        if !map_ready(store, paths[k].as_str()) {
            return false;
        }
        k = k + 1;
    }
    true
}

// ---------------------------------------------------------------------------
// The state machine
// ---------------------------------------------------------------------------

/// The phase of the map-loading session.
#[derive(Clone, Copy, Debug, PartialEq, Eq, Structural)]
pub enum MapLoadState {
    Loading,
    Done,
}

/// The dependency tracker: the requested map paths and the loading phase.
/// The phase moves from `Loading` to `Done` exactly once, when the whole
/// transitive closure of the requested maps is ready, and never moves back.
pub struct MapTracker {
    pub map_paths: Vec<String>,
    pub state: MapLoadState,
}

/// Begins a loading session for the given map paths.
pub fn load_maps(paths: Vec<String>) -> (t: MapTracker)
    ensures
        t.map_paths@ == paths@,
        t.state == MapLoadState::Loading,
{
    MapTracker { map_paths: paths, state: MapLoadState::Loading }
}

impl MapTracker {
    /// Whether the whole closure has been observed ready.
    pub fn is_done(&self) -> (r: bool)
        ensures
            r == (self.state == MapLoadState::Done),
    {
        match self.state {
            MapLoadState::Done => true,
            MapLoadState::Loading => false,
        }
    }

    /// One polling step: observes the store and moves to `Done` exactly
    /// when every requested map's transitive chain is ready; once `Done`,
    /// stays `Done`.  No partial progress is recorded.
    pub fn poll(&mut self, store: &AssetStore)
        ensures
            final(self).map_paths@ == old(self).map_paths@,
            final(self).state == if old(self).state == MapLoadState::Done || spec_closure_ready(
                store,
                paths_view(old(self).map_paths@),
            ) {
                MapLoadState::Done
            } else {
                MapLoadState::Loading
            },
    {
        match self.state {
            MapLoadState::Done => {
            },
            MapLoadState::Loading => {
                if closure_ready(store, &self.map_paths) {
                    self.state = MapLoadState::Done;
                }
            },
        }
    }
}

} // verus!
