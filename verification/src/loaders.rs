//! The three raw asset loaders: map files, tileset (spritesheet) files and
//! object template files.
//!
//! Each loader takes the file's bytes, decodes them as UTF-8, parses the
//! markup dialect, and extracts the structured raw data.  References to
//! other asset files are resolved into project-relative paths but not
//! followed: the dependency tracker decides when the referenced assets are
//! ready.  Every missing required tag or attribute, and every value that
//! does not read as required, is a fatal load error.

use vstd::prelude::*;

verus! {

use crate::num::decimal_scaled;
use crate::num::digits_val;
use crate::num::is_plain_decimal;
use crate::num::lemma_decimal_digits;
use crate::num::lemma_digits_val_bound;
use crate::num::parse_digits_u64;
use crate::num::parse_u16_chars;
use crate::num::parse_u32_chars;
use crate::num::parse_u8_chars;
use crate::num::parse_usize_chars;
use crate::num::pow10;
use crate::num::pow10_u64;
use crate::num::spec_decimal_frac_digits;
use crate::num::spec_decimal_int_digits;
use crate::num::spec_decimal_negative;
use crate::num::spec_parse_u16;
use crate::num::spec_parse_u32;
use crate::num::spec_parse_u8;
use crate::num::spec_parse_usize;
use crate::num::spec_round_div;
use crate::num::split_decimal;
use crate::property::decode_property;
use crate::property::spec_decode_property;
use crate::property::props_view;
use crate::property::DecodeError;
use crate::property::ObjectProperty;
use crate::property::SpecProp;
use crate::resolve::local_path_to_project_path;
use crate::resolve::spec_resolve;
use crate::resolve::split_char;
use crate::resolve::split_chars;
use crate::resolve::segs_view;
use crate::text::chars_of;
use crate::text::string_from_utf8;
use crate::xml::is_ws_char;
use crate::xml::parse_document;
use crate::xml::spec_attr_of;
use crate::xml::spec_children;
use crate::xml::spec_find_elem;
use crate::xml::spec_find_in;
use crate::xml::spec_parse;
use crate::xml::Document;
use crate::xml::SpecElem;
use vstd::utf8::decode_utf8;
use vstd::utf8::valid_utf8;

// ---------------------------------------------------------------------------
// Errors and data
// ---------------------------------------------------------------------------

/// The mathematical image of a [`LoadError`].
#[verifier::ext_equal]
pub ghost enum SpecLoadErr {
    Encoding,
    Malformed,
    Missing(Seq<char>),
    Bad(Seq<char>),
    Prop(DecodeError),
}

/// Why a raw asset failed to load.
#[derive(Debug)]
pub enum LoadError {
    /// The file's bytes are not valid UTF-8.
    EncodingError,
    /// The file is not a well-formed document of the markup dialect.
    MalformedXml,
    /// A required tag or attribute, named here, is absent.
    MissingField(String),
    /// The named attribute's value does not read as required.
    BadValue(String),
    /// A `property` node failed to decode.
    BadProperty(DecodeError),
}

impl View for LoadError {
    type V = SpecLoadErr;

    open spec fn view(&self) -> SpecLoadErr {
        match self {
            LoadError::EncodingError => SpecLoadErr::Encoding,
            LoadError::MalformedXml => SpecLoadErr::Malformed,
            LoadError::MissingField(s) => SpecLoadErr::Missing(s@),
            LoadError::BadValue(s) => SpecLoadErr::Bad(s@),
            LoadError::BadProperty(e) => SpecLoadErr::Prop(*e),
        }
    }
}

/// The mathematical image of an [`ObjectReference`].
#[verifier::ext_equal]
pub ghost struct SpecObjRef {
    pub name: Seq<char>,
    pub id: u16,
    pub template: Seq<char>,
    pub x: u16,
    pub y: u16,
    pub obj_type: Seq<char>,
    pub properties: Seq<SpecProp>,
}

/// One placed object of a map, before resolution: its template is a
/// project-relative path, not yet loaded.
#[derive(Debug)]
pub struct ObjectReference {
    pub name: String,
    pub id: u16,
    pub template: String,
    pub x: u16,
    pub y: u16,
    pub obj_type: String,
    pub properties: Vec<ObjectProperty>,
}

impl View for ObjectReference {
    type V = SpecObjRef;

    open spec fn view(&self) -> SpecObjRef {
        SpecObjRef {
            name: self.name@,
            id: self.id,
            template: self.template@,
            x: self.x,
            y: self.y,
            obj_type: self.obj_type@,
            properties: props_view(self.properties@),
        }
    }
}

/// The view of an object list.
pub open spec fn objs_view(v: Seq<ObjectReference>) -> Seq<SpecObjRef> {
    v.map_values(|o: ObjectReference| o@)
}

/// The mathematical image of a [`RawMapData`].
#[verifier::ext_equal]
pub ghost struct SpecRawMap {
    pub width: usize,
    pub height: usize,
    pub tile_width: u16,
    pub data: Seq<u8>,
    pub objects: Seq<SpecObjRef>,
    pub sprite_sheet: Seq<char>,
}

/// One parsed map file: the tile grid and the placed objects, with the
/// map's spritesheet reference as a project-relative path.  The grid always
/// holds `width * height` cells.
#[derive(Debug)]
pub struct RawMapData {
    pub width: usize,
    pub height: usize,
    pub tile_width: u16,
    pub data: Vec<u8>,
    pub objects: Vec<ObjectReference>,
    pub sprite_sheet: String,
}

impl View for RawMapData {
    type V = SpecRawMap;

    open spec fn view(&self) -> SpecRawMap {
        SpecRawMap {
            width: self.width,
            height: self.height,
            tile_width: self.tile_width,
            data: self.data@,
            objects: objs_view(self.objects@),
            sprite_sheet: self.sprite_sheet@,
        }
    }
}

/// The mathematical image of a [`SpritesheetData`].
#[verifier::ext_equal]
pub ghost struct SpecSheet {
    pub tile_width: u8,
    pub columns: u32,
    pub sprite: Seq<char>,
}

/// One parsed tileset file: the atlas metrics and the image reference as a
/// project-relative path.
#[derive(Debug)]
pub struct SpritesheetData {
    pub tile_width: u8,
    pub columns: u32,
    pub sprite: String,
}

impl View for SpritesheetData {
    type V = SpecSheet;

    open spec fn view(&self) -> SpecSheet {
        SpecSheet { tile_width: self.tile_width, columns: self.columns, sprite: self.sprite@ }
    }
}

/// The mathematical image of a [`TemplateData`].
#[verifier::ext_equal]
pub ghost struct SpecTemplate {
    pub sprite_sheet: Seq<char>,
    pub sprite_idx: u32,
    pub properties: Seq<SpecProp>,
}

/// One parsed template file: the spritesheet reference as a
/// project-relative path, the displayed frame, and the default properties.
#[derive(Debug)]
pub struct TemplateData {
    pub sprite_sheet: String,
    pub sprite_idx: u32,
    pub properties: Vec<ObjectProperty>,
}

impl View for TemplateData {
    type V = SpecTemplate;

    open spec fn view(&self) -> SpecTemplate {
        SpecTemplate {
            sprite_sheet: self.sprite_sheet@,
            sprite_idx: self.sprite_idx,
            properties: props_view(self.properties@),
        }
    }
}

// ---------------------------------------------------------------------------
// Required attributes
// ---------------------------------------------------------------------------

/// A required attribute: absent means the asset is unusable.
pub open spec fn spec_attr_req(d: Seq<SpecElem>, i: int, name: Seq<char>) -> Result<
    Seq<char>,
    SpecLoadErr,
> {
    match spec_attr_of(d, i, name) {
        Some(v) => Ok(v),
        None => Err(SpecLoadErr::Missing(name)),
    }
}

fn attr_req(doc: &Document, i: usize, name: &str) -> (r: Result<String, LoadError>)
    requires
        i < doc@.len(),
    ensures
        match r {
            Ok(v) => spec_attr_req(doc@, i as int, name@) == Ok::<Seq<char>, SpecLoadErr>(v@),
            Err(e) => spec_attr_req(doc@, i as int, name@) == Err::<Seq<char>, SpecLoadErr>(e@),
        },
{
    match doc.attr(i, name) {
        Some(v) => Ok(v),
        None => Err(LoadError::MissingField(name.to_owned())),
    }
}

// ---------------------------------------------------------------------------
// Pixel coordinates
// ---------------------------------------------------------------------------

/// The tile coordinate that a pixel coordinate text denotes under a tile
/// width: the value divided by the tile width and rounded to the nearest
/// tile, halves away from zero, clamped into the coordinate range.  The
/// text must be a plain decimal number with at most six fractional digits.
pub open spec fn spec_tile_coord(s: Seq<char>, tw: u16) -> Result<u16, ()>
    recommends
        tw >= 1,
{
    if !is_plain_decimal(s) {
        Err(())
    } else {
        let ip = spec_decimal_int_digits(s);
        let fp = spec_decimal_frac_digits(s);
        if fp.len() > 6 {
            Err(())
        } else if spec_decimal_negative(s) {
            Ok(0u16)
        } else if digits_val(ip) > 0x4_0000_0000 {
            Ok(65535u16)
        } else {
            let q = spec_round_div(decimal_scaled(ip, fp), fp.len(), tw as nat);
            if q > 65535 {
                Ok(65535u16)
            } else {
                Ok(q as u16)
            }
        }
    }
}

/// Reads a pixel coordinate text and yields its tile coordinate.
pub fn tile_coord(s: &str, tw: u16) -> (r: Result<u16, ()>)
    requires
        tw >= 1,
    ensures
        r == spec_tile_coord(s@, tw),
{
    let cs = chars_of(s);
    let parts = match split_decimal(&cs) {
        Some(p) => p,
        None => {
            return Err(());
        },
    };
    proof {
        lemma_decimal_digits(s@);
    }
    if parts.frac_digits.len() > 6 {
        return Err(());
    }
    if parts.negative {
        return Ok(0);
    }
    let ipv = match parse_digits_u64(&parts.int_digits, 0) {
        Some(n) => n,
        None => {
            // the integer part alone is beyond sixty-four bits, far past the
            // coordinate range
            proof {
                assert(parts.int_digits@.skip(0) =~= parts.int_digits@);
                assert(digits_val(parts.int_digits@) > u64::MAX);
            }
            return Ok(65535);
        },
    };
    proof {
        assert(parts.int_digits@.skip(0) =~= parts.int_digits@);
    }
    if ipv > 0x4_0000_0000 {
        return Ok(65535);
    }
    let k = parts.frac_digits.len();
    let p = pow10_u64(k);
    let fpv: u64 = if k == 0 {
        proof {
            assert(digits_val(parts.frac_digits@) == 0);
        }
        0
    } else {
        match parse_digits_u64(&parts.frac_digits, 0) {
            Some(n) => {
                proof {
                    assert(parts.frac_digits@.skip(0) =~= parts.frac_digits@);
                }
                n
            },
            None => {
                proof {
                    assert(parts.frac_digits@.skip(0) =~= parts.frac_digits@);
                    lemma_digits_val_bound(parts.frac_digits@);
                    assert(pow10(parts.frac_digits@.len()) <= pow10(6)) by {
                        assert(pow10(1) == 10 && pow10(2) == 100 && pow10(3) == 1000 && pow10(4)
                            == 10000 && pow10(5) == 100000 && pow10(6) == 1000000);
                    }
                    assert(false);
                }
                0
            },
        }
    };
    proof {
        lemma_digits_val_bound(parts.frac_digits@);
        assert(fpv < p);
        assert(ipv * p <= 0x4_0000_0000u64 * 1000000) by (nonlinear_arith)
            requires
                ipv <= 0x4_0000_0000u64,
                1 <= p <= 1000000,
        ;
    }
    let scaled: u64 = ipv * p + fpv;
    proof {
        assert(scaled == decimal_scaled(parts.int_digits@, parts.frac_digits@));
        assert(1 <= p * (tw as u64) <= 1000000u64 * 65535) by (nonlinear_arith)
            requires
                1 <= p <= 1000000,
                1 <= tw <= 65535,
        ;
    }
    let ptw: u64 = p * (tw as u64);
    let num: u64 = 2 * scaled + ptw;
    let den: u64 = 2 * ptw;
    proof {
        assert(num as nat == 2 * decimal_scaled(parts.int_digits@, parts.frac_digits@) + pow10(
            parts.frac_digits@.len(),
        ) * (tw as nat));
        assert(den as nat == 2 * pow10(parts.frac_digits@.len()) * (tw as nat)) by (nonlinear_arith)
            requires
                den == 2 * ptw,
                ptw == p * (tw as u64),
                p == pow10(parts.frac_digits@.len()),
        ;
    }
    let q = num / den;
    if q > 65535 {
        Ok(65535)
    } else {
        Ok(q as u16)
    }
}

/// The bottom-up tile row of a raw top-down pixel row: the pixel row is
/// divided by the tile width, rounded, and subtracted from the map height.
/// A rounded row below the bottom of the map is an error.
pub open spec fn spec_floop_y(s: Seq<char>, tw: u16, map_height: u16) -> Result<u16, ()> {
    match spec_tile_coord(s, tw) {
        Err(e) => Err(e),
        Ok(yr) => if yr > map_height {
            Err(())
        } else {
            Ok((map_height - yr) as u16)
        },
    }
}

/// Flips a raw top-down pixel row into a bottom-up tile row.
pub fn floop_y(s: &str, tile_width: u16, map_height: u16) -> (r: Result<u16, ()>)
    requires
        tile_width >= 1,
    ensures
        r == spec_floop_y(s@, tile_width, map_height),
{
    match tile_coord(s, tile_width) {
        Err(e) => Err(e),
        Ok(yr) => if yr > map_height {
            Err(())
        } else {
            Ok(map_height - yr)
        },
    }
}

// ---------------------------------------------------------------------------
// Properties of an element
// ---------------------------------------------------------------------------

/// Decodes one `property` element from its attributes.
pub open spec fn spec_decode_prop_elem(d: Seq<SpecElem>, pi: int) -> Result<SpecProp, SpecLoadErr> {
    match spec_attr_of(d, pi, "name"@) {
        None => Err(SpecLoadErr::Missing("name"@)),
        Some(nm) => match spec_decode_property(
            nm,
            spec_attr_of(d, pi, "type"@),
            spec_attr_of(d, pi, "value"@),
        ) {
            Ok(p) => Ok(p),
            Err(e) => Err(SpecLoadErr::Prop(e)),
        },
    }
}

fn decode_prop_elem(doc: &Document, pi: usize) -> (r: Result<ObjectProperty, LoadError>)
    requires
        pi < doc@.len(),
    ensures
        match r {
            Ok(p) => spec_decode_prop_elem(doc@, pi as int) == Ok::<SpecProp, SpecLoadErr>(p@),
            Err(e) => spec_decode_prop_elem(doc@, pi as int) == Err::<SpecProp, SpecLoadErr>(e@),
        },
{
    let nm = match doc.attr(pi, "name") {
        Some(v) => v,
        None => {
            return Err(LoadError::MissingField("name".to_owned()));
        },
    };
    let ptype = doc.attr(pi, "type");
    let value = doc.attr(pi, "value");
    match decode_property(nm, ptype, value) {
        Ok(p) => Ok(p),
        Err(e) => Err(LoadError::BadProperty(e)),
    }
}

/// Decodes the `property` children listed in `kids`, from position `j` on.
pub open spec fn spec_decode_props(d: Seq<SpecElem>, kids: Seq<int>, j: int) -> Result<
    Seq<SpecProp>,
    SpecLoadErr,
>
    decreases kids.len() - j,
{
    if j < 0 || j >= kids.len() {
        Ok(Seq::<SpecProp>::empty())
    } else {
        match spec_decode_prop_elem(d, kids[j]) {
            Err(e) => Err(e),
            Ok(p) => match spec_decode_props(d, kids, j + 1) {
                Err(e) => Err(e),
                Ok(rest) => Ok(seq![p] + rest),
            },
        }
    }
}

/// The decoded property list of the first `properties` node inside element
/// `i`'s subtree; an element without one has no properties.
pub open spec fn spec_elem_props(d: Seq<SpecElem>, i: int) -> Result<Seq<SpecProp>, SpecLoadErr> {
    match spec_find_in(d, i, "properties"@) {
        None => Ok(Seq::<SpecProp>::empty()),
        Some(pe) => spec_decode_props(d, spec_children(d, pe), 0),
    }
}

#[verifier::loop_isolation(false)]
fn elem_props(doc: &Document, i: usize) -> (r: Result<Vec<ObjectProperty>, LoadError>)
    requires
        i < doc@.len(),
    ensures
        match r {
            Ok(ps) => spec_elem_props(doc@, i as int) == Ok::<Seq<SpecProp>, SpecLoadErr>(
                props_view(ps@),
            ),
            Err(e) => spec_elem_props(doc@, i as int) == Err::<Seq<SpecProp>, SpecLoadErr>(e@),
        },
{
    let pe = match doc.find_in(i, "properties") {
        Some(pe) => pe,
        None => {
            proof {
                assert(props_view(Seq::<ObjectProperty>::empty()) =~= Seq::<SpecProp>::empty());
            }
            return Ok(Vec::new());
        },
    };
    let kids = doc.children_of(pe);
    let ghost kv = kids@.map_values(|x: usize| x as int);
    let mut ps: Vec<ObjectProperty> = Vec::new();
    let mut j: usize = 0;
    proof {
        assert(props_view(ps@) =~= Seq::<SpecProp>::empty());
    }
    while j < kids.len()
        invariant
            j <= kv.len(),
            kv == kids@.map_values(|x: usize| x as int),
            spec_decode_props(doc@, kv, 0) == (match spec_decode_props(doc@, kv, j as int) {
                Ok(rest) => Ok::<Seq<SpecProp>, SpecLoadErr>(props_view(ps@) + rest),
                Err(e) => Err(e),
            }),
        decreases kv.len() - j,
    {
        proof {
            assert(kv[j as int] == kids@[j as int] as int);
        }
        match decode_prop_elem(doc, kids[j]) {
            Ok(p) => {
                let ghost before = props_view(ps@);
                ps.push(p);
                proof {
                    assert(props_view(ps@) =~= before.push(p@));
                    assert(spec_decode_props(doc@, kv, j as int) matches Ok(rest) ==> {
                        &&& rest == seq![p@] + spec_decode_props(doc@, kv, j + 1)->Ok_0
                        &&& before + rest =~= props_view(ps@) + spec_decode_props(
                            doc@,
                            kv,
                            j + 1,
                        )->Ok_0
                    });
                }
            },
            Err(e) => {
                return Err(e);
            },
        }
        j = j + 1;
    }
    proof {
        assert(props_view(ps@) + Seq::<SpecProp>::empty() =~= props_view(ps@));
    }
    Ok(ps)
}

// ---------------------------------------------------------------------------
// The map loader
// ---------------------------------------------------------------------------

/// The whitespace-stripped form of `s`.
pub open spec fn spec_strip_from(s: Seq<char>, i: int) -> Seq<char>
    decreases s.len() - i,
{
    if i < 0 || i >= s.len() {
        Seq::<char>::empty()
    } else if is_ws_char(s[i]) {
        spec_strip_from(s, i + 1)
    } else {
        seq![s[i]] + spec_strip_from(s, i + 1)
    }
}

#[verifier::loop_isolation(false)]
fn strip_ws_chars(v: &Vec<char>) -> (r: Vec<char>)
    ensures
        r@ == spec_strip_from(v@, 0),
{
    let mut r: Vec<char> = Vec::new();
    let mut i: usize = 0;
    proof {
        assert(r@ + spec_strip_from(v@, 0) =~= spec_strip_from(v@, 0));
    }
    while i < v.len()
        invariant
            i <= v@.len(),
            spec_strip_from(v@, 0) == r@ + spec_strip_from(v@, i as int),
        decreases v@.len() - i,
    {
        let c = v[i];
        let u = c as u32;
        if !(u == 32 || u == 9 || u == 10 || u == 13) {
            let ghost before = r@;
            r.push(c);
            proof {
                assert(r@ =~= before.push(c));
                assert(before + (seq![c] + spec_strip_from(v@, i + 1)) =~= r@ + spec_strip_from(
                    v@,
                    i + 1,
                ));
            }
        }
        i = i + 1;
    }
    proof {
        assert(r@ + Seq::<char>::empty() =~= r@);
    }
    r
}

/// Parses the comma-separated floor cells, from part `j` on.
pub open spec fn spec_floor_parts(parts: Seq<Seq<char>>, j: int) -> Result<Seq<u8>, ()>
    decreases parts.len() - j,
{
    if j < 0 || j >= parts.len() {
        Ok(Seq::<u8>::empty())
    } else {
        match spec_parse_u8(parts[j]) {
            None => Err(()),
            Some(n) => match spec_floor_parts(parts, j + 1) {
                Err(e) => Err(e),
                Ok(rest) => Ok(seq![n] + rest),
            },
        }
    }
}

/// The floor grid read from a `data` node's text: whitespace is stripped,
/// the rest splits on commas into byte-sized cells, and the grid is padded
/// with empty cells up to `cells`; more cells than the grid holds is an
/// error.
pub open spec fn spec_floor(text: Seq<char>, cells: nat) -> Result<Seq<u8>, SpecLoadErr> {
    match spec_floor_parts(split_char(spec_strip_from(text, 0), ','), 0) {
        Err(_) => Err(SpecLoadErr::Bad("data"@)),
        Ok(vals) => if vals.len() > cells {
            Err(SpecLoadErr::Bad("data"@))
        } else {
            Ok(vals + Seq::<u8>::new((cells - vals.len()) as nat, |m: int| 0u8))
        },
    }
}

#[verifier::loop_isolation(false)]
fn read_floor(text: &String, cells: usize) -> (r: Result<Vec<u8>, LoadError>)
    ensures
        match r {
            Ok(v) => spec_floor(text@, cells as nat) == Ok::<Seq<u8>, SpecLoadErr>(v@),
            Err(e) => spec_floor(text@, cells as nat) == Err::<Seq<u8>, SpecLoadErr>(e@),
        },
{
    let cs = chars_of(text.as_str());
    let stripped = strip_ws_chars(&cs);
    let parts = split_chars(&stripped, ',');
    let ghost pv = segs_view(parts@);
    let mut vals: Vec<u8> = Vec::new();
    let mut j: usize = 0;
    proof {
        assert(pv == split_char(spec_strip_from(text@, 0), ','));
    }
    while j < parts.len()
        invariant
            j <= pv.len(),
            vals@.len() == j,
            pv == segs_view(parts@),
            spec_floor_parts(pv, 0) == (match spec_floor_parts(pv, j as int) {
                Ok(rest) => Ok::<Seq<u8>, ()>(vals@ + rest),
                Err(e) => Err(e),
            }),
        decreases pv.len() - j,
    {
        proof {
            assert(pv[j as int] == parts@[j as int]@);
        }
        match parse_u8_chars(&parts[j]) {
            Some(n) => {
                let ghost before = vals@;
                vals.push(n);
                proof {
                    assert(vals@ =~= before.push(n));
                    assert(spec_floor_parts(pv, j as int) matches Ok(rest) ==> before + rest
                        =~= vals@ + spec_floor_parts(pv, j + 1)->Ok_0);
                }
            },
            None => {
                return Err(LoadError::BadValue("data".to_owned()));
            },
        }
        j = j + 1;
    }
    proof {
        assert(vals@ + Seq::<u8>::empty() =~= vals@);
    }
    if vals.len() > cells {
        return Err(LoadError::BadValue("data".to_owned()));
    }
    let ghost parsed = vals@;
    while vals.len() < cells
        invariant
            parsed.len() <= vals@.len() <= cells,
            vals@ == parsed + Seq::<u8>::new((vals@.len() - parsed.len()) as nat, |m: int| 0u8),
        decreases cells - vals@.len(),
    {
        let ghost before = vals@;
        vals.push(0);
        proof {
            assert(vals@ =~= parsed + Seq::<u8>::new(
                (vals@.len() - parsed.len()) as nat,
                |m: int| 0u8,
            ));
        }
    }
    Ok(vals)
}

/// Extracts one placed object: its decoded properties, its identity and
/// type, its template reference resolved against the map's path, and its
/// tile coordinates, the row flipped into the bottom-up convention.
pub open spec fn spec_extract_object(
    d: Seq<SpecElem>,
    oi: int,
    tw: u16,
    h: u16,
    path: Seq<char>,
) -> Result<SpecObjRef, SpecLoadErr> {
    match spec_elem_props(d, oi) {
        Err(e) => Err(e),
        Ok(props) => {
            let otype = match spec_attr_of(d, oi, "type"@) {
                Some(v) => v,
                None => "none"@,
            };
            let oname = match spec_attr_of(d, oi, "name"@) {
                Some(v) => v,
                None => "none"@,
            };
            match spec_attr_req(d, oi, "id"@) {
                Err(e) => Err(e),
                Ok(idv) => match spec_parse_u16(idv) {
                    None => Err(SpecLoadErr::Bad("id"@)),
                    Some(id) => match spec_attr_req(d, oi, "template"@) {
                        Err(e) => Err(e),
                        Ok(tpl) => match spec_attr_req(d, oi, "x"@) {
                            Err(e) => Err(e),
                            Ok(xv) => match spec_tile_coord(xv, tw) {
                                Err(_) => Err(SpecLoadErr::Bad("x"@)),
                                Ok(x) => match spec_attr_req(d, oi, "y"@) {
                                    Err(e) => Err(e),
                                    Ok(yv) => match spec_floop_y(yv, tw, h) {
                                        Err(_) => Err(SpecLoadErr::Bad("y"@)),
                                        Ok(y) => Ok(
                                            SpecObjRef {
                                                name: oname,
                                                id,
                                                template: spec_resolve(tpl, path),
                                                x,
                                                y,
                                                obj_type: otype,
                                                properties: props,
                                            },
                                        ),
                                    },
                                },
                            },
                        },
                    },
                },
            }
        },
    }
}

fn extract_object(doc: &Document, oi: usize, tw: u16, h: u16, path: &str) -> (r: Result<
    ObjectReference,
    LoadError,
>)
    requires
        oi < doc@.len(),
        tw >= 1,
    ensures
        match r {
            Ok(o) => spec_extract_object(doc@, oi as int, tw, h, path@) == Ok::<
                SpecObjRef,
                SpecLoadErr,
            >(o@),
            Err(e) => spec_extract_object(doc@, oi as int, tw, h, path@) == Err::<
                SpecObjRef,
                SpecLoadErr,
            >(e@),
        },
{
    let properties = match elem_props(doc, oi) {
        Ok(ps) => ps,
        Err(e) => {
            return Err(e);
        },
    };
    let obj_type = match doc.attr(oi, "type") {
        Some(v) => v,
        None => "none".to_owned(),
    };
    let name = match doc.attr(oi, "name") {
        Some(v) => v,
        None => "none".to_owned(),
    };
    let idv = match attr_req(doc, oi, "id") {
        Ok(v) => v,
        Err(e) => {
            return Err(e);
        },
    };
    let id = match parse_u16_chars(&chars_of(idv.as_str())) {
        Some(n) => n,
        None => {
            return Err(LoadError::BadValue("id".to_owned()));
        },
    };
    let tpl = match attr_req(doc, oi, "template") {
        Ok(v) => v,
        Err(e) => {
            return Err(e);
        },
    };
    let xv = match attr_req(doc, oi, "x") {
        Ok(v) => v,
        Err(e) => {
            return Err(e);
        },
    };
    let x = match tile_coord(xv.as_str(), tw) {
        Ok(x) => x,
        Err(_) => {
            return Err(LoadError::BadValue("x".to_owned()));
        },
    };
    let yv = match attr_req(doc, oi, "y") {
        Ok(v) => v,
        Err(e) => {
            return Err(e);
        },
    };
    let y = match floop_y(yv.as_str(), tw, h) {
        Ok(y) => y,
        Err(_) => {
            return Err(LoadError::BadValue("y".to_owned()));
        },
    };
    Ok(
        ObjectReference {
            name,
            id,
            template: local_path_to_project_path(tpl.as_str(), path),
            x,
            y,
            obj_type,
            properties,
        },
    )
}

/// Extracts the objects listed in `kids`, from position `j` on.
pub open spec fn spec_extract_objects(
    d: Seq<SpecElem>,
    kids: Seq<int>,
    j: int,
    tw: u16,
    h: u16,
    path: Seq<char>,
) -> Result<Seq<SpecObjRef>, SpecLoadErr>
    decreases kids.len() - j,
{
    if j < 0 || j >= kids.len() {
        Ok(Seq::<SpecObjRef>::empty())
    } else {
        match spec_extract_object(d, kids[j], tw, h, path) {
            Err(e) => Err(e),
            Ok(o) => match spec_extract_objects(d, kids, j + 1, tw, h, path) {
                Err(e) => Err(e),
                Ok(rest) => Ok(seq![o] + rest),
            },
        }
    }
}

/// Extracts a whole map document: the tile width from the `map` node, the
/// grid size from the first `layer` node, the floor cells from the first
/// `data` node, the placed objects from the first `objectgroup` node, and
/// the spritesheet reference from the first `tileset` node, resolved
/// against the map's own path.
pub open spec fn spec_extract_map(d: Seq<SpecElem>, path: Seq<char>) -> Result<
    SpecRawMap,
    SpecLoadErr,
> {
    match spec_find_elem(d, "map"@) {
        None => Err(SpecLoadErr::Missing("map"@)),
        Some(mi) => match spec_attr_req(d, mi, "tilewidth"@) {
            Err(e) => Err(e),
            Ok(twv) => match spec_parse_u16(twv) {
                None => Err(SpecLoadErr::Bad("tilewidth"@)),
                Some(tw) => if tw == 0 {
                    Err(SpecLoadErr::Bad("tilewidth"@))
                } else {
                    match spec_find_elem(d, "layer"@) {
                        None => Err(SpecLoadErr::Missing("layer"@)),
                        Some(li) => match spec_find_elem(d, "data"@) {
                            None => Err(SpecLoadErr::Missing("data"@)),
                            Some(di) => match spec_attr_req(d, li, "width"@) {
                                Err(e) => Err(e),
                                Ok(wv) => match spec_parse_usize(wv) {
                                    None => Err(SpecLoadErr::Bad("width"@)),
                                    Some(w) => match spec_attr_req(d, li, "height"@) {
                                        Err(e) => Err(e),
                                        Ok(hv) => match spec_parse_usize(hv) {
                                            None => Err(SpecLoadErr::Bad("height"@)),
                                            Some(h) => if h > 65535 {
                                                Err(SpecLoadErr::Bad("height"@))
                                            } else if w * h > usize::MAX {
                                                Err(SpecLoadErr::Bad("data"@))
                                            } else {
                                                spec_extract_map_rest(d, path, mi, di, tw, w, h)
                                            },
                                        },
                                    },
                                },
                            },
                        },
                    }
                },
            },
        },
    }
}

/// The grid, objects and spritesheet reference of a map document whose
/// metrics were already read.
pub open spec fn spec_extract_map_rest(
    d: Seq<SpecElem>,
    path: Seq<char>,
    mi: int,
    di: int,
    tw: u16,
    w: usize,
    h: usize,
) -> Result<SpecRawMap, SpecLoadErr> {
    match spec_floor(d[di].text, (w * h) as nat) {
        Err(e) => Err(e),
        Ok(floor) => match spec_find_elem(d, "objectgroup"@) {
            None => Err(SpecLoadErr::Missing("objectgroup"@)),
            Some(gi) => match spec_extract_objects(
                d,
                spec_children(d, gi),
                0,
                tw,
                h as u16,
                path,
            ) {
                Err(e) => Err(e),
                Ok(objects) => match spec_find_elem(d, "tileset"@) {
                    None => Err(SpecLoadErr::Missing("tileset"@)),
                    Some(ti) => match spec_attr_req(d, ti, "source"@) {
                        Err(e) => Err(e),
                        Ok(src) => Ok(
                            SpecRawMap {
                                width: w,
                                height: h,
                                tile_width: tw,
                                data: floor,
                                objects,
                                sprite_sheet: spec_resolve(src, path),
                            },
                        ),
                    },
                },
            },
        },
    }
}

/// Extracts a map from its parsed document.
#[verifier::loop_isolation(false)]
pub fn extract_map(doc: &Document, path: &str) -> (r: Result<RawMapData, LoadError>)
    ensures
        match r {
            Ok(m) => spec_extract_map(doc@, path@) == Ok::<SpecRawMap, SpecLoadErr>(m@),
            Err(e) => spec_extract_map(doc@, path@) == Err::<SpecRawMap, SpecLoadErr>(e@),
        },
{
    let mi = match doc.find("map") {
        Some(i) => i,
        None => {
            return Err(LoadError::MissingField("map".to_owned()));
        },
    };
    let twv = match attr_req(doc, mi, "tilewidth") {
        Ok(v) => v,
        Err(e) => {
            return Err(e);
        },
    };
    let tw = match parse_u16_chars(&chars_of(twv.as_str())) {
        Some(n) => n,
        None => {
            return Err(LoadError::BadValue("tilewidth".to_owned()));
        },
    };
    if tw == 0 {
        return Err(LoadError::BadValue("tilewidth".to_owned()));
    }
    let li = match doc.find("layer") {
        Some(i) => i,
        None => {
            return Err(LoadError::MissingField("layer".to_owned()));
        },
    };
    let di = match doc.find("data") {
        Some(i) => i,
        None => {
            return Err(LoadError::MissingField("data".to_owned()));
        },
    };
    let wv = match attr_req(doc, li, "width") {
        Ok(v) => v,
        Err(e) => {
            return Err(e);
        },
    };
    let w = match parse_usize_chars(&chars_of(wv.as_str())) {
        Some(n) => n,
        None => {
            return Err(LoadError::BadValue("width".to_owned()));
        },
    };
    let hv = match attr_req(doc, li, "height") {
        Ok(v) => v,
        Err(e) => {
            return Err(e);
        },
    };
    let h = match parse_usize_chars(&chars_of(hv.as_str())) {
        Some(n) => n,
        None => {
            return Err(LoadError::BadValue("height".to_owned()));
        },
    };
    if h > 65535 {
        return Err(LoadError::BadValue("height".to_owned()));
    }
    let cells = match w.checked_mul(h) {
        Some(c) => c,
        None => {
            return Err(LoadError::BadValue("data".to_owned()));
        },
    };
    let text = doc.text_of(di);
    let floor = match read_floor(&text, cells) {
        Ok(v) => v,
        Err(e) => {
            return Err(e);
        },
    };
    let gi = match doc.find("objectgroup") {
        Some(i) => i,
        None => {
            return Err(LoadError::MissingField("objectgroup".to_owned()));
        },
    };
    let kids = doc.children_of(gi);
    let ghost kv = kids@.map_values(|x: usize| x as int);
    let mut objects: Vec<ObjectReference> = Vec::new();
    let mut j: usize = 0;
    proof {
        assert(objs_view(objects@) =~= Seq::<SpecObjRef>::empty());
    }
    while j < kids.len()
        invariant
            j <= kv.len(),
            kv == kids@.map_values(|x: usize| x as int),
            spec_extract_objects(doc@, kv, 0, tw, h as u16, path@) == (match spec_extract_objects(
                doc@,
                kv,
                j as int,
                tw,
                h as u16,
                path@,
            ) {
                Ok(rest) => Ok::<Seq<SpecObjRef>, SpecLoadErr>(objs_view(objects@) + rest),
                Err(e) => Err(e),
            }),
        decreases kv.len() - j,
    {
        proof {
            assert(kv[j as int] == kids@[j as int] as int);
        }
        match extract_object(doc, kids[j], tw, h as u16, path) {
            Ok(o) => {
                let ghost before = objs_view(objects@);
                objects.push(o);
                proof {
                    assert(objs_view(objects@) =~= before.push(o@));
                    assert(spec_extract_objects(doc@, kv, j as int, tw, h as u16, path@) matches Ok(
                        rest,
                    ) ==> before + rest =~= objs_view(objects@) + spec_extract_objects(
                        doc@,
                        kv,
                        j + 1,
                        tw,
                        h as u16,
                        path@,
                    )->Ok_0);
                }
            },
            Err(e) => {
                return Err(e);
            },
        }
        j = j + 1;
    }
    proof {
        assert(objs_view(objects@) + Seq::<SpecObjRef>::empty() =~= objs_view(objects@));
    }
    let ti = match doc.find("tileset") {
        Some(i) => i,
        None => {
            return Err(LoadError::MissingField("tileset".to_owned()));
        },
    };
    let src = match attr_req(doc, ti, "source") {
        Ok(v) => v,
        Err(e) => {
            return Err(e);
        },
    };
    Ok(
        RawMapData {
            width: w,
            height: h,
            tile_width: tw,
            data: floor,
            objects,
            sprite_sheet: local_path_to_project_path(src.as_str(), path),
        },
    )
}

/// Loads a map file from its bytes and its own project-relative path.
pub open spec fn spec_load_map(b: Seq<u8>, path: Seq<char>) -> Result<SpecRawMap, SpecLoadErr> {
    if !valid_utf8(b) {
        Err(SpecLoadErr::Encoding)
    } else {
        match spec_parse(decode_utf8(b)) {
            None => Err(SpecLoadErr::Malformed),
            Some(d) => spec_extract_map(d, path),
        }
    }
}

/// Loads one map file: decodes the bytes as UTF-8, parses the markup, and
/// extracts the raw map data.
pub fn load_map(bytes: Vec<u8>, path: &str) -> (r: Result<RawMapData, LoadError>)
    ensures
        match r {
            Ok(m) => spec_load_map(bytes@, path@) == Ok::<SpecRawMap, SpecLoadErr>(m@),
            Err(e) => spec_load_map(bytes@, path@) == Err::<SpecRawMap, SpecLoadErr>(e@),
        },
{
    let text = match string_from_utf8(bytes) {
        Some(s) => s,
        None => {
            return Err(LoadError::EncodingError);
        },
    };
    let cs = chars_of(text.as_str());
    let doc = match parse_document(&cs) {
        Some(d) => d,
        None => {
            return Err(LoadError::MalformedXml);
        },
    };
    extract_map(&doc, path)
}

// ---------------------------------------------------------------------------
// The tileset loader
// ---------------------------------------------------------------------------

/// Extracts a tileset document: the atlas metrics from the `tileset` node
/// and the image reference from its nested `image` node, resolved against
/// the tileset's own path.
pub open spec fn spec_extract_tileset(d: Seq<SpecElem>, path: Seq<char>) -> Result<
    SpecSheet,
    SpecLoadErr,
> {
    match spec_find_elem(d, "tileset"@) {
        None => Err(SpecLoadErr::Missing("tileset"@)),
        Some(ti) => match spec_attr_req(d, ti, "tilewidth"@) {
            Err(e) => Err(e),
            Ok(twv) => match spec_parse_u8(twv) {
                None => Err(SpecLoadErr::Bad("tilewidth"@)),
                Some(tw) => match spec_attr_req(d, ti, "columns"@) {
                    Err(e) => Err(e),
                    Ok(cv) => match spec_parse_u32(cv) {
                        None => Err(SpecLoadErr::Bad("columns"@)),
                        Some(cols) => match spec_find_in(d, ti, "image"@) {
                            None => Err(SpecLoadErr::Missing("image"@)),
                            Some(ii) => match spec_attr_req(d, ii, "source"@) {
                                Err(e) => Err(e),
                                Ok(src) => Ok(
                                    SpecSheet {
                                        tile_width: tw,
                                        columns: cols,
                                        sprite: spec_resolve(src, path),
                                    },
                                ),
                            },
                        },
                    },
                },
            },
        },
    }
}

/// Extracts a tileset from its parsed document.
pub fn extract_tileset(doc: &Document, path: &str) -> (r: Result<SpritesheetData, LoadError>)
    ensures
        match r {
            Ok(s) => spec_extract_tileset(doc@, path@) == Ok::<SpecSheet, SpecLoadErr>(s@),
            Err(e) => spec_extract_tileset(doc@, path@) == Err::<SpecSheet, SpecLoadErr>(e@),
        },
{
    let ti = match doc.find("tileset") {
        Some(i) => i,
        None => {
            return Err(LoadError::MissingField("tileset".to_owned()));
        },
    };
    let twv = match attr_req(doc, ti, "tilewidth") {
        Ok(v) => v,
        Err(e) => {
            return Err(e);
        },
    };
    let tile_width = match parse_u8_chars(&chars_of(twv.as_str())) {
        Some(n) => n,
        None => {
            return Err(LoadError::BadValue("tilewidth".to_owned()));
        },
    };
    let cv = match attr_req(doc, ti, "columns") {
        Ok(v) => v,
        Err(e) => {
            return Err(e);
        },
    };
    let columns = match parse_u32_chars(&chars_of(cv.as_str())) {
        Some(n) => n,
        None => {
            return Err(LoadError::BadValue("columns".to_owned()));
        },
    };
    let ii = match doc.find_in(ti, "image") {
        Some(i) => i,
        None => {
            return Err(LoadError::MissingField("image".to_owned()));
        },
    };
    let src = match attr_req(doc, ii, "source") {
        Ok(v) => v,
        Err(e) => {
            return Err(e);
        },
    };
    Ok(
        SpritesheetData {
            tile_width,
            columns,
            sprite: local_path_to_project_path(src.as_str(), path),
        },
    )
}

/// Loads a tileset file from its bytes and its own project-relative path.
pub open spec fn spec_load_tileset(b: Seq<u8>, path: Seq<char>) -> Result<SpecSheet, SpecLoadErr> {
    if !valid_utf8(b) {
        Err(SpecLoadErr::Encoding)
    } else {
        match spec_parse(decode_utf8(b)) {
            None => Err(SpecLoadErr::Malformed),
            Some(d) => spec_extract_tileset(d, path),
        }
    }
}

/// Loads one tileset file: decodes the bytes as UTF-8, parses the markup,
/// and extracts the spritesheet data.
pub fn load_tileset(bytes: Vec<u8>, path: &str) -> (r: Result<SpritesheetData, LoadError>)
    ensures
        match r {
            Ok(s) => spec_load_tileset(bytes@, path@) == Ok::<SpecSheet, SpecLoadErr>(s@),
            Err(e) => spec_load_tileset(bytes@, path@) == Err::<SpecSheet, SpecLoadErr>(e@),
        },
{
    let text = match string_from_utf8(bytes) {
        Some(s) => s,
        None => {
            return Err(LoadError::EncodingError);
        },
    };
    let cs = chars_of(text.as_str());
    let doc = match parse_document(&cs) {
        Some(d) => d,
        None => {
            return Err(LoadError::MalformedXml);
        },
    };
    extract_tileset(&doc, path)
}

// ---------------------------------------------------------------------------
// The template loader
// ---------------------------------------------------------------------------

/// Extracts a template document: the spritesheet reference from the
/// `tileset` node, the displayed frame from the `gid` attribute of the
/// first `object` node, and the default properties.
pub open spec fn spec_extract_template(d: Seq<SpecElem>, path: Seq<char>) -> Result<
    SpecTemplate,
    SpecLoadErr,
> {
    match spec_find_elem(d, "tileset"@) {
        None => Err(SpecLoadErr::Missing("tileset"@)),
        Some(ti) => match spec_attr_req(d, ti, "source"@) {
            Err(e) => Err(e),
            Ok(src) => match spec_find_elem(d, "object"@) {
                None => Err(SpecLoadErr::Missing("object"@)),
                Some(oi) => match spec_attr_req(d, oi, "gid"@) {
                    Err(e) => Err(e),
                    Ok(gv) => match spec_parse_u32(gv) {
                        None => Err(SpecLoadErr::Bad("gid"@)),
                        Some(gid) => match spec_template_props(d) {
                            Err(e) => Err(e),
                            Ok(props) => Ok(
                                SpecTemplate {
                                    sprite_sheet: spec_resolve(src, path),
                                    sprite_idx: gid,
                                    properties: props,
                                },
                            ),
                        },
                    },
                },
            },
        },
    }
}

/// The decoded property list of the first `properties` node of the whole
/// document; a template without one has no default properties.
pub open spec fn spec_template_props(d: Seq<SpecElem>) -> Result<Seq<SpecProp>, SpecLoadErr> {
    match spec_find_elem(d, "properties"@) {
        None => Ok(Seq::<SpecProp>::empty()),
        Some(pe) => spec_decode_props(d, spec_children(d, pe), 0),
    }
}

#[verifier::loop_isolation(false)]
fn template_props(doc: &Document) -> (r: Result<Vec<ObjectProperty>, LoadError>)
    ensures
        match r {
            Ok(ps) => spec_template_props(doc@) == Ok::<Seq<SpecProp>, SpecLoadErr>(
                props_view(ps@),
            ),
            Err(e) => spec_template_props(doc@) == Err::<Seq<SpecProp>, SpecLoadErr>(e@),
        },
{
    let pe = match doc.find("properties") {
        Some(pe) => pe,
        None => {
            proof {
                assert(props_view(Seq::<ObjectProperty>::empty()) =~= Seq::<SpecProp>::empty());
            }
            return Ok(Vec::new());
        },
    };
    let kids = doc.children_of(pe);
    let ghost kv = kids@.map_values(|x: usize| x as int);
    let mut ps: Vec<ObjectProperty> = Vec::new();
    let mut j: usize = 0;
    proof {
        assert(props_view(ps@) =~= Seq::<SpecProp>::empty());
    }
    while j < kids.len()
        invariant
            j <= kv.len(),
            kv == kids@.map_values(|x: usize| x as int),
            spec_decode_props(doc@, kv, 0) == (match spec_decode_props(doc@, kv, j as int) {
                Ok(rest) => Ok::<Seq<SpecProp>, SpecLoadErr>(props_view(ps@) + rest),
                Err(e) => Err(e),
            }),
        decreases kv.len() - j,
    {
        proof {
            assert(kv[j as int] == kids@[j as int] as int);
        }
        match decode_prop_elem(doc, kids[j]) {
            Ok(p) => {
                let ghost before = props_view(ps@);
                ps.push(p);
                proof {
                    assert(props_view(ps@) =~= before.push(p@));
                    assert(spec_decode_props(doc@, kv, j as int) matches Ok(rest) ==> before + rest
                        =~= props_view(ps@) + spec_decode_props(doc@, kv, j + 1)->Ok_0);
                }
            },
            Err(e) => {
                return Err(e);
            },
        }
        j = j + 1;
    }
    proof {
        assert(props_view(ps@) + Seq::<SpecProp>::empty() =~= props_view(ps@));
    }
    Ok(ps)
}

/// Extracts a template from its parsed document.
pub fn extract_template(doc: &Document, path: &str) -> (r: Result<TemplateData, LoadError>)
    ensures
        match r {
            Ok(t) => spec_extract_template(doc@, path@) == Ok::<SpecTemplate, SpecLoadErr>(t@),
            Err(e) => spec_extract_template(doc@, path@) == Err::<SpecTemplate, SpecLoadErr>(e@),
        },
{
    let ti = match doc.find("tileset") {
        Some(i) => i,
        None => {
            return Err(LoadError::MissingField("tileset".to_owned()));
        },
    };
    let src = match attr_req(doc, ti, "source") {
        Ok(v) => v,
        Err(e) => {
            return Err(e);
        },
    };
    let oi = match doc.find("object") {
        Some(i) => i,
        None => {
            return Err(LoadError::MissingField("object".to_owned()));
        },
    };
    let gv = match attr_req(doc, oi, "gid") {
        Ok(v) => v,
        Err(e) => {
            return Err(e);
        },
    };
    let sprite_idx = match parse_u32_chars(&chars_of(gv.as_str())) {
        Some(n) => n,
        None => {
            return Err(LoadError::BadValue("gid".to_owned()));
        },
    };
    let properties = match template_props(doc) {
        Ok(ps) => ps,
        Err(e) => {
            return Err(e);
        },
    };
    Ok(
        TemplateData {
            sprite_sheet: local_path_to_project_path(src.as_str(), path),
            sprite_idx,
            properties,
        },
    )
}

/// Loads a template file from its bytes and its own project-relative path.
pub open spec fn spec_load_template(b: Seq<u8>, path: Seq<char>) -> Result<
    SpecTemplate,
    SpecLoadErr,
> {
    if !valid_utf8(b) {
        Err(SpecLoadErr::Encoding)
    } else {
        match spec_parse(decode_utf8(b)) {
            None => Err(SpecLoadErr::Malformed),
            Some(d) => spec_extract_template(d, path),
        }
    }
}

/// Loads one template file: decodes the bytes as UTF-8, parses the markup,
/// and extracts the template data.
pub fn load_template(bytes: Vec<u8>, path: &str) -> (r: Result<TemplateData, LoadError>)
    ensures
        match r {
            Ok(t) => spec_load_template(bytes@, path@) == Ok::<SpecTemplate, SpecLoadErr>(t@),
            Err(e) => spec_load_template(bytes@, path@) == Err::<SpecTemplate, SpecLoadErr>(e@),
        },
{
    let text = match string_from_utf8(bytes) {
        Some(s) => s,
        None => {
            return Err(LoadError::EncodingError);
        },
    };
    let cs = chars_of(text.as_str());
    let doc = match parse_document(&cs) {
        Some(d) => d,
        None => {
            return Err(LoadError::MalformedXml);
        },
    };
    extract_template(&doc, path)
}

} // verus!
