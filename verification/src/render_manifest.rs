//! Commit-exact render-artifact manifests and their structural validation.
//!
//! Coordinates and geometric errors are IEEE-754 binary64 values carried as
//! their bit patterns (`f64::to_bits`); the checks below classify those bit
//! patterns exactly as the corresponding `f64` comparisons do.

use vstd::prelude::*;
use crate::text::{trim, is_blank, chars_of, cat, string_of, owned, chars_eq, is_ascii_digit, debug_text, debug_quoted};
use crate::schema::{
    RENDER_MANIFEST, RENDER_MANIFEST_V2, RENDER_SEMANTIC_INDEX, spec_is_compatible,
    spec_parse_tag, is_compatible, parse_tag,
};

verus! {

/// A content-addressed, immutable object served by the render-artifact layer.
#[derive(Debug, Clone, PartialEq, Eq)]
pub struct RenderArtifactResource {
    pub uri: String,
    pub content_type: String,
    /// Lowercase hexadecimal SHA-256 of the response body.
    pub sha256: String,
    pub byte_length: u64,
}

/// Axis-aligned bounds; each coordinate is the bit pattern of an `f64`.
#[derive(Debug, Clone, PartialEq, Eq)]
pub struct RenderBounds {
    pub min: [u64; 3],
    pub max: [u64; 3],
}

/// One immutable render tile referenced from a manifest.
#[derive(Debug, Clone, PartialEq, Eq)]
pub struct RenderTileDescriptor {
    pub tile_id: String,
    pub lod: u32,
    pub group: Option<String>,
    pub bounds: RenderBounds,
    /// Bit pattern of the `f64` maximum geometric approximation error.
    pub geometric_error: u64,
    pub artifact: RenderArtifactResource,
    pub semantic_index: Option<RenderSemanticIndexDescriptor>,
}

/// Immutable semantic lookup data for selection and element-to-tile mapping.
#[derive(Debug, Clone, PartialEq, Eq)]
pub struct RenderSemanticIndexDescriptor {
    pub schema: String,
    pub entry_count: u64,
    pub artifact: RenderArtifactResource,
}

/// Namespaced, content-hashed identity of a renderer policy.
#[derive(Debug, Clone, PartialEq, Eq)]
pub struct RenderPolicy {
    pub id: String,
    pub hash: String,
}

/// Commit-exact manifest for derived IFC render artifacts.
#[derive(Debug, Clone, PartialEq, Eq)]
pub struct RenderArtifactManifest {
    pub schema: String,
    pub project_id: String,
    pub commit_hash: String,
    pub artifact_id: String,
    pub generated_at: String,
    pub render_policy: Option<RenderPolicy>,
    pub tiles: Vec<RenderTileDescriptor>,
    pub semantic_index: Option<RenderSemanticIndexDescriptor>,
}

/// Validation failure for a render-artifact manifest.
#[derive(Debug, Clone, PartialEq, Eq)]
pub enum RenderArtifactValidationError {
    IncompatibleSchema { field: &'static str, expected: &'static str, actual: String },
    MissingField(&'static str),
    UnexpectedField { field: &'static str, schema: String },
    InvalidPolicyId { actual: String },
    DuplicateTileId(String),
    InvalidSha256 { resource: String },
    InvalidBounds { tile_id: String },
    InvalidGeometricError { tile_id: String },
}

/// The validation failure with every text field taken as its characters.
pub enum RenderFailure {
    IncompatibleSchema { field: Seq<char>, expected: Seq<char>, actual: Seq<char> },
    MissingField(Seq<char>),
    UnexpectedField { field: Seq<char>, schema: Seq<char> },
    InvalidPolicyId { actual: Seq<char> },
    DuplicateTileId(Seq<char>),
    InvalidSha256 { resource: Seq<char> },
    InvalidBounds { tile_id: Seq<char> },
    InvalidGeometricError { tile_id: Seq<char> },
}

impl View for RenderArtifactValidationError {
    type V = RenderFailure;

    open spec fn view(&self) -> RenderFailure {
        match self {
            RenderArtifactValidationError::IncompatibleSchema { field, expected, actual } =>
                RenderFailure::IncompatibleSchema {
                field: field@,
                expected: expected@,
                actual: actual@,
            },
            RenderArtifactValidationError::MissingField(f) => RenderFailure::MissingField(f@),
            RenderArtifactValidationError::UnexpectedField { field, schema } =>
                RenderFailure::UnexpectedField { field: field@, schema: schema@ },
            RenderArtifactValidationError::InvalidPolicyId { actual } =>
                RenderFailure::InvalidPolicyId { actual: actual@ },
            RenderArtifactValidationError::DuplicateTileId(t) => RenderFailure::DuplicateTileId(
                t@,
            ),
            RenderArtifactValidationError::InvalidSha256 { resource } =>
                RenderFailure::InvalidSha256 { resource: resource@ },
            RenderArtifactValidationError::InvalidBounds { tile_id } =>
                RenderFailure::InvalidBounds { tile_id: tile_id@ },
            RenderArtifactValidationError::InvalidGeometricError { tile_id } =>
                RenderFailure::InvalidGeometricError { tile_id: tile_id@ },
        }
    }
}

pub type Check = Result<(), RenderFailure>;

// ---- binary64 bit-pattern classification -------------------------------------

pub open spec fn f64_exponent(b: u64) -> int {
    (b as int / 0x10_0000_0000_0000) % 0x800
}

pub open spec fn f64_negative_sign(b: u64) -> bool {
    b as int >= 0x8000_0000_0000_0000
}

pub open spec fn f64_magnitude(b: u64) -> int {
    b as int % 0x8000_0000_0000_0000
}

/// `f64::is_finite`: the exponent field is not all ones.
pub open spec fn f64_is_finite(b: u64) -> bool {
    f64_exponent(b) != 0x7FF
}

/// The position of a finite value in the real-number order (both zeros at `0`).
pub open spec fn f64_order_key(b: u64) -> int {
    if f64_negative_sign(b) {
        -f64_magnitude(b)
    } else {
        f64_magnitude(b)
    }
}

/// `x < 0.0` for a finite value: negative sign and a nonzero magnitude.
pub open spec fn f64_below_zero(b: u64) -> bool {
    f64_negative_sign(b) && f64_magnitude(b) != 0
}

pub fn bits_is_finite(b: u64) -> (r: bool)
    ensures
        r == f64_is_finite(b),
{
    (b / 0x10_0000_0000_0000) % 0x800 != 0x7FF
}

pub fn bits_order_key(b: u64) -> (r: i128)
    ensures
        r == f64_order_key(b),
{
    let m = (b % 0x8000_0000_0000_0000) as i128;
    if b >= 0x8000_0000_0000_0000 {
        -m
    } else {
        m
    }
}

/// A geometric error is rejected when it is not finite or is below zero.
pub open spec fn geometric_error_invalid(b: u64) -> bool {
    !f64_is_finite(b) || f64_below_zero(b)
}

/// Bounds are rejected when a coordinate is not finite or some `min` exceeds its `max`.
pub open spec fn bounds_invalid(bd: RenderBounds) -> bool {
    !(forall|i: int| 0 <= i < 3 ==> f64_is_finite(#[trigger] bd.min@[i]) && f64_is_finite(
        bd.max@[i],
    )) || (exists|i: int|
        0 <= i < 3 && f64_order_key(#[trigger] bd.min@[i]) > f64_order_key(bd.max@[i]))
}

pub fn check_geometric_error(b: u64) -> (r: bool)
    ensures
        r == geometric_error_invalid(b),
{
    !bits_is_finite(b) || (b >= 0x8000_0000_0000_0000 && b % 0x8000_0000_0000_0000 != 0)
}

pub fn check_bounds(bd: &RenderBounds) -> (r: bool)
    ensures
        r == bounds_invalid(*bd),
{
    let finite = bits_is_finite(bd.min[0]) && bits_is_finite(bd.max[0]) && bits_is_finite(
        bd.min[1],
    ) && bits_is_finite(bd.max[1]) && bits_is_finite(bd.min[2]) && bits_is_finite(bd.max[2]);
    let inverted = bits_order_key(bd.min[0]) > bits_order_key(bd.max[0]) || bits_order_key(
        bd.min[1],
    ) > bits_order_key(bd.max[1]) || bits_order_key(bd.min[2]) > bits_order_key(bd.max[2]);
    proof {
        let all_finite = forall|i: int|
            0 <= i < 3 ==> f64_is_finite(#[trigger] bd.min@[i]) && f64_is_finite(bd.max@[i]);
        if finite {
            assert forall|i: int| 0 <= i < 3 implies f64_is_finite(#[trigger] bd.min@[i])
                && f64_is_finite(bd.max@[i]) by {
                if i == 0 {
                } else if i == 1 {
                } else {
                }
            }
        } else {
            if f64_is_finite(bd.min@[0]) && f64_is_finite(bd.max@[0]) && f64_is_finite(bd.min@[1])
                && f64_is_finite(bd.max@[1]) && f64_is_finite(bd.min@[2]) {
                assert(!f64_is_finite(bd.max@[2]));
            }
        }
        if inverted {
            if f64_order_key(bd.min@[0]) > f64_order_key(bd.max@[0]) {
                assert(0 <= 0int < 3);
            } else if f64_order_key(bd.min@[1]) > f64_order_key(bd.max@[1]) {
                assert(0 <= 1int < 3);
            } else {
                assert(f64_order_key(bd.min@[2]) > f64_order_key(bd.max@[2]));
            }
        } else {
            assert forall|i: int| 0 <= i < 3 implies !(f64_order_key(#[trigger] bd.min@[i])
                > f64_order_key(bd.max@[i])) by {
                if i == 0 {
                } else if i == 1 {
                } else {
                }
            }
        }
    }
    !finite || inverted
}

// ---- specification of the validation ------------------------------------------

pub open spec fn is_lower_hex(c: char) -> bool {
    is_ascii_digit(c) || ('a' as u32 <= c as u32 <= 'f' as u32)
}

/// A lowercase SHA-256: exactly 64 characters, each an ASCII digit or `a`-`f`.
pub open spec fn is_lower_sha256(s: Seq<char>) -> bool {
    s.len() == 64 && forall|i: int| 0 <= i < s.len() ==> is_lower_hex(#[trigger] s[i])
}

pub open spec fn spec_non_empty(field: Seq<char>, value: Seq<char>) -> Check {
    if trim(value).len() == 0 {
        Err(RenderFailure::MissingField(field))
    } else {
        Ok(())
    }
}

pub open spec fn spec_validate_schema(field: Seq<char>, actual: Seq<char>, expected: Seq<char>) -> Check {
    if spec_is_compatible(actual, expected) {
        Ok(())
    } else {
        Err(RenderFailure::IncompatibleSchema { field, expected, actual })
    }
}

pub open spec fn spec_validate_resource(label: Seq<char>, r: RenderArtifactResource) -> Check {
    if trim(r.uri@).len() == 0 {
        Err(RenderFailure::MissingField("resource.uri"@))
    } else if trim(r.content_type@).len() == 0 {
        Err(RenderFailure::MissingField("resource.content_type"@))
    } else if !is_lower_sha256(r.sha256@) {
        Err(RenderFailure::InvalidSha256 { resource: label })
    } else {
        Ok(())
    }
}

pub open spec fn spec_validate_semantic_index(
    label: Seq<char>,
    index: RenderSemanticIndexDescriptor,
) -> Check {
    if !spec_is_compatible(index.schema@, RENDER_SEMANTIC_INDEX@) {
        Err(
            RenderFailure::IncompatibleSchema {
                field: "semantic_index"@,
                expected: RENDER_SEMANTIC_INDEX@,
                actual: index.schema@,
            },
        )
    } else {
        spec_validate_resource(label, index.artifact)
    }
}

/// A policy id must be non-blank and a `name/major` tag whose name is non-blank;
/// its hash must be a lowercase SHA-256.
pub open spec fn spec_validate_render_policy(p: RenderPolicy) -> Check {
    if trim(p.id@).len() == 0 {
        Err(RenderFailure::MissingField("render_policy.id"@))
    } else if !(spec_parse_tag(p.id@) matches Some((name, _)) && trim(name).len() != 0) {
        Err(RenderFailure::InvalidPolicyId { actual: p.id@ })
    } else if !is_lower_sha256(p.hash@) {
        Err(RenderFailure::InvalidSha256 { resource: "render_policy.hash"@ })
    } else {
        Ok(())
    }
}

/// The major of a supported manifest schema (`1` or `2`).
pub open spec fn spec_manifest_major(schema: Seq<char>) -> Result<u32, RenderFailure> {
    if spec_is_compatible(schema, RENDER_MANIFEST@) {
        Ok(1)
    } else if spec_is_compatible(schema, RENDER_MANIFEST_V2@) {
        Ok(2)
    } else {
        Err(
            RenderFailure::IncompatibleSchema {
                field: "manifest"@,
                expected: RENDER_MANIFEST_V2@,
                actual: schema,
            },
        )
    }
}

pub open spec fn tile_label(tile_id: Seq<char>) -> Seq<char> {
    "tile:"@ + tile_id
}

pub open spec fn tile_index_label(tile_id: Seq<char>) -> Seq<char> {
    "tile:"@ + tile_id + ":semantic_index"@
}

/// Some tile before position `i` has the same id as tile `i`.
pub open spec fn duplicate_before(tiles: Seq<RenderTileDescriptor>, i: int) -> bool {
    exists|j: int| 0 <= j < i && (#[trigger] tiles[j]).tile_id@ == tiles[i].tile_id@
}

/// The checks for tile `i`, in order, given the schema major.
pub open spec fn spec_tile_check(
    tiles: Seq<RenderTileDescriptor>,
    i: int,
    major: u32,
    schema: Seq<char>,
) -> Check {
    let t = tiles[i];
    if trim(t.tile_id@).len() == 0 {
        Err(RenderFailure::MissingField("tile_id"@))
    } else if duplicate_before(tiles, i) {
        Err(RenderFailure::DuplicateTileId(t.tile_id@))
    } else if geometric_error_invalid(t.geometric_error) {
        Err(RenderFailure::InvalidGeometricError { tile_id: t.tile_id@ })
    } else if bounds_invalid(t.bounds) {
        Err(RenderFailure::InvalidBounds { tile_id: t.tile_id@ })
    } else if spec_validate_resource(tile_label(t.tile_id@), t.artifact) is Err {
        spec_validate_resource(tile_label(t.tile_id@), t.artifact)
    } else if major == 1 {
        if t.semantic_index is Some {
            Err(RenderFailure::UnexpectedField { field: "tile.semantic_index"@, schema })
        } else if t.group is Some {
            Err(RenderFailure::UnexpectedField { field: "tile.group"@, schema })
        } else {
            Ok(())
        }
    } else {
        match t.semantic_index {
            None => Err(RenderFailure::MissingField("tile.semantic_index"@)),
            Some(index) => if spec_validate_semantic_index(
                tile_index_label(t.tile_id@),
                index,
            ) is Err {
                spec_validate_semantic_index(tile_index_label(t.tile_id@), index)
            } else {
                match t.group {
                    Some(g) => spec_non_empty("tile.group"@, g@),
                    None => Ok(()),
                }
            },
        }
    }
}

/// The first failure among tiles `0..n`, checked in order.
pub open spec fn spec_tiles_check(
    tiles: Seq<RenderTileDescriptor>,
    n: int,
    major: u32,
    schema: Seq<char>,
) -> Check
    decreases n,
{
    if n <= 0 {
        Ok(())
    } else {
        match spec_tiles_check(tiles, n - 1, major, schema) {
            Err(e) => Err(e),
            Ok(()) => spec_tile_check(tiles, n - 1, major, schema),
        }
    }
}

/// The envelope checks that precede the tile checks.
pub open spec fn spec_envelope_check(m: RenderArtifactManifest, major: u32) -> Check {
    if trim(m.project_id@).len() == 0 {
        Err(RenderFailure::MissingField("project_id"@))
    } else if trim(m.commit_hash@).len() == 0 {
        Err(RenderFailure::MissingField("commit_hash"@))
    } else if trim(m.artifact_id@).len() == 0 {
        Err(RenderFailure::MissingField("artifact_id"@))
    } else if trim(m.generated_at@).len() == 0 {
        Err(RenderFailure::MissingField("generated_at"@))
    } else if major == 1 {
        if m.render_policy is Some {
            Err(RenderFailure::UnexpectedField { field: "render_policy"@, schema: m.schema@ })
        } else {
            match m.semantic_index {
                None => Err(RenderFailure::MissingField("semantic_index"@)),
                Some(index) => spec_validate_semantic_index("semantic_index"@, index),
            }
        }
    } else {
        match m.render_policy {
            None => Err(RenderFailure::MissingField("render_policy"@)),
            Some(p) => if spec_validate_render_policy(p) is Err {
                spec_validate_render_policy(p)
            } else if m.semantic_index is Some {
                Err(RenderFailure::UnexpectedField { field: "semantic_index"@, schema: m.schema@ })
            } else {
                Ok(())
            },
        }
    }
}

/// The whole manifest validation: schema, envelope, then every tile in order.
pub open spec fn spec_validate_manifest(m: RenderArtifactManifest) -> Check {
    match spec_manifest_major(m.schema@) {
        Err(e) => Err(e),
        Ok(major) => match spec_envelope_check(m, major) {
            Err(e) => Err(e),
            Ok(()) => spec_tiles_check(m.tiles@, m.tiles@.len() as int, major, m.schema@),
        },
    }
}

/// Once a tile prefix fails, every longer prefix reports the same failure.
proof fn lemma_tiles_check_err_stays(
    tiles: Seq<RenderTileDescriptor>,
    n: int,
    m: int,
    major: u32,
    schema: Seq<char>,
)
    requires
        0 < n <= m,
        spec_tiles_check(tiles, n, major, schema) is Err,
    ensures
        spec_tiles_check(tiles, m, major, schema) == spec_tiles_check(tiles, n, major, schema),
    decreases m - n,
{
    if n < m {
        lemma_tiles_check_err_stays(tiles, n, m - 1, major, schema);
    }
}

// ---- executable validation -----------------------------------------------------

pub fn check_lower_sha256(s: &str) -> (r: bool)
    ensures
        r == is_lower_sha256(s@),
{
    let v = chars_of(s);
    if v.len() != 64 {
        return false;
    }
    let mut i: usize = 0;
    while i < v.len()
        invariant
            i <= v.len() == 64,
            v@ == s@,
            forall|j: int| 0 <= j < i ==> is_lower_hex(#[trigger] v@[j]),
        decreases v.len() - i,
    {
        let c = v[i];
        let u = c as u32;
        if !(('0' as u32 <= u && u <= '9' as u32) || ('a' as u32 <= u && u <= 'f' as u32)) {
            return false;
        }
        i = i + 1;
    }
    true
}

fn validate_non_empty(field: &'static str, value: &str) -> (r: Result<(), RenderArtifactValidationError>)
    ensures
        match r {
            Ok(()) => spec_non_empty(field@, value@) is Ok,
            Err(e) => spec_non_empty(field@, value@) == Err::<(), RenderFailure>(e@),
        },
{
    if is_blank(value) {
        Err(RenderArtifactValidationError::MissingField(field))
    } else {
        Ok(())
    }
}

fn validate_schema(field: &'static str, actual: &str, expected: &'static str) -> (r: Result<
    (),
    RenderArtifactValidationError,
>)
    ensures
        match r {
            Ok(()) => spec_validate_schema(field@, actual@, expected@) is Ok,
            Err(e) => spec_validate_schema(field@, actual@, expected@) == Err::<(), RenderFailure>(
                e@,
            ),
        },
{
    if is_compatible(actual, expected) {
        Ok(())
    } else {
        Err(
            RenderArtifactValidationError::IncompatibleSchema {
                field,
                expected,
                actual: owned(actual),
            },
        )
    }
}

fn validate_resource(label: &Vec<char>, resource: &RenderArtifactResource) -> (r: Result<
    (),
    RenderArtifactValidationError,
>)
    ensures
        match r {
            Ok(()) => spec_validate_resource(label@, *resource) is Ok,
            Err(e) => spec_validate_resource(label@, *resource) == Err::<(), RenderFailure>(e@),
        },
{
    validate_non_empty("resource.uri", resource.uri.as_str())?;
    validate_non_empty("resource.content_type", resource.content_type.as_str())?;
    if !check_lower_sha256(resource.sha256.as_str()) {
        return Err(RenderArtifactValidationError::InvalidSha256 { resource: string_of(label) });
    }
    Ok(())
}

fn validate_semantic_index(label: &Vec<char>, index: &RenderSemanticIndexDescriptor) -> (r: Result<
    (),
    RenderArtifactValidationError,
>)
    ensures
        match r {
            Ok(()) => spec_validate_semantic_index(label@, *index) is Ok,
            Err(e) => spec_validate_semantic_index(label@, *index) == Err::<(), RenderFailure>(
                e@,
            ),
        },
{
    validate_schema("semantic_index", index.schema.as_str(), RENDER_SEMANTIC_INDEX)?;
    validate_resource(label, &index.artifact)
}

fn validate_render_policy(policy: &RenderPolicy) -> (r: Result<(), RenderArtifactValidationError>)
    ensures
        match r {
            Ok(()) => spec_validate_render_policy(*policy) is Ok,
            Err(e) => spec_validate_render_policy(*policy) == Err::<(), RenderFailure>(e@),
        },
{
    validate_non_empty("render_policy.id", policy.id.as_str())?;
    let named = match parse_tag(policy.id.as_str()) {
        Some((name, _)) => !is_blank(name),
        None => false,
    };
    if !named {
        return Err(RenderArtifactValidationError::InvalidPolicyId { actual: policy.id.clone() });
    }
    if !check_lower_sha256(policy.hash.as_str()) {
        return Err(
            RenderArtifactValidationError::InvalidSha256 { resource: owned("render_policy.hash") },
        );
    }
    Ok(())
}

/// Accept either supported manifest schema version, returning its major.
fn validate_manifest_schema(actual: &str) -> (r: Result<u32, RenderArtifactValidationError>)
    ensures
        match r {
            Ok(m) => spec_manifest_major(actual@) == Ok::<u32, RenderFailure>(m),
            Err(e) => spec_manifest_major(actual@) == Err::<u32, RenderFailure>(e@),
        },
{
    if is_compatible(actual, RENDER_MANIFEST) {
        Ok(1)
    } else if is_compatible(actual, RENDER_MANIFEST_V2) {
        Ok(2)
    } else {
        Err(
            RenderArtifactValidationError::IncompatibleSchema {
                field: "manifest",
                expected: RENDER_MANIFEST_V2,
                actual: owned(actual),
            },
        )
    }
}

fn has_duplicate_before(tiles: &Vec<RenderTileDescriptor>, i: usize) -> (r: bool)
    requires
        i < tiles.len(),
    ensures
        r == duplicate_before(tiles@, i as int),
{
    let mut j: usize = 0;
    while j < i
        invariant
            j <= i < tiles.len(),
            forall|k: int| 0 <= k < j ==> (#[trigger] tiles@[k]).tile_id@ != tiles@[i as int].tile_id@,
        decreases i - j,
    {
        if crate::text::str_eq(tiles[j].tile_id.as_str(), tiles[i].tile_id.as_str()) {
            assert(tiles@[j as int].tile_id@ == tiles@[i as int].tile_id@);
            return true;
        }
        j = j + 1;
    }
    false
}

fn validate_tile(
    tiles: &Vec<RenderTileDescriptor>,
    i: usize,
    major: u32,
    schema: &String,
) -> (r: Result<(), RenderArtifactValidationError>)
    requires
        i < tiles.len(),
    ensures
        match r {
            Ok(()) => spec_tile_check(tiles@, i as int, major, schema@) is Ok,
            Err(e) => spec_tile_check(tiles@, i as int, major, schema@) == Err::<(), RenderFailure>(
                e@,
            ),
        },
{
    let tile = &tiles[i];
    validate_non_empty("tile_id", tile.tile_id.as_str())?;
    if has_duplicate_before(tiles, i) {
        return Err(RenderArtifactValidationError::DuplicateTileId(tile.tile_id.clone()));
    }
    if check_geometric_error(tile.geometric_error) {
        return Err(
            RenderArtifactValidationError::InvalidGeometricError { tile_id: tile.tile_id.clone() },
        );
    }
    if check_bounds(&tile.bounds) {
        return Err(RenderArtifactValidationError::InvalidBounds { tile_id: tile.tile_id.clone() });
    }
    let id_chars = chars_of(tile.tile_id.as_str());
    let label = cat(&chars_of("tile:"), &id_chars);
    validate_resource(&label, &tile.artifact)?;
    if major == 1 {
        if tile.semantic_index.is_some() {
            return Err(
                RenderArtifactValidationError::UnexpectedField {
                    field: "tile.semantic_index",
                    schema: schema.clone(),
                },
            );
        }
        if tile.group.is_some() {
            return Err(
                RenderArtifactValidationError::UnexpectedField {
                    field: "tile.group",
                    schema: schema.clone(),
                },
            );
        }
        Ok(())
    } else {
        match &tile.semantic_index {
            None => Err(RenderArtifactValidationError::MissingField("tile.semantic_index")),
            Some(index) => {
                let index_label = cat(&label, &chars_of(":semantic_index"));
                validate_semantic_index(&index_label, index)?;
                match &tile.group {
                    Some(g) => validate_non_empty("tile.group", g.as_str()),
                    None => Ok(()),
                }
            },
        }
    }
}

impl RenderArtifactManifest {
    /// Reject malformed manifests before caching or serving their immutable artifacts.
    ///
    /// The schema must be a supported manifest major; `v1` carries a
    /// manifest-global semantic index and no policy, `v2` a valid policy and
    /// tile-local indexes. Every declared resource is checked, and the first
    /// failure in this order is reported.
    pub fn validate(&self) -> (r: Result<(), RenderArtifactValidationError>)
        ensures
            match r {
                Ok(()) => spec_validate_manifest(*self) is Ok,
                Err(e) => spec_validate_manifest(*self) == Err::<(), RenderFailure>(e@),
            },
    {
        let major = validate_manifest_schema(self.schema.as_str())?;
        validate_non_empty("project_id", self.project_id.as_str())?;
        validate_non_empty("commit_hash", self.commit_hash.as_str())?;
        validate_non_empty("artifact_id", self.artifact_id.as_str())?;
        validate_non_empty("generated_at", self.generated_at.as_str())?;
        if major == 1 {
            if self.render_policy.is_some() {
                return Err(
                    RenderArtifactValidationError::UnexpectedField {
                        field: "render_policy",
                        schema: self.schema.clone(),
                    },
                );
            }
            match &self.semantic_index {
                None => {
                    return Err(RenderArtifactValidationError::MissingField("semantic_index"));
                },
                Some(index) => {
                    validate_semantic_index(&chars_of("semantic_index"), index)?;
                },
            }
        } else {
            match &self.render_policy {
                None => {
                    return Err(RenderArtifactValidationError::MissingField("render_policy"));
                },
                Some(policy) => {
                    validate_render_policy(policy)?;
                },
            }
            if self.semantic_index.is_some() {
                return Err(
                    RenderArtifactValidationError::UnexpectedField {
                        field: "semantic_index",
                        schema: self.schema.clone(),
                    },
                );
            }
        }
        assert(spec_envelope_check(*self, major) is Ok);
        let mut i: usize = 0;
        while i < self.tiles.len()
            invariant
                i <= self.tiles.len(),
                spec_manifest_major(self.schema@) == Ok::<u32, RenderFailure>(major),
                spec_envelope_check(*self, major) is Ok,
                spec_tiles_check(self.tiles@, i as int, major, self.schema@) is Ok,
            decreases self.tiles.len() - i,
        {
            let checked = validate_tile(&self.tiles, i, major, &self.schema);
            if let Err(e) = checked {
                proof {
                    reveal_with_fuel(spec_tiles_check, 2);
                    assert(spec_tiles_check(self.tiles@, i + 1, major, self.schema@) == Err::<
                        (),
                        RenderFailure,
                    >(e@));
                    lemma_tiles_check_err_stays(self.tiles@, i + 1, self.tiles@.len() as int, major, self.schema@);
                }
                return Err(e);
            }
            i = i + 1;
        }
        Ok(())
    }
}

// ---- declared resources -------------------------------------------------------------

pub open spec fn tile_resources(t: RenderTileDescriptor) -> Seq<RenderArtifactResource> {
    seq![t.artifact] + match t.semantic_index {
        Some(i) => seq![i.artifact],
        None => Seq::empty(),
    }
}

pub open spec fn tiles_resources(ts: Seq<RenderTileDescriptor>, n: int) -> Seq<RenderArtifactResource>
    decreases n,
{
    if n <= 0 {
        Seq::empty()
    } else {
        tiles_resources(ts, n - 1) + tile_resources(ts[n - 1])
    }
}

/// Every immutable resource a manifest declares, in order: each tile's artifact
/// followed by its tile-local index, then the manifest-global index.
pub open spec fn spec_resources(m: RenderArtifactManifest) -> Seq<RenderArtifactResource> {
    tiles_resources(m.tiles@, m.tiles@.len() as int) + match m.semantic_index {
        Some(i) => seq![i.artifact],
        None => Seq::empty(),
    }
}

impl RenderArtifactManifest {
    /// Every immutable resource declared anywhere in the manifest.
    pub fn resources(&self) -> (r: Vec<&RenderArtifactResource>)
        ensures
            r@.len() == spec_resources(*self).len(),
            forall|k: int| 0 <= k < r@.len() ==> *(#[trigger] r@[k]) == spec_resources(*self)[k],
    {
        let mut r: Vec<&RenderArtifactResource> = Vec::new();
        let mut i: usize = 0;
        while i < self.tiles.len()
            invariant
                i <= self.tiles.len(),
                r@.len() == tiles_resources(self.tiles@, i as int).len(),
                forall|k: int| 0 <= k < r@.len() ==> *(#[trigger] r@[k]) == tiles_resources(self.tiles@, i as int)[k],
            decreases self.tiles.len() - i,
        {
            let ghost before = tiles_resources(self.tiles@, i as int);
            let tile = &self.tiles[i];
            r.push(&tile.artifact);
            match &tile.semantic_index {
                Some(index) => {
                    r.push(&index.artifact);
                },
                None => {},
            }
            proof {
                let now = tiles_resources(self.tiles@, i + 1);
                assert(now == before + tile_resources(self.tiles@[i as int]));
                assert forall|k: int| 0 <= k < r@.len() implies *(#[trigger] r@[k]) == now[k] by {
                    if k < before.len() {
                    } else {
                        assert(now[k] == tile_resources(self.tiles@[i as int])[k - before.len()]);
                    }
                }
            }
            i = i + 1;
        }
        let ghost before = tiles_resources(self.tiles@, self.tiles@.len() as int);
        match &self.semantic_index {
            Some(index) => {
                r.push(&index.artifact);
            },
            None => {},
        }
        proof {
            let all = spec_resources(*self);
            assert forall|k: int| 0 <= k < r@.len() implies *(#[trigger] r@[k]) == all[k] by {
                if k < before.len() {
                } else {
                    assert(all[k] == (match self.semantic_index {
                        Some(ix) => seq![ix.artifact],
                        None => Seq::empty(),
                    })[k - before.len()]);
                }
            }
        }
        r
    }
}

/// `/v1/projects/<project_id>/render/<commit_hash>/objects/<sha256>`.
pub open spec fn canonical_uri(project_id: Seq<char>, commit_hash: Seq<char>, sha: Seq<char>) -> Seq<char> {
    "/v1/projects/"@ + project_id + "/render/"@ + commit_hash + "/objects/"@ + sha
}

/// `b` is `a` with its URI replaced by the bridge-owned object endpoint.
pub open spec fn resource_canonicalized(
    a: RenderArtifactResource,
    b: RenderArtifactResource,
    p: Seq<char>,
    c: Seq<char>,
) -> bool {
    b.content_type == a.content_type && b.sha256 == a.sha256 && b.byte_length == a.byte_length
        && b.uri@ == canonical_uri(p, c, a.sha256@)
}

pub open spec fn tile_canonicalized(
    a: RenderTileDescriptor,
    b: RenderTileDescriptor,
    p: Seq<char>,
    c: Seq<char>,
) -> bool {
    &&& b.tile_id == a.tile_id && b.lod == a.lod && b.group == a.group && b.bounds == a.bounds
        && b.geometric_error == a.geometric_error
    &&& resource_canonicalized(a.artifact, b.artifact, p, c)
    &&& match (a.semantic_index, b.semantic_index) {
        (Some(x), Some(y)) => x.schema == y.schema && x.entry_count == y.entry_count
            && resource_canonicalized(x.artifact, y.artifact, p, c),
        (None, None) => true,
        _ => false,
    }
}

fn canonical_uri_exec(project_id: &str, commit_hash: &str, sha: &str) -> (r: String)
    ensures
        r@ == canonical_uri(project_id@, commit_hash@, sha@),
{
    let a = cat(&chars_of("/v1/projects/"), &chars_of(project_id));
    let b = cat(&cat(&a, &chars_of("/render/")), &chars_of(commit_hash));
    string_of(&cat(&cat(&b, &chars_of("/objects/")), &chars_of(sha)))
}

impl RenderArtifactManifest {
    /// Rewrite every declared resource URI into the canonical, bridge-owned
    /// object endpoint for `project_id` and `commit_hash`; nothing else changes.
    pub fn canonicalize_resource_uris(&mut self, project_id: &str, commit_hash: &str)
        ensures
            final(self).schema == old(self).schema,
            final(self).project_id == old(self).project_id,
            final(self).commit_hash == old(self).commit_hash,
            final(self).artifact_id == old(self).artifact_id,
            final(self).generated_at == old(self).generated_at,
            final(self).render_policy == old(self).render_policy,
            final(self).tiles@.len() == old(self).tiles@.len(),
            forall|i: int|
                0 <= i < old(self).tiles@.len() ==> tile_canonicalized(
                    #[trigger] old(self).tiles@[i],
                    final(self).tiles@[i],
                    project_id@,
                    commit_hash@,
                ),
            match (old(self).semantic_index, final(self).semantic_index) {
                (Some(x), Some(y)) => x.schema == y.schema && x.entry_count == y.entry_count
                    && resource_canonicalized(x.artifact, y.artifact, project_id@, commit_hash@),
                (None, None) => true,
                _ => false,
            },
    {
        let ghost t0 = self.tiles@;
        let mut pending: Vec<RenderTileDescriptor> = Vec::new();
        std::mem::swap(&mut pending, &mut self.tiles);
        let mut done: Vec<RenderTileDescriptor> = Vec::new();
        let ghost mut taken: int = 0;
        while pending.len() > 0
            invariant
                0 <= taken <= t0.len(),
                pending@ == t0.subrange(taken, t0.len() as int),
                done@.len() == taken,
                forall|i: int| 0 <= i < taken ==> tile_canonicalized(
                    #[trigger] t0[i],
                    done@[i],
                    project_id@,
                    commit_hash@,
                ),
            decreases pending.len(),
        {
            let mut tile = pending.remove(0);
            let ghost t_old = tile;
            tile.artifact.uri = canonical_uri_exec(project_id, commit_hash, tile.artifact.sha256.as_str());
            match &mut tile.semantic_index {
                Some(index) => {
                    index.artifact.uri = canonical_uri_exec(project_id, commit_hash, index.artifact.sha256.as_str());
                },
                None => {},
            }
            proof {
                assert(t_old == t0[taken]);
                taken = taken + 1;
                assert(pending@ =~= t0.subrange(taken, t0.len() as int));
            }
            done.push(tile);
        }
        self.tiles = done;
        match &mut self.semantic_index {
            Some(index) => {
                index.artifact.uri = canonical_uri_exec(project_id, commit_hash, index.artifact.sha256.as_str());
            },
            None => {},
        }
    }
}

/// The human-readable text of a manifest validation failure.
pub open spec fn spec_render_failure_message(f: RenderFailure) -> Seq<char> {
    match f {
        RenderFailure::IncompatibleSchema { field, expected, actual } => field + " schema "@ + debug_text(actual)
            + " is not compatible with "@ + debug_text(expected),
        RenderFailure::MissingField(field) => field + " must not be empty"@,
        RenderFailure::UnexpectedField { field, schema } => field + " is not permitted by manifest schema "@
            + debug_text(schema),
        RenderFailure::InvalidPolicyId { actual } => "render policy id "@ + debug_text(actual)
            + " is not a namespaced tag"@,
        RenderFailure::DuplicateTileId(t) => "tile_id "@ + debug_text(t) + " is duplicated"@,
        RenderFailure::InvalidSha256 { resource } => "resource "@ + debug_text(resource)
            + " does not have a lowercase SHA-256"@,
        RenderFailure::InvalidBounds { tile_id } => "tile "@ + debug_text(tile_id) + " has invalid bounds"@,
        RenderFailure::InvalidGeometricError { tile_id } => "tile "@ + debug_text(tile_id)
            + " has an invalid geometric error"@,
    }
}

fn join3(a: &str, b: &str, c: &str) -> (r: String)
    ensures
        r@ == a@ + b@ + c@,
{
    string_of(&cat(&cat(&chars_of(a), &chars_of(b)), &chars_of(c)))
}

impl RenderArtifactValidationError {
    /// The human-readable text of this failure.
    pub fn message(&self) -> (r: String)
        ensures
            r@ == spec_render_failure_message(self@),
    {
        match self {
            RenderArtifactValidationError::IncompatibleSchema { field, expected, actual } => {
                let a = debug_quoted(actual.as_str());
                let e = debug_quoted(expected);
                let head = join3(field, " schema ", a.as_str());
                let r = join3(head.as_str(), " is not compatible with ", e.as_str());
                proof {
                    assert(r@ =~= field@ + " schema "@ + a@ + " is not compatible with "@ + e@);
                }
                r
            },
            RenderArtifactValidationError::MissingField(field) => {
                string_of(&cat(&chars_of(field), &chars_of(" must not be empty")))
            },
            RenderArtifactValidationError::UnexpectedField { field, schema } => {
                let d = debug_quoted(schema.as_str());
                join3(field, " is not permitted by manifest schema ", d.as_str())
            },
            RenderArtifactValidationError::InvalidPolicyId { actual } => {
                let d = debug_quoted(actual.as_str());
                join3("render policy id ", d.as_str(), " is not a namespaced tag")
            },
            RenderArtifactValidationError::DuplicateTileId(t) => {
                let d = debug_quoted(t.as_str());
                join3("tile_id ", d.as_str(), " is duplicated")
            },
            RenderArtifactValidationError::InvalidSha256 { resource } => {
                let d = debug_quoted(resource.as_str());
                join3("resource ", d.as_str(), " does not have a lowercase SHA-256")
            },
            RenderArtifactValidationError::InvalidBounds { tile_id } => {
                let d = debug_quoted(tile_id.as_str());
                join3("tile ", d.as_str(), " has invalid bounds")
            },
            RenderArtifactValidationError::InvalidGeometricError { tile_id } => {
                let d = debug_quoted(tile_id.as_str());
                join3("tile ", d.as_str(), " has an invalid geometric error")
            },
        }
    }
}


/// A resource the manifest may declare: a non-blank URI and content type, and
/// a digest of exactly 64 characters, each `0`-`9` or `a`-`f`.
pub open spec fn resource_well_formed(r: RenderArtifactResource) -> bool {
    &&& trim(r.uri@).len() > 0
    &&& trim(r.content_type@).len() > 0
    &&& r.sha256@.len() == 64
    &&& forall|k: int|
        0 <= k < 64 ==> ('0' as u32 <= (#[trigger] r.sha256@[k]) as u32 <= '9' as u32 || 'a' as u32
            <= r.sha256@[k] as u32 <= 'f' as u32)
}

proof fn lemma_tiles_check_ok_each(tiles: Seq<RenderTileDescriptor>, n: int, major: u32, schema: Seq<char>)
    requires
        0 <= n,
        spec_tiles_check(tiles, n, major, schema) is Ok,
    ensures
        forall|i: int| 0 <= i < n ==> (#[trigger] spec_tile_check(tiles, i, major, schema)) is Ok,
    decreases n,
{
    if n > 0 {
        lemma_tiles_check_ok_each(tiles, n - 1, major, schema);
    }
}

proof fn lemma_resource_ok(label: Seq<char>, r: RenderArtifactResource)
    requires
        spec_validate_resource(label, r) is Ok,
    ensures
        resource_well_formed(r),
{
    assert(is_lower_sha256(r.sha256@));
    assert forall|k: int| 0 <= k < 64 implies ('0' as u32 <= (#[trigger] r.sha256@[k]) as u32 <= '9' as u32
        || 'a' as u32 <= r.sha256@[k] as u32 <= 'f' as u32) by {
        assert(is_lower_hex(r.sha256@[k]));
    }
}

proof fn lemma_index_ok(label: Seq<char>, index: RenderSemanticIndexDescriptor)
    requires
        spec_validate_semantic_index(label, index) is Ok,
    ensures
        resource_well_formed(index.artifact),
{
    lemma_resource_ok(label, index.artifact);
}

proof fn lemma_tile_ok(tiles: Seq<RenderTileDescriptor>, i: int, major: u32, schema: Seq<char>)
    requires
        spec_tile_check(tiles, i, major, schema) is Ok,
    ensures
        resource_well_formed(tiles[i].artifact),
        tiles[i].semantic_index is Some ==> resource_well_formed(tiles[i].semantic_index->0.artifact),
{
    let t = tiles[i];
    lemma_resource_ok(tile_label(t.tile_id@), t.artifact);
    if major != 1 {
        if let Some(index) = t.semantic_index {
            lemma_index_ok(tile_index_label(t.tile_id@), index);
        }
    }
}

/// A manifest that validates declares only well-formed resources: every tile's
/// artifact, every tile-local semantic index and the manifest-global index.
pub proof fn law_valid_manifest_has_well_formed_resources(m: RenderArtifactManifest)
    requires
        spec_validate_manifest(m) is Ok,
    ensures
        forall|i: int| 0 <= i < m.tiles@.len() ==> resource_well_formed(#[trigger] m.tiles@[i].artifact),
        forall|i: int|
            0 <= i < m.tiles@.len() && m.tiles@[i].semantic_index is Some ==> resource_well_formed(
                (#[trigger] m.tiles@[i]).semantic_index->0.artifact,
            ),
        m.semantic_index is Some ==> resource_well_formed(m.semantic_index->0.artifact),
{
    let major = match spec_manifest_major(m.schema@) {
        Ok(v) => v,
        Err(_) => 0,
    };
    assert(spec_envelope_check(m, major) is Ok);
    lemma_tiles_check_ok_each(m.tiles@, m.tiles@.len() as int, major, m.schema@);
    assert forall|i: int| 0 <= i < m.tiles@.len() implies resource_well_formed(#[trigger] m.tiles@[i].artifact) by {
        assert(spec_tile_check(m.tiles@, i, major, m.schema@) is Ok);
        lemma_tile_ok(m.tiles@, i, major, m.schema@);
    }
    assert forall|i: int|
        0 <= i < m.tiles@.len() && m.tiles@[i].semantic_index is Some implies resource_well_formed(
            (#[trigger] m.tiles@[i]).semantic_index->0.artifact,
        ) by {
        assert(spec_tile_check(m.tiles@, i, major, m.schema@) is Ok);
        lemma_tile_ok(m.tiles@, i, major, m.schema@);
    }
    if major == 1 {
        if let Some(index) = m.semantic_index {
            lemma_index_ok("semantic_index"@, index);
        }
    }
}

} // verus!
