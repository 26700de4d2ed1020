//! Compiled-level records: the lumps of a level container that the
//! collision query walks, plus the remaining record kinds the container
//! carries. Scalars that the container stores as binary fractions are
//! held as fixed-point units (see `fx`).

use vstd::prelude::*;
use vstd::arithmetic::div_mod::lemma_fundamental_div_mod;
use crate::bytes::{
    fx32_at, le_i16_at, le_i32_at, le_u16_at, spec_fx32, spec_le_i16, spec_le_i32, spec_le_u16,
};
use crate::demo::Vector3;

verus! {

/// Offset and length of one lump inside the level container.
#[derive(Clone, Copy, Debug, PartialEq, Eq, Structural)]
pub struct Lump {
    pub fileofs: i32,
    pub filelen: i32,
}

/// A collision model: bounds, origin and the root node of each hull.
#[derive(Clone, Copy, Debug, PartialEq, Eq)]
pub struct DModel {
    pub mins: [i64; 3],
    pub maxs: [i64; 3],
    pub origin: [i64; 3],
    pub headnode: [i32; 4],
    pub visleafs: i32,
    pub firstface: i32,
    pub numfaces: i32,
}

/// One map vertex.
#[derive(Clone, Copy, Debug, PartialEq, Eq)]
pub struct DVertex {
    pub point: [i64; 3],
}

/// A plane equation: unit normal and signed distance.
#[derive(Clone, Copy, Debug, PartialEq, Eq, Structural)]
pub struct DPlane {
    pub normal: Vector3,
    pub dist: i64,
    pub type_: i32,
}

/// A node of the rendering tree.
#[derive(Clone, Copy, Debug, PartialEq, Eq)]
pub struct DNode {
    pub planenum: i32,
    pub children: [i16; 2],
    pub mins: [i16; 3],
    pub maxs: [i16; 3],
    pub firstface: u16,
    pub numfaces: u16,
}

/// A leaf of the rendering tree.
#[derive(Clone, Copy, Debug, PartialEq, Eq)]
pub struct DLeaf {
    pub contents: i32,
    pub visofs: i32,
    pub mins: [i16; 3],
    pub maxs: [i16; 3],
    pub firstleafface: u16,
    pub numleaffaces: u16,
    pub firstleafbrush: u16,
    pub numleafbrushes: u16,
    pub ambient_level: [u8; 4],
}

/// One surface.
#[derive(Clone, Copy, Debug, PartialEq, Eq)]
pub struct DFace {
    pub planenum: i16,
    pub side: i16,
    pub firstedge: i32,
    pub numedges: i16,
    pub texinfo: i16,
    pub styles: [u8; 4],
    pub lightofs: i32,
}

/// One edge, as a pair of vertex indices.
#[derive(Clone, Copy, Debug, PartialEq, Eq)]
pub struct DEdge {
    pub v: [u16; 2],
}

/// Texture projection data of a surface.
#[derive(Clone, Copy, Debug, PartialEq, Eq)]
pub struct DTexInfo {
    pub vecs: [[i64; 4]; 2],
    pub miptex: i32,
    pub flags: i32,
}

/// One brush.
#[derive(Clone, Copy, Debug, PartialEq, Eq, Structural)]
pub struct DBrush {
    pub firstside: i32,
    pub numsides: i32,
    pub contents: i32,
}

/// One side of a brush.
#[derive(Clone, Copy, Debug, PartialEq, Eq, Structural)]
pub struct DBrushSide {
    pub planenum: u16,
    pub texinfo: i16,
}

/// A node of a clip hull: a plane reference and two child references.
/// A non-negative child names another clip node; a negative child is a
/// leaf marker naming a content kind.
#[derive(Clone, Copy, Debug, PartialEq, Eq)]
pub struct DClipNode {
    pub planenum: i32,
    pub children: [i16; 2],
}

/// The decoded level: every lump the container carries, read-only for
/// the lifetime of an analysis. The entity text lump is kept as its
/// raw bytes.
pub struct BspData {
    pub entities: Vec<u8>,
    pub planes: Vec<DPlane>,
    pub texinfo: Vec<DTexInfo>,
    pub faces: Vec<DFace>,
    pub nodes: Vec<DNode>,
    pub leafs: Vec<DLeaf>,
    pub leaffaces: Vec<u16>,
    pub leafbrushes: Vec<u16>,
    pub models: Vec<DModel>,
    pub brushes: Vec<DBrush>,
    pub brushsides: Vec<DBrushSide>,
    pub vertexes: Vec<DVertex>,
    pub edges: Vec<DEdge>,
    pub surfedges: Vec<i32>,
    pub visdata: Vec<u8>,
    pub clipnodes: Vec<DClipNode>,
    pub lightmaps: Vec<u8>,
}

/// Why a level container was rejected.
#[derive(Clone, Copy, Debug, PartialEq, Eq, Structural)]
pub enum BspError {
    /// The container ends before a field or lump it promises.
    Truncated,
    /// The container's version word is not the supported one.
    BadVersion,
    /// A lump's offset and length do not fit inside the container.
    BadLump,
}

/// The lump-table entry at `off`.
pub open spec fn spec_decode_lump(b: Seq<u8>, off: int) -> Lump {
    Lump { fileofs: spec_le_i32(b, off) as i32, filelen: spec_le_i32(b, off + 4) as i32 }
}

/// The plane record at `off` (20 bytes).
pub open spec fn spec_decode_plane(b: Seq<u8>, off: int) -> DPlane {
    DPlane {
        normal: Vector3 {
            x: spec_fx32(b, off),
            y: spec_fx32(b, off + 4),
            z: spec_fx32(b, off + 8),
        },
        dist: spec_fx32(b, off + 12),
        type_: spec_le_i32(b, off + 16) as i32,
    }
}

/// The clip-node record at `off` (8 bytes).
pub open spec fn spec_decode_clipnode(b: Seq<u8>, off: int) -> DClipNode {
    DClipNode {
        planenum: spec_le_i32(b, off) as i32,
        children: [spec_le_i16(b, off + 4) as i16, spec_le_i16(b, off + 6) as i16],
    }
}

/// The model record at `off` (64 bytes).
pub open spec fn spec_decode_model(b: Seq<u8>, off: int) -> DModel {
    DModel {
        mins: [spec_fx32(b, off), spec_fx32(b, off + 4), spec_fx32(b, off + 8)],
        maxs: [spec_fx32(b, off + 12), spec_fx32(b, off + 16), spec_fx32(b, off + 20)],
        origin: [spec_fx32(b, off + 24), spec_fx32(b, off + 28), spec_fx32(b, off + 32)],
        headnode: [
            spec_le_i32(b, off + 36) as i32,
            spec_le_i32(b, off + 40) as i32,
            spec_le_i32(b, off + 44) as i32,
            spec_le_i32(b, off + 48) as i32,
        ],
        visleafs: spec_le_i32(b, off + 52) as i32,
        firstface: spec_le_i32(b, off + 56) as i32,
        numfaces: spec_le_i32(b, off + 60) as i32,
    }
}

/// The vertex record at `off` (12 bytes).
pub open spec fn spec_decode_vertex(b: Seq<u8>, off: int) -> DVertex {
    DVertex { point: [spec_fx32(b, off), spec_fx32(b, off + 4), spec_fx32(b, off + 8)] }
}

/// The node record at `off` (24 bytes).
pub open spec fn spec_decode_node(b: Seq<u8>, off: int) -> DNode {
    DNode {
        planenum: spec_le_i32(b, off) as i32,
        children: [spec_le_i16(b, off + 4) as i16, spec_le_i16(b, off + 6) as i16],
        mins: [
            spec_le_i16(b, off + 8) as i16,
            spec_le_i16(b, off + 10) as i16,
            spec_le_i16(b, off + 12) as i16,
        ],
        maxs: [
            spec_le_i16(b, off + 14) as i16,
            spec_le_i16(b, off + 16) as i16,
            spec_le_i16(b, off + 18) as i16,
        ],
        firstface: spec_le_u16(b, off + 20) as u16,
        numfaces: spec_le_u16(b, off + 22) as u16,
    }
}

/// The leaf record at `off` (28 bytes).
pub open spec fn spec_decode_leaf(b: Seq<u8>, off: int) -> DLeaf {
    DLeaf {
        contents: spec_le_i32(b, off) as i32,
        visofs: spec_le_i32(b, off + 4) as i32,
        mins: [
            spec_le_i16(b, off + 8) as i16,
            spec_le_i16(b, off + 10) as i16,
            spec_le_i16(b, off + 12) as i16,
        ],
        maxs: [
            spec_le_i16(b, off + 14) as i16,
            spec_le_i16(b, off + 16) as i16,
            spec_le_i16(b, off + 18) as i16,
        ],
        firstleafface: spec_le_u16(b, off + 20) as u16,
        numleaffaces: spec_le_u16(b, off + 22) as u16,
        firstleafbrush: spec_le_u16(b, off + 24) as u16,
        numleafbrushes: spec_le_u16(b, off + 26) as u16,
        ambient_level: [b[off + 28], b[off + 29], b[off + 30], b[off + 31]],
    }
}

/// The face record at `off` (20 bytes).
pub open spec fn spec_decode_face(b: Seq<u8>, off: int) -> DFace {
    DFace {
        planenum: spec_le_i16(b, off) as i16,
        side: spec_le_i16(b, off + 2) as i16,
        firstedge: spec_le_i32(b, off + 4) as i32,
        numedges: spec_le_i16(b, off + 8) as i16,
        texinfo: spec_le_i16(b, off + 10) as i16,
        styles: [b[off + 12], b[off + 13], b[off + 14], b[off + 15]],
        lightofs: spec_le_i32(b, off + 16) as i32,
    }
}

/// The edge record at `off` (4 bytes).
pub open spec fn spec_decode_edge(b: Seq<u8>, off: int) -> DEdge {
    DEdge { v: [spec_le_u16(b, off) as u16, spec_le_u16(b, off + 2) as u16] }
}

/// The texture-info record at `off` (40 bytes).
pub open spec fn spec_decode_texinfo(b: Seq<u8>, off: int) -> DTexInfo {
    DTexInfo {
        vecs: [
            [
                spec_fx32(b, off),
                spec_fx32(b, off + 4),
                spec_fx32(b, off + 8),
                spec_fx32(b, off + 12),
            ],
            [
                spec_fx32(b, off + 16),
                spec_fx32(b, off + 20),
                spec_fx32(b, off + 24),
                spec_fx32(b, off + 28),
            ],
        ],
        miptex: spec_le_i32(b, off + 32) as i32,
        flags: spec_le_i32(b, off + 36) as i32,
    }
}

/// The brush record at `off` (12 bytes).
pub open spec fn spec_decode_brush(b: Seq<u8>, off: int) -> DBrush {
    DBrush {
        firstside: spec_le_i32(b, off) as i32,
        numsides: spec_le_i32(b, off + 4) as i32,
        contents: spec_le_i32(b, off + 8) as i32,
    }
}

/// The brush-side record at `off` (4 bytes).
pub open spec fn spec_decode_brushside(b: Seq<u8>, off: int) -> DBrushSide {
    DBrushSide { planenum: spec_le_u16(b, off) as u16, texinfo: spec_le_i16(b, off + 2) as i16 }
}

} // verus!

verus! {

/// Decode one plane record.
pub fn decode_plane(b: &[u8], off: usize) -> (r: DPlane)
    requires
        off + 20 <= b@.len(),
    ensures
        r == spec_decode_plane(b@, off as int),
{
    let _total: usize = b.len();
    DPlane {
        normal: Vector3 { x: fx32_at(b, off), y: fx32_at(b, off + 4), z: fx32_at(b, off + 8) },
        dist: fx32_at(b, off + 12),
        type_: le_i32_at(b, off + 16),
    }
}

/// Decode `count` plane records from `off`.
pub fn decode_planes(b: &[u8], off: usize, count: usize) -> (r: Vec<DPlane>)
    requires
        off + count * 20 <= b@.len(),
    ensures
        r@.len() == count,
        forall|k: int| 0 <= k < count ==> r@[k] == spec_decode_plane(b@, off + 20 * k),
{
    let _total: usize = b.len();
    let mut r: Vec<DPlane> = Vec::new();
    let mut k: usize = 0;
    while k < count
        invariant
            b@.len() <= usize::MAX,
            k <= count,
            off + count * 20 <= b@.len(),
            r@.len() == k,
            forall|j: int| 0 <= j < k ==> r@[j] == spec_decode_plane(b@, off + 20 * j),
        decreases count - k,
    {
        r.push(decode_plane(b, off + 20 * k));
        k = k + 1;
    }
    r
}

/// Decode one clipnode record.
pub fn decode_clipnode(b: &[u8], off: usize) -> (r: DClipNode)
    requires
        off + 8 <= b@.len(),
    ensures
        r == spec_decode_clipnode(b@, off as int),
{
    let _total: usize = b.len();
    DClipNode {
        planenum: le_i32_at(b, off),
        children: [le_i16_at(b, off + 4), le_i16_at(b, off + 6)],
    }
}

/// Decode `count` clipnode records from `off`.
pub fn decode_clipnodes(b: &[u8], off: usize, count: usize) -> (r: Vec<DClipNode>)
    requires
        off + count * 8 <= b@.len(),
    ensures
        r@.len() == count,
        forall|k: int| 0 <= k < count ==> r@[k] == spec_decode_clipnode(b@, off + 8 * k),
{
    let _total: usize = b.len();
    let mut r: Vec<DClipNode> = Vec::new();
    let mut k: usize = 0;
    while k < count
        invariant
            b@.len() <= usize::MAX,
            k <= count,
            off + count * 8 <= b@.len(),
            r@.len() == k,
            forall|j: int| 0 <= j < k ==> r@[j] == spec_decode_clipnode(b@, off + 8 * j),
        decreases count - k,
    {
        r.push(decode_clipnode(b, off + 8 * k));
        k = k + 1;
    }
    r
}

/// Decode one model record.
pub fn decode_model(b: &[u8], off: usize) -> (r: DModel)
    requires
        off + 64 <= b@.len(),
    ensures
        r == spec_decode_model(b@, off as int),
{
    let _total: usize = b.len();
    DModel {
        mins: [fx32_at(b, off), fx32_at(b, off + 4), fx32_at(b, off + 8)],
        maxs: [fx32_at(b, off + 12), fx32_at(b, off + 16), fx32_at(b, off + 20)],
        origin: [fx32_at(b, off + 24), fx32_at(b, off + 28), fx32_at(b, off + 32)],
        headnode: [
            le_i32_at(b, off + 36),
            le_i32_at(b, off + 40),
            le_i32_at(b, off + 44),
            le_i32_at(b, off + 48),
        ],
        visleafs: le_i32_at(b, off + 52),
        firstface: le_i32_at(b, off + 56),
        numfaces: le_i32_at(b, off + 60),
    }
}

/// Decode `count` model records from `off`.
pub fn decode_models(b: &[u8], off: usize, count: usize) -> (r: Vec<DModel>)
    requires
        off + count * 64 <= b@.len(),
    ensures
        r@.len() == count,
        forall|k: int| 0 <= k < count ==> r@[k] == spec_decode_model(b@, off + 64 * k),
{
    let _total: usize = b.len();
    let mut r: Vec<DModel> = Vec::new();
    let mut k: usize = 0;
    while k < count
        invariant
            b@.len() <= usize::MAX,
            k <= count,
            off + count * 64 <= b@.len(),
            r@.len() == k,
            forall|j: int| 0 <= j < k ==> r@[j] == spec_decode_model(b@, off + 64 * j),
        decreases count - k,
    {
        r.push(decode_model(b, off + 64 * k));
        k = k + 1;
    }
    r
}

/// Decode one vertex record.
pub fn decode_vertex(b: &[u8], off: usize) -> (r: DVertex)
    requires
        off + 12 <= b@.len(),
    ensures
        r == spec_decode_vertex(b@, off as int),
{
    let _total: usize = b.len();
    DVertex { point: [fx32_at(b, off), fx32_at(b, off + 4), fx32_at(b, off + 8)] }
}

/// Decode `count` vertex records from `off`.
pub fn decode_vertexs(b: &[u8], off: usize, count: usize) -> (r: Vec<DVertex>)
    requires
        off + count * 12 <= b@.len(),
    ensures
        r@.len() == count,
        forall|k: int| 0 <= k < count ==> r@[k] == spec_decode_vertex(b@, off + 12 * k),
{
    let _total: usize = b.len();
    let mut r: Vec<DVertex> = Vec::new();
    let mut k: usize = 0;
    while k < count
        invariant
            b@.len() <= usize::MAX,
            k <= count,
            off + count * 12 <= b@.len(),
            r@.len() == k,
            forall|j: int| 0 <= j < k ==> r@[j] == spec_decode_vertex(b@, off + 12 * j),
        decreases count - k,
    {
        r.push(decode_vertex(b, off + 12 * k));
        k = k + 1;
    }
    r
}

/// Decode one node record.
pub fn decode_node(b: &[u8], off: usize) -> (r: DNode)
    requires
        off + 24 <= b@.len(),
    ensures
        r == spec_decode_node(b@, off as int),
{
    let _total: usize = b.len();
    DNode {
        planenum: le_i32_at(b, off),
        children: [le_i16_at(b, off + 4), le_i16_at(b, off + 6)],
        mins: [le_i16_at(b, off + 8), le_i16_at(b, off + 10), le_i16_at(b, off + 12)],
        maxs: [le_i16_at(b, off + 14), le_i16_at(b, off + 16), le_i16_at(b, off + 18)],
        firstface: le_u16_at(b, off + 20),
        numfaces: le_u16_at(b, off + 22),
    }
}

/// Decode `count` node records from `off`.
pub fn decode_nodes(b: &[u8], off: usize, count: usize) -> (r: Vec<DNode>)
    requires
        off + count * 24 <= b@.len(),
    ensures
        r@.len() == count,
        forall|k: int| 0 <= k < count ==> r@[k] == spec_decode_node(b@, off + 24 * k),
{
    let _total: usize = b.len();
    let mut r: Vec<DNode> = Vec::new();
    let mut k: usize = 0;
    while k < count
        invariant
            b@.len() <= usize::MAX,
            k <= count,
            off + count * 24 <= b@.len(),
            r@.len() == k,
            forall|j: int| 0 <= j < k ==> r@[j] == spec_decode_node(b@, off + 24 * j),
        decreases count - k,
    {
        r.push(decode_node(b, off + 24 * k));
        k = k + 1;
    }
    r
}

/// Decode one leaf record.
pub fn decode_leaf(b: &[u8], off: usize) -> (r: DLeaf)
    requires
        off + 32 <= b@.len(),
    ensures
        r == spec_decode_leaf(b@, off as int),
{
    let _total: usize = b.len();
    DLeaf {
        contents: le_i32_at(b, off),
        visofs: le_i32_at(b, off + 4),
        mins: [le_i16_at(b, off + 8), le_i16_at(b, off + 10), le_i16_at(b, off + 12)],
        maxs: [le_i16_at(b, off + 14), le_i16_at(b, off + 16), le_i16_at(b, off + 18)],
        firstleafface: le_u16_at(b, off + 20),
        numleaffaces: le_u16_at(b, off + 22),
        firstleafbrush: le_u16_at(b, off + 24),
        numleafbrushes: le_u16_at(b, off + 26),
        ambient_level: [b[off + 28], b[off + 29], b[off + 30], b[off + 31]],
    }
}

/// Decode `count` leaf records from `off`.
pub fn decode_leafs(b: &[u8], off: usize, count: usize) -> (r: Vec<DLeaf>)
    requires
        off + count * 32 <= b@.len(),
    ensures
        r@.len() == count,
        forall|k: int| 0 <= k < count ==> r@[k] == spec_decode_leaf(b@, off + 32 * k),
{
    let _total: usize = b.len();
    let mut r: Vec<DLeaf> = Vec::new();
    let mut k: usize = 0;
    while k < count
        invariant
            b@.len() <= usize::MAX,
            k <= count,
            off + count * 32 <= b@.len(),
            r@.len() == k,
            forall|j: int| 0 <= j < k ==> r@[j] == spec_decode_leaf(b@, off + 32 * j),
        decreases count - k,
    {
        r.push(decode_leaf(b, off + 32 * k));
        k = k + 1;
    }
    r
}

/// Decode one face record.
pub fn decode_face(b: &[u8], off: usize) -> (r: DFace)
    requires
        off + 20 <= b@.len(),
    ensures
        r == spec_decode_face(b@, off as int),
{
    let _total: usize = b.len();
    DFace {
        planenum: le_i16_at(b, off),
        side: le_i16_at(b, off + 2),
        firstedge: le_i32_at(b, off + 4),
        numedges: le_i16_at(b, off + 8),
        texinfo: le_i16_at(b, off + 10),
        styles: [b[off + 12], b[off + 13], b[off + 14], b[off + 15]],
        lightofs: le_i32_at(b, off + 16),
    }
}

/// Decode `count` face records from `off`.
pub fn decode_faces(b: &[u8], off: usize, count: usize) -> (r: Vec<DFace>)
    requires
        off + count * 20 <= b@.len(),
    ensures
        r@.len() == count,
        forall|k: int| 0 <= k < count ==> r@[k] == spec_decode_face(b@, off + 20 * k),
{
    let _total: usize = b.len();
    let mut r: Vec<DFace> = Vec::new();
    let mut k: usize = 0;
    while k < count
        invariant
            b@.len() <= usize::MAX,
            k <= count,
            off + count * 20 <= b@.len(),
            r@.len() == k,
            forall|j: int| 0 <= j < k ==> r@[j] == spec_decode_face(b@, off + 20 * j),
        decreases count - k,
    {
        r.push(decode_face(b, off + 20 * k));
        k = k + 1;
    }
    r
}

/// Decode one edge record.
pub fn decode_edge(b: &[u8], off: usize) -> (r: DEdge)
    requires
        off + 4 <= b@.len(),
    ensures
        r == spec_decode_edge(b@, off as int),
{
    let _total: usize = b.len();
    DEdge { v: [le_u16_at(b, off), le_u16_at(b, off + 2)] }
}

/// Decode `count` edge records from `off`.
pub fn decode_edges(b: &[u8], off: usize, count: usize) -> (r: Vec<DEdge>)
    requires
        off + count * 4 <= b@.len(),
    ensures
        r@.len() == count,
        forall|k: int| 0 <= k < count ==> r@[k] == spec_decode_edge(b@, off + 4 * k),
{
    let _total: usize = b.len();
    let mut r: Vec<DEdge> = Vec::new();
    let mut k: usize = 0;
    while k < count
        invariant
            b@.len() <= usize::MAX,
            k <= count,
            off + count * 4 <= b@.len(),
            r@.len() == k,
            forall|j: int| 0 <= j < k ==> r@[j] == spec_decode_edge(b@, off + 4 * j),
        decreases count - k,
    {
        r.push(decode_edge(b, off + 4 * k));
        k = k + 1;
    }
    r
}

/// Decode one texinfo record.
pub fn decode_texinfo(b: &[u8], off: usize) -> (r: DTexInfo)
    requires
        off + 40 <= b@.len(),
    ensures
        r == spec_decode_texinfo(b@, off as int),
{
    let _total: usize = b.len();
    DTexInfo {
        vecs: [
            [fx32_at(b, off), fx32_at(b, off + 4), fx32_at(b, off + 8), fx32_at(b, off + 12)],
            [
                fx32_at(b, off + 16),
                fx32_at(b, off + 20),
                fx32_at(b, off + 24),
                fx32_at(b, off + 28),
            ],
        ],
        miptex: le_i32_at(b, off + 32),
        flags: le_i32_at(b, off + 36),
    }
}

/// Decode `count` texinfo records from `off`.
pub fn decode_texinfos(b: &[u8], off: usize, count: usize) -> (r: Vec<DTexInfo>)
    requires
        off + count * 40 <= b@.len(),
    ensures
        r@.len() == count,
        forall|k: int| 0 <= k < count ==> r@[k] == spec_decode_texinfo(b@, off + 40 * k),
{
    let _total: usize = b.len();
    let mut r: Vec<DTexInfo> = Vec::new();
    let mut k: usize = 0;
    while k < count
        invariant
            b@.len() <= usize::MAX,
            k <= count,
            off + count * 40 <= b@.len(),
            r@.len() == k,
            forall|j: int| 0 <= j < k ==> r@[j] == spec_decode_texinfo(b@, off + 40 * j),
        decreases count - k,
    {
        r.push(decode_texinfo(b, off + 40 * k));
        k = k + 1;
    }
    r
}

/// Decode one brush record.
pub fn decode_brush(b: &[u8], off: usize) -> (r: DBrush)
    requires
        off + 12 <= b@.len(),
    ensures
        r == spec_decode_brush(b@, off as int),
{
    let _total: usize = b.len();
    DBrush {
        firstside: le_i32_at(b, off),
        numsides: le_i32_at(b, off + 4),
        contents: le_i32_at(b, off + 8),
    }
}

/// Decode `count` brush records from `off`.
pub fn decode_brushs(b: &[u8], off: usize, count: usize) -> (r: Vec<DBrush>)
    requires
        off + count * 12 <= b@.len(),
    ensures
        r@.len() == count,
        forall|k: int| 0 <= k < count ==> r@[k] == spec_decode_brush(b@, off + 12 * k),
{
    let _total: usize = b.len();
    let mut r: Vec<DBrush> = Vec::new();
    let mut k: usize = 0;
    while k < count
        invariant
            b@.len() <= usize::MAX,
            k <= count,
            off + count * 12 <= b@.len(),
            r@.len() == k,
            forall|j: int| 0 <= j < k ==> r@[j] == spec_decode_brush(b@, off + 12 * j),
        decreases count - k,
    {
        r.push(decode_brush(b, off + 12 * k));
        k = k + 1;
    }
    r
}

/// Decode one brushside record.
pub fn decode_brushside(b: &[u8], off: usize) -> (r: DBrushSide)
    requires
        off + 4 <= b@.len(),
    ensures
        r == spec_decode_brushside(b@, off as int),
{
    let _total: usize = b.len();
    DBrushSide { planenum: le_u16_at(b, off), texinfo: le_i16_at(b, off + 2) }
}

/// Decode `count` brushside records from `off`.
pub fn decode_brushsides(b: &[u8], off: usize, count: usize) -> (r: Vec<DBrushSide>)
    requires
        off + count * 4 <= b@.len(),
    ensures
        r@.len() == count,
        forall|k: int| 0 <= k < count ==> r@[k] == spec_decode_brushside(b@, off + 4 * k),
{
    let _total: usize = b.len();
    let mut r: Vec<DBrushSide> = Vec::new();
    let mut k: usize = 0;
    while k < count
        invariant
            b@.len() <= usize::MAX,
            k <= count,
            off + count * 4 <= b@.len(),
            r@.len() == k,
            forall|j: int| 0 <= j < k ==> r@[j] == spec_decode_brushside(b@, off + 4 * j),
        decreases count - k,
    {
        r.push(decode_brushside(b, off + 4 * k));
        k = k + 1;
    }
    r
}

/// Decode `count` little-endian 16-bit fields from `off`.
pub fn decode_u16s(b: &[u8], off: usize, count: usize) -> (r: Vec<u16>)
    requires
        off + count * 2 <= b@.len(),
    ensures
        r@.len() == count,
        forall|k: int| 0 <= k < count ==> r@[k] as int == spec_le_u16(b@, off + 2 * k),
{
    let _total: usize = b.len();
    let mut r: Vec<u16> = Vec::new();
    let mut k: usize = 0;
    while k < count
        invariant
            b@.len() <= usize::MAX,
            k <= count,
            off + count * 2 <= b@.len(),
            r@.len() == k,
            forall|j: int| 0 <= j < k ==> r@[j] as int == spec_le_u16(b@, off + 2 * j),
        decreases count - k,
    {
        r.push(le_u16_at(b, off + 2 * k));
        k = k + 1;
    }
    r
}

/// Decode `count` little-endian signed 32-bit fields from `off`.
pub fn decode_i32s(b: &[u8], off: usize, count: usize) -> (r: Vec<i32>)
    requires
        off + count * 4 <= b@.len(),
    ensures
        r@.len() == count,
        forall|k: int| 0 <= k < count ==> r@[k] as int == spec_le_i32(b@, off + 4 * k),
{
    let _total: usize = b.len();
    let mut r: Vec<i32> = Vec::new();
    let mut k: usize = 0;
    while k < count
        invariant
            b@.len() <= usize::MAX,
            k <= count,
            off + count * 4 <= b@.len(),
            r@.len() == k,
            forall|j: int| 0 <= j < k ==> r@[j] as int == spec_le_i32(b@, off + 4 * j),
        decreases count - k,
    {
        r.push(le_i32_at(b, off + 4 * k));
        k = k + 1;
    }
    r
}

/// Copy `len` raw bytes from `off`.
pub fn bytes_at(b: &[u8], off: usize, len: usize) -> (r: Vec<u8>)
    requires
        off + len <= b@.len(),
    ensures
        r@ == b@.subrange(off as int, off as int + len as int),
{
    let _total: usize = b.len();
    let sl: &[u8] = vstd::slice::slice_subrange(b, off, off + len);
    vstd::slice::slice_to_vec(sl)
}

} // verus!

verus! {

/// Decode one lump-table entry.
pub fn decode_lump(b: &[u8], off: usize) -> (r: Lump)
    requires
        off + 8 <= b@.len(),
    ensures
        r == spec_decode_lump(b@, off as int),
{
    let _total: usize = b.len();
    Lump { fileofs: le_i32_at(b, off), filelen: le_i32_at(b, off + 4) }
}

/// Lump-table entry `i` of the container.
pub open spec fn spec_lump(b: Seq<u8>, i: int) -> Lump {
    spec_decode_lump(b, 4 + 8 * i)
}

/// Whether lump `i` names a range inside the container.
pub open spec fn spec_lump_ok(b: Seq<u8>, i: int) -> bool {
    let l = spec_lump(b, i);
    &&& 0 <= l.fileofs
    &&& 0 <= l.filelen
    &&& l.fileofs + l.filelen <= b.len()
}

/// Whether every lump names a range inside the container.
pub open spec fn spec_lumps_ok(b: Seq<u8>) -> bool {
    forall|i: int| 0 <= i < 15 ==> spec_lump_ok(b, i)
}

/// What a successful decode holds: each lump cut into its records,
/// exactly as the record layouts above give them.
pub open spec fn spec_bsp_matches(d: BspData, b: Seq<u8>) -> bool {
    &&& d.entities@ == b.subrange(
        spec_lump(b, 0).fileofs as int,
        spec_lump(b, 0).fileofs + spec_lump(b, 0).filelen,
    )
    &&& d.planes@.len() == spec_lump(b, 1).filelen / 20
    &&& (forall|k: int|
        0 <= k < d.planes@.len() ==> (#[trigger] d.planes@[k]) == spec_decode_plane(
            b,
            spec_lump(b, 1).fileofs + 20 * k,
        ))
    &&& d.texinfo@.len() == spec_lump(b, 2).filelen / 40
    &&& (forall|k: int|
        0 <= k < d.texinfo@.len() ==> (#[trigger] d.texinfo@[k]) == spec_decode_texinfo(
            b,
            spec_lump(b, 2).fileofs + 40 * k,
        ))
    &&& d.vertexes@.len() == spec_lump(b, 3).filelen / 12
    &&& (forall|k: int|
        0 <= k < d.vertexes@.len() ==> (#[trigger] d.vertexes@[k]) == spec_decode_vertex(
            b,
            spec_lump(b, 3).fileofs + 12 * k,
        ))
    &&& d.clipnodes@.len() == spec_lump(b, 4).filelen / 8
    &&& (forall|k: int|
        0 <= k < d.clipnodes@.len() ==> (#[trigger] d.clipnodes@[k]) == spec_decode_clipnode(
            b,
            spec_lump(b, 4).fileofs + 8 * k,
        ))
    &&& d.nodes@.len() == spec_lump(b, 5).filelen / 24
    &&& (forall|k: int|
        0 <= k < d.nodes@.len() ==> (#[trigger] d.nodes@[k]) == spec_decode_node(
            b,
            spec_lump(b, 5).fileofs + 24 * k,
        ))
    &&& d.brushes@.len() == spec_lump(b, 6).filelen / 12
    &&& (forall|k: int|
        0 <= k < d.brushes@.len() ==> (#[trigger] d.brushes@[k]) == spec_decode_brush(
            b,
            spec_lump(b, 6).fileofs + 12 * k,
        ))
    &&& d.faces@.len() == spec_lump(b, 7).filelen / 20
    &&& (forall|k: int|
        0 <= k < d.faces@.len() ==> (#[trigger] d.faces@[k]) == spec_decode_face(
            b,
            spec_lump(b, 7).fileofs + 20 * k,
        ))
    &&& d.lightmaps@ == b.subrange(
        spec_lump(b, 8).fileofs as int,
        spec_lump(b, 8).fileofs + spec_lump(b, 8).filelen,
    )
    &&& d.brushsides@.len() == spec_lump(b, 9).filelen / 4
    &&& (forall|k: int|
        0 <= k < d.brushsides@.len() ==> (#[trigger] d.brushsides@[k]) == spec_decode_brushside(
            b,
            spec_lump(b, 9).fileofs + 4 * k,
        ))
    &&& d.leafs@.len() == spec_lump(b, 10).filelen / 32
    &&& (forall|k: int|
        0 <= k < d.leafs@.len() ==> (#[trigger] d.leafs@[k]) == spec_decode_leaf(
            b,
            spec_lump(b, 10).fileofs + 32 * k,
        ))
    &&& d.leaffaces@.len() == spec_lump(b, 11).filelen / 2
    &&& (forall|k: int|
        0 <= k < d.leaffaces@.len() ==> (#[trigger] d.leaffaces@[k]) as int == spec_le_u16(
            b,
            spec_lump(b, 11).fileofs + 2 * k,
        ))
    &&& d.edges@.len() == spec_lump(b, 12).filelen / 4
    &&& (forall|k: int|
        0 <= k < d.edges@.len() ==> (#[trigger] d.edges@[k]) == spec_decode_edge(
            b,
            spec_lump(b, 12).fileofs + 4 * k,
        ))
    &&& d.surfedges@.len() == spec_lump(b, 13).filelen / 4
    &&& (forall|k: int|
        0 <= k < d.surfedges@.len() ==> (#[trigger] d.surfedges@[k]) as int == spec_le_i32(
            b,
            spec_lump(b, 13).fileofs + 4 * k,
        ))
    &&& d.leafbrushes@.len() == spec_lump(b, 13).filelen / 2
    &&& (forall|k: int|
        0 <= k < d.leafbrushes@.len() ==> (#[trigger] d.leafbrushes@[k]) as int == spec_le_u16(
            b,
            spec_lump(b, 13).fileofs + 2 * k,
        ))
    &&& d.models@.len() == spec_lump(b, 14).filelen / 64
    &&& (forall|k: int|
        0 <= k < d.models@.len() ==> (#[trigger] d.models@[k]) == spec_decode_model(
            b,
            spec_lump(b, 14).fileofs + 64 * k,
        ))
    &&& d.visdata@ == b.subrange(
        spec_lump(b, 4).fileofs as int,
        spec_lump(b, 4).fileofs + spec_lump(b, 4).filelen,
    )
}

/// Floored record counts stay inside their lump.
proof fn lemma_count_fits(flen: int, size: int)
    requires
        0 <= flen,
        0 < size,
    ensures
        (flen / size) * size <= flen,
        0 <= flen / size,
{
    vstd::arithmetic::div_mod::lemma_fundamental_div_mod(flen, size);
    vstd::arithmetic::div_mod::lemma_mod_division_less_than_divisor(flen, size);
    vstd::arithmetic::div_mod::lemma_div_pos_is_pos(flen, size);
    assert(size * (flen / size) == (flen / size) * size) by (nonlinear_arith);
    assert(flen % size >= 0) by {
        vstd::arithmetic::div_mod::lemma_mod_bound(flen, size);
    }
}

/// Decode a level container: check the version word, read the fifteen
/// lump-table entries, reject any lump that reaches outside the
/// container, and cut every lump into its records. The errors come
/// exactly when their conditions hold: a container shorter than its
/// header is truncated, a version word other than 30 is unsupported,
/// and an out-of-range lump is rejected.
pub fn decode_bsp(bytes: &[u8]) -> (r: Result<BspData, BspError>)
    ensures
        bytes@.len() < 4 ==> r == Err::<BspData, BspError>(BspError::Truncated),
        bytes@.len() >= 4 && spec_le_i32(bytes@, 0) != 30 ==> r == Err::<BspData, BspError>(
            BspError::BadVersion,
        ),
        bytes@.len() >= 4 && spec_le_i32(bytes@, 0) == 30 && bytes@.len() < 124 ==> r == Err::<
            BspData,
            BspError,
        >(BspError::Truncated),
        bytes@.len() >= 124 && spec_le_i32(bytes@, 0) == 30 && !spec_lumps_ok(bytes@) ==> r
            == Err::<BspData, BspError>(BspError::BadLump),
        bytes@.len() >= 124 && spec_le_i32(bytes@, 0) == 30 && spec_lumps_ok(bytes@) ==> (r
            matches Ok(d) && spec_bsp_matches(d, bytes@)),
{
    let total: usize = bytes.len();
    if total < 4 {
        return Err(BspError::Truncated);
    }
    let version: i32 = le_i32_at(bytes, 0);
    if version != 30 {
        return Err(BspError::BadVersion);
    }
    if total < 124 {
        return Err(BspError::Truncated);
    }
    let mut i: usize = 0;
    while i < 15
        invariant
            i <= 15,
            bytes@.len() >= 124,
            spec_le_i32(bytes@, 0) == 30,
            forall|j: int| 0 <= j < i ==> spec_lump_ok(bytes@, j),
        decreases 15 - i,
    {
        let l: Lump = decode_lump(bytes, 4 + 8 * i);
        proof {
            assert(l == spec_lump(bytes@, i as int));
        }
        if l.fileofs < 0 || l.filelen < 0 {
            proof {
                assert(!spec_lump_ok(bytes@, i as int));
                assert(!spec_lumps_ok(bytes@));
            }
            return Err(BspError::BadLump);
        }
        if (l.fileofs as u64) + (l.filelen as u64) > (bytes.len() as u64) {
            proof {
                assert(!spec_lump_ok(bytes@, i as int));
                assert(!spec_lumps_ok(bytes@));
            }
            return Err(BspError::BadLump);
        }
        i = i + 1;
    }
    let l0: Lump = decode_lump(bytes, 4);
    let l1: Lump = decode_lump(bytes, 12);
    let l2: Lump = decode_lump(bytes, 20);
    let l3: Lump = decode_lump(bytes, 28);
    let l4: Lump = decode_lump(bytes, 36);
    let l5: Lump = decode_lump(bytes, 44);
    let l6: Lump = decode_lump(bytes, 52);
    let l7: Lump = decode_lump(bytes, 60);
    let l8: Lump = decode_lump(bytes, 68);
    let l9: Lump = decode_lump(bytes, 76);
    let l10: Lump = decode_lump(bytes, 84);
    let l11: Lump = decode_lump(bytes, 92);
    let l12: Lump = decode_lump(bytes, 100);
    let l13: Lump = decode_lump(bytes, 108);
    let l14: Lump = decode_lump(bytes, 116);
    proof {
        assert(l0 == spec_lump(bytes@, 0));
        assert(l1 == spec_lump(bytes@, 1));
        assert(l2 == spec_lump(bytes@, 2));
        assert(l3 == spec_lump(bytes@, 3));
        assert(l4 == spec_lump(bytes@, 4));
        assert(l5 == spec_lump(bytes@, 5));
        assert(l6 == spec_lump(bytes@, 6));
        assert(l7 == spec_lump(bytes@, 7));
        assert(l8 == spec_lump(bytes@, 8));
        assert(l9 == spec_lump(bytes@, 9));
        assert(l10 == spec_lump(bytes@, 10));
        assert(l11 == spec_lump(bytes@, 11));
        assert(l12 == spec_lump(bytes@, 12));
        assert(l13 == spec_lump(bytes@, 13));
        assert(l14 == spec_lump(bytes@, 14));
        assert(spec_lump_ok(bytes@, 0));
        assert(spec_lump_ok(bytes@, 1));
        assert(spec_lump_ok(bytes@, 2));
        assert(spec_lump_ok(bytes@, 3));
        assert(spec_lump_ok(bytes@, 4));
        assert(spec_lump_ok(bytes@, 5));
        assert(spec_lump_ok(bytes@, 6));
        assert(spec_lump_ok(bytes@, 7));
        assert(spec_lump_ok(bytes@, 8));
        assert(spec_lump_ok(bytes@, 9));
        assert(spec_lump_ok(bytes@, 10));
        assert(spec_lump_ok(bytes@, 11));
        assert(spec_lump_ok(bytes@, 12));
        assert(spec_lump_ok(bytes@, 13));
        assert(spec_lump_ok(bytes@, 14));
        lemma_count_fits(l1.filelen as int, 20);
        lemma_count_fits(l2.filelen as int, 40);
        lemma_count_fits(l3.filelen as int, 12);
        lemma_count_fits(l4.filelen as int, 8);
        lemma_count_fits(l5.filelen as int, 24);
        lemma_count_fits(l6.filelen as int, 12);
        lemma_count_fits(l7.filelen as int, 20);
        lemma_count_fits(l9.filelen as int, 4);
        lemma_count_fits(l10.filelen as int, 32);
        lemma_count_fits(l11.filelen as int, 2);
        lemma_count_fits(l12.filelen as int, 4);
        lemma_count_fits(l13.filelen as int, 4);
        lemma_count_fits(l13.filelen as int, 2);
        lemma_count_fits(l14.filelen as int, 64);
    }
    let entities: Vec<u8> = bytes_at(bytes, l0.fileofs as usize, l0.filelen as usize);
    let planes: Vec<DPlane> = decode_planes(bytes, l1.fileofs as usize, (l1.filelen as usize)
        / 20);
    let texinfo: Vec<DTexInfo> = decode_texinfos(bytes, l2.fileofs as usize, (l2.filelen as usize)
        / 40);
    let vertexes: Vec<DVertex> = decode_vertexs(bytes, l3.fileofs as usize, (l3.filelen as usize)
        / 12);
    let clipnodes: Vec<DClipNode> = decode_clipnodes(
        bytes,
        l4.fileofs as usize,
        (l4.filelen as usize) / 8,
    );
    let nodes: Vec<DNode> = decode_nodes(bytes, l5.fileofs as usize, (l5.filelen as usize) / 24);
    let brushes: Vec<DBrush> = decode_brushs(bytes, l6.fileofs as usize, (l6.filelen as usize)
        / 12);
    let faces: Vec<DFace> = decode_faces(bytes, l7.fileofs as usize, (l7.filelen as usize) / 20);
    let lightmaps: Vec<u8> = bytes_at(bytes, l8.fileofs as usize, l8.filelen as usize);
    let brushsides: Vec<DBrushSide> = decode_brushsides(
        bytes,
        l9.fileofs as usize,
        (l9.filelen as usize) / 4,
    );
    let leafs: Vec<DLeaf> = decode_leafs(bytes, l10.fileofs as usize, (l10.filelen as usize) / 32);
    let leaffaces: Vec<u16> = decode_u16s(bytes, l11.fileofs as usize, (l11.filelen as usize) / 2);
    let edges: Vec<DEdge> = decode_edges(bytes, l12.fileofs as usize, (l12.filelen as usize) / 4);
    let surfedges: Vec<i32> = decode_i32s(bytes, l13.fileofs as usize, (l13.filelen as usize) / 4);
    let leafbrushes: Vec<u16> = decode_u16s(bytes, l13.fileofs as usize, (l13.filelen as usize)
        / 2);
    let models: Vec<DModel> = decode_models(bytes, l14.fileofs as usize, (l14.filelen as usize)
        / 64);
    let visdata: Vec<u8> = bytes_at(bytes, l4.fileofs as usize, l4.filelen as usize);
    Ok(
        BspData {
            entities,
            planes,
            texinfo,
            faces,
            nodes,
            leafs,
            leaffaces,
            leafbrushes,
            models,
            brushes,
            brushsides,
            vertexes,
            edges,
            surfedges,
            visdata,
            clipnodes,
            lightmaps,
        },
    )
}

} // verus!
