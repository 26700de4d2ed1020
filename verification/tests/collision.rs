use jumpscan::analyze::{contents_of, is_clipped, LeafContents};
use jumpscan::bspfile::{BspData, DClipNode, DModel, DPlane};
use jumpscan::demo::Vector3;

fn v(x: i64, y: i64, z: i64) -> Vector3 {
    Vector3 { x, y, z }
}

fn empty_bsp() -> BspData {
    BspData {
        entities: Vec::new(),
        planes: Vec::new(),
        texinfo: Vec::new(),
        faces: Vec::new(),
        nodes: Vec::new(),
        leafs: Vec::new(),
        leaffaces: Vec::new(),
        leafbrushes: Vec::new(),
        models: Vec::new(),
        brushes: Vec::new(),
        brushsides: Vec::new(),
        vertexes: Vec::new(),
        edges: Vec::new(),
        surfedges: Vec::new(),
        visdata: Vec::new(),
        clipnodes: Vec::new(),
        lightmaps: Vec::new(),
    }
}

fn model_with_hull(root: i32) -> DModel {
    DModel {
        mins: [0, 0, 0],
        maxs: [0, 0, 0],
        origin: [0, 0, 0],
        headnode: [0, root, 0, 0],
        visleafs: 0,
        firstface: 0,
        numfaces: 0,
    }
}

fn plane(n: Vector3, dist: i64, type_: i32) -> DPlane {
    DPlane { normal: n, dist, type_ }
}

/// One open cuboid room from (0,0,0) to (1000,2000,3000) fixed-point
/// units, bounded by solid walls on all six sides.
fn room() -> BspData {
    let mut bsp = empty_bsp();
    bsp.models.push(model_with_hull(0));
    bsp.planes.push(plane(v(1000, 0, 0), 0, 0));
    bsp.planes.push(plane(v(1000, 0, 0), 1000, 0));
    bsp.planes.push(plane(v(0, 1000, 0), 0, 1));
    bsp.planes.push(plane(v(0, 1000, 0), 2000, 1));
    bsp.planes.push(plane(v(0, 0, 1000), 0, 2));
    bsp.planes.push(plane(v(0, 0, 1000), 3000, 2));
    bsp.clipnodes.push(DClipNode { planenum: 0, children: [1, -2] });
    bsp.clipnodes.push(DClipNode { planenum: 1, children: [-2, 2] });
    bsp.clipnodes.push(DClipNode { planenum: 2, children: [3, -2] });
    bsp.clipnodes.push(DClipNode { planenum: 3, children: [-2, 4] });
    bsp.clipnodes.push(DClipNode { planenum: 4, children: [5, -2] });
    bsp.clipnodes.push(DClipNode { planenum: 5, children: [-2, -1] });
    bsp
}

#[test]
fn points_inside_the_room_are_open() {
    let bsp = room();
    assert!(!is_clipped(v(500, 500, 500), &bsp));
    assert!(!is_clipped(v(1, 1, 1), &bsp));
    assert!(!is_clipped(v(999, 1999, 2999), &bsp));
}

#[test]
fn points_outside_the_room_are_blocked() {
    let bsp = room();
    assert!(is_clipped(v(-1, 500, 500), &bsp));
    assert!(is_clipped(v(1000, 500, 500), &bsp));
    assert!(is_clipped(v(500, -3, 500), &bsp));
    assert!(is_clipped(v(500, 2000, 500), &bsp));
    assert!(is_clipped(v(500, 500, -10), &bsp));
    assert!(is_clipped(v(500, 500, 3000), &bsp));
    assert!(is_clipped(v(-500, -500, -500), &bsp));
}

#[test]
fn missing_model_fails_closed() {
    let bsp = empty_bsp();
    assert!(is_clipped(v(0, 0, 0), &bsp));
}

#[test]
fn out_of_range_node_fails_closed() {
    let mut bsp = empty_bsp();
    bsp.models.push(model_with_hull(7));
    bsp.clipnodes.push(DClipNode { planenum: 0, children: [-1, -1] });
    bsp.planes.push(plane(v(1000, 0, 0), 0, 0));
    assert!(is_clipped(v(0, 0, 0), &bsp));
}

#[test]
fn out_of_range_plane_fails_closed() {
    let mut bsp = empty_bsp();
    bsp.models.push(model_with_hull(0));
    bsp.clipnodes.push(DClipNode { planenum: 3, children: [-1, -1] });
    assert!(is_clipped(v(0, 0, 0), &bsp));
}

#[test]
fn cyclic_tree_fails_closed() {
    let mut bsp = empty_bsp();
    bsp.models.push(model_with_hull(0));
    bsp.planes.push(plane(v(1000, 0, 0), 0, 0));
    bsp.clipnodes.push(DClipNode { planenum: 0, children: [0, 0] });
    assert!(is_clipped(v(5, 5, 5), &bsp));
}

#[test]
fn leaf_marker_decoding() {
    assert_eq!(contents_of(-1), LeafContents::Empty);
    assert_eq!(contents_of(-2), LeafContents::Solid);
    assert_eq!(contents_of(-7), LeafContents::Other(-7));
}
