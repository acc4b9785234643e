use tracer::fixed::{FX_EPS, FX_BIG, FX_ONE};
use tracer::mesh::{Mesh, MeshError};
use tracer::ray::Ray;
use tracer::vec3::Vec3;

fn v(x: i128, y: i128, z: i128) -> Vec3 {
    Vec3 { x, y, z }
}

fn text(s: &str) -> Vec<u8> {
    s.as_bytes().to_vec()
}

#[test]
fn mesh_round_trip_counts_and_bounds() {
    // Three vertex lines and one triangular face line yield exactly one
    // triangle with the vertex coordinates from the text, and a bounding
    // box equal to the per-axis extremes plus the offset.
    let src = "v 0 0 0\nv 1 0 0\nv 0 2 -1\nf 1 2 3\n";
    let offset = v(10 * FX_ONE, 0, 0);
    let mesh = Mesh::from_text(&text(src), offset).expect("must parse");
    assert_eq!(mesh.faces.len(), 1);
    let tri = &mesh.faces[0];
    assert_eq!(tri.p1, v(0, 0, 0));
    assert_eq!(tri.p2, v(FX_ONE, 0, 0));
    assert_eq!(tri.p3, v(0, 2 * FX_ONE, -FX_ONE));
    let b = mesh.get_bounds();
    assert_eq!(b.x_low, 10 * FX_ONE);
    assert_eq!(b.x_high, 11 * FX_ONE);
    assert_eq!(b.y_low, 0);
    assert_eq!(b.y_high, 2 * FX_ONE);
    assert_eq!(b.z_low, -FX_ONE);
    assert_eq!(b.z_high, 0);
}

#[test]
fn mesh_decimal_and_signed_coordinates() {
    let src = "v -0.5 1.25 +3\nv 0.5 0 0\nv 0 0.5 0\nf 1 2 3\n";
    let mesh = Mesh::from_text(&text(src), v(0, 0, 0)).expect("must parse");
    let tri = &mesh.faces[0];
    assert_eq!(tri.p1, v(-FX_ONE / 2, 5 * FX_ONE / 4, 3 * FX_ONE));
    assert_eq!(tri.p2, v(FX_ONE / 2, 0, 0));
}

#[test]
fn mesh_slash_fields_use_first_token() {
    // Texture and normal indices after slashes are ignored.
    let src = "v 0 0 0\nv 1 0 0\nv 0 1 0\nf 1/4/5 2/9 3//7\n";
    let mesh = Mesh::from_text(&text(src), v(0, 0, 0)).expect("must parse");
    assert_eq!(mesh.faces.len(), 1);
}

#[test]
fn mesh_ignores_comments_and_unknown_lines() {
    let src = "# a comment\nv 0 0 0\no name\nv 1 0 0\nvn 0 0 1\nv 0 1 0\n\nf 1 2 3\n";
    let mesh = Mesh::from_text(&text(src), v(0, 0, 0)).expect("must parse");
    assert_eq!(mesh.faces.len(), 1);
}

#[test]
fn mesh_rejects_malformed_vertex() {
    let src = "v a b c\n";
    match Mesh::from_text(&text(src), v(0, 0, 0)) {
        Err(MeshError::Parse) => {}
        _ => panic!("expected Parse"),
    }
    let short = "v 1 2\nv 0 0 0\nv 1 1 1\n";
    match Mesh::from_text(&text(short), v(0, 0, 0)) {
        Err(MeshError::Parse) => {}
        _ => panic!("expected Parse"),
    }
}

#[test]
fn mesh_rejects_face_index_out_of_range() {
    let src = "v 0 0 0\nv 1 0 0\nf 1 2 3\n";
    match Mesh::from_text(&text(src), v(0, 0, 0)) {
        Err(MeshError::Index) => {}
        _ => panic!("expected Index"),
    }
    let zero = "v 0 0 0\nv 1 0 0\nv 0 1 0\nf 0 1 2\n";
    match Mesh::from_text(&text(zero), v(0, 0, 0)) {
        Err(MeshError::Index) => {}
        _ => panic!("expected Index"),
    }
    // A face may only use vertices already seen.
    let forward = "f 1 2 3\nv 0 0 0\nv 1 0 0\nv 0 1 0\n";
    match Mesh::from_text(&text(forward), v(0, 0, 0)) {
        Err(MeshError::Index) => {}
        _ => panic!("expected Index"),
    }
}

#[test]
fn mesh_rejects_text_without_vertices() {
    match Mesh::from_text(&text("# nothing\n"), v(0, 0, 0)) {
        Err(MeshError::Empty) => {}
        _ => panic!("expected Empty"),
    }
    match Mesh::from_text(&text(""), v(0, 0, 0)) {
        Err(MeshError::Empty) => {}
        _ => panic!("expected Empty"),
    }
}

#[test]
fn mesh_hit_goes_through_the_translated_faces() {
    // A single triangle, shifted by the offset: the box rejects rays that
    // miss it, and the face reports hits for rays that meet it.
    let src = "v -1 -1 -3\nv 1 -1 -3\nv 0 1 -3\nf 1 2 3\n";
    let offset = v(0, 0, -FX_ONE);
    let mesh = Mesh::from_text(&text(src), offset).expect("must parse");
    let ray = Ray { origin: v(0, 0, 0), direction: v(0, 0, -FX_ONE) };
    let hit = mesh.hit(&ray, FX_EPS, FX_BIG).expect("must hit");
    // Plane z = -3 shifted by -1, so the hit parameter is 4 (the hit point
    // is reported in the mesh's local frame).
    assert_eq!(hit.t, 4 * FX_ONE);
    let away = Ray { origin: v(0, 0, 0), direction: v(0, 0, FX_ONE) };
    assert!(mesh.hit(&away, FX_EPS, FX_BIG).is_none());
}

#[test]
fn mesh_windows_line_endings_parse() {
    let src = "v 0 0 0\r\nv 1 0 0\r\nv 0 1 0\r\nf 1 2 3\r\n";
    let mesh = Mesh::from_text(&text(src), v(0, 0, 0)).expect("must parse");
    assert_eq!(mesh.faces.len(), 1);
}
