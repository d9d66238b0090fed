use bike::fx::{append_indices, fan_indices, limb_indices, triangulate_polygon, wheel_indices};

fn turn(polygon: &[(i64, i64)], a: usize, b: usize, c: usize) -> bool {
    let (p, q, r) = (polygon[a], polygon[b], polygon[c]);
    (q.0 - p.0) * (r.1 - q.1) - (q.1 - p.1) * (r.0 - q.0) <= 0
}

fn triangulate(polygon: &[(i64, i64)]) -> Vec<u16> {
    triangulate_polygon(polygon.len(), |a, b, c| turn(polygon, a, b, c))
}

#[test]
fn fan_of_two_corners_has_no_triangle() {
    assert_eq!(fan_indices(2), Vec::<u16>::new());
}

#[test]
fn fan_joins_corner_zero_with_each_side() {
    assert_eq!(fan_indices(3), vec![0, 1, 2]);
    assert_eq!(fan_indices(5), vec![0, 1, 2, 0, 2, 3, 0, 3, 4]);
    assert_eq!(fan_indices(12).len(), 30);
    assert_eq!(fan_indices(12)[27..], [0, 10, 11]);
}

#[test]
fn fan_of_the_most_corners() {
    let indices = fan_indices(0x1_0000);
    assert_eq!(indices.len(), 3 * 65534);
    assert_eq!(indices[3 * 65533..], [0, 65534, 65535]);
}

#[test]
fn wheel_mesh_of_one_stretch() {
    assert_eq!(wheel_indices(0), Vec::<u16>::new());
    assert_eq!(wheel_indices(1), vec![0, 1, 2, 1, 2, 3, 1, 3, 4]);
}

#[test]
fn wheel_mesh_of_seven_stretches() {
    let mut expected: Vec<u16> = vec![];
    for i in 1..=7u16 {
        expected.extend_from_slice(&[
            i * 3 - 3,
            i * 3 - 2,
            i * 3 - 1,
            i * 3 - 2,
            i * 3 - 1,
            i * 3,
            i * 3 - 2,
            i * 3,
            i * 3 + 1,
        ]);
    }
    assert_eq!(wheel_indices(7), expected);
    assert_eq!(wheel_indices(7).len(), 63);
    assert_eq!(wheel_indices(7)[54..], [18, 19, 20, 19, 20, 21, 19, 21, 22]);
}

#[test]
fn limb_mesh_of_eight_steps() {
    let n: u16 = 8;
    let mut expected: Vec<u16> = vec![];
    for i in 1..=n {
        expected.extend_from_slice(&[0, i + 1, i + 2]);
    }
    for i in 1..=n {
        expected.extend_from_slice(&[1, n + i + 2, n + i + 3]);
    }
    expected.extend_from_slice(&[0, 1, 2, 1, 2, n + n + 3, 1, 0, n + 3, 0, n + 3, n + 2]);
    assert_eq!(limb_indices(8), expected);
    assert_eq!(limb_indices(8).len(), 60);
    assert_eq!(limb_indices(8)[..6], [0, 2, 3, 0, 3, 4]);
    assert_eq!(limb_indices(8)[24..30], [1, 11, 12, 1, 12, 13]);
    assert_eq!(limb_indices(8)[48..], [0, 1, 2, 1, 2, 19, 1, 0, 11, 0, 11, 10]);
}

#[test]
fn limb_mesh_without_steps() {
    assert_eq!(limb_indices(0), vec![0, 1, 2, 1, 2, 3, 1, 0, 3, 0, 3, 2]);
}

#[test]
fn fewer_than_three_corners_make_no_triangle() {
    assert_eq!(triangulate(&[]), Vec::<u16>::new());
    assert_eq!(triangulate(&[(0, 0)]), Vec::<u16>::new());
    assert_eq!(triangulate(&[(0, 0), (5, 5)]), Vec::<u16>::new());
}

#[test]
fn a_triangle_is_its_own_triangulation() {
    assert_eq!(triangulate(&[(0, 0), (0, 1), (1, 0)]), vec![2, 0, 1]);
}

#[test]
fn square_is_cut_into_two_triangles() {
    let square = [(0, 10), (10, 10), (10, 0), (0, 0)];
    assert_eq!(triangulate(&square), vec![3, 0, 1, 3, 1, 2]);
}

#[test]
fn pentagon_is_cut_into_three_triangles() {
    let pentagon = [(2, 5), (6, 5), (8, 0), (4, -3), (0, 0)];
    assert_eq!(triangulate(&pentagon), vec![4, 0, 1, 4, 1, 2, 4, 2, 3]);
}

#[test]
fn corner_of_an_l_shape_is_cut_around() {
    let shape = [(0, 20), (10, 20), (10, 10), (20, 10), (20, 0), (0, 0)];
    assert_eq!(triangulate(&shape), vec![5, 0, 1, 5, 1, 2, 5, 2, 3, 5, 3, 4]);
}

#[test]
fn dart_is_cut_at_its_first_ear() {
    let dart = [(5, 10), (10, 0), (5, 2), (0, 0)];
    assert_eq!(triangulate(&dart), vec![0, 1, 2, 3, 0, 2]);
}

#[test]
fn polygon_wound_the_other_way_has_no_ear() {
    let square = [(0, 0), (10, 0), (10, 10), (0, 10)];
    assert_eq!(triangulate(&square), Vec::<u16>::new());
    let triangle = [(0, 0), (1, 0), (0, 1)];
    assert_eq!(triangulate(&triangle), Vec::<u16>::new());
}

#[test]
fn cutting_stops_where_no_ear_is_left() {
    let shape = [(0, 0), (20, 0), (20, 10), (10, 10), (10, 20), (0, 20)];
    assert_eq!(triangulate(&shape), vec![2, 3, 4]);
    let dart = [(0, 0), (5, 2), (10, 0), (5, 10)];
    assert_eq!(triangulate(&dart), vec![0, 1, 2]);
}

#[test]
fn corners_on_one_line_have_no_ear() {
    assert_eq!(triangulate(&[(0, 0), (1, 0), (2, 0), (3, 0)]), Vec::<u16>::new());
}

#[test]
fn test_that_always_agrees_finds_an_ear_in_a_triangle_only() {
    assert_eq!(triangulate_polygon(3, |_, _, _| true), vec![2, 0, 1]);
    assert_eq!(triangulate_polygon(4, |_, _, _| true), Vec::<u16>::new());
    assert_eq!(triangulate_polygon(7, |_, _, _| true), Vec::<u16>::new());
}

#[test]
fn test_that_never_agrees_finds_no_ear() {
    assert_eq!(triangulate_polygon(3, |_, _, _| false), Vec::<u16>::new());
    assert_eq!(triangulate_polygon(6, |_, _, _| false), Vec::<u16>::new());
}

#[test]
fn test_is_asked_about_corners_of_the_polygon_only() {
    let polygon = [(2, 5), (6, 5), (8, 0), (4, -3), (0, 0)];
    let indices = triangulate_polygon(polygon.len(), |a, b, c| {
        assert!(a < 5 && b < 5 && c < 5);
        turn(&polygon, a, b, c)
    });
    assert_eq!(indices.len(), 9);
    assert!(indices.iter().all(|i| *i < 5));
}

#[test]
fn triangles_of_a_shape_follow_the_corners_before_it() {
    let mut mesh: Vec<u16> = vec![0, 1, 2];
    append_indices(&mut mesh, &vec![3, 0, 1, 3, 1, 2], 3);
    assert_eq!(mesh, vec![0, 1, 2, 6, 3, 4, 6, 4, 5]);
    append_indices(&mut mesh, &vec![], 7);
    assert_eq!(mesh.len(), 9);
    append_indices(&mut mesh, &vec![0, 1, 2], 65533);
    assert_eq!(mesh[9..], [65533, 65534, 65535]);
    let mut empty: Vec<u16> = vec![];
    append_indices(&mut empty, &vec![2, 0, 1], 0);
    assert_eq!(empty, vec![2, 0, 1]);
}

#[test]
fn triangulation_with_real_coordinates() {
    let polygon: [(f32, f32); 5] = [(2.5, 5.0), (6.5, 5.0), (8.25, 0.0), (4.0, -3.5), (0.0, 0.0)];
    let indices = triangulate_polygon(polygon.len(), |a, b, c| {
        let (p, q, r) = (polygon[a], polygon[b], polygon[c]);
        (q.0 - p.0) * (r.1 - q.1) - (q.1 - p.1) * (r.0 - q.0) <= 0.0
    });
    assert_eq!(indices, vec![4, 0, 1, 4, 1, 2, 4, 2, 3]);
}
