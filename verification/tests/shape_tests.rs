use blobs::FP_ONE;
use blobs::shape::{DEFAULT_SHAPEBUFFER_SIZE, Shape, ShapeBuffer, Vertex};

#[test]
fn add_rect_appends_six_vertices() {
    let mut shape = Shape::new();
    shape.add_rect((3, 4), (10, 20));
    let expected = vec![
        Vertex { pos: (3, 4), texture_uv: (0, FP_ONE) },
        Vertex { pos: (13, 4), texture_uv: (FP_ONE, FP_ONE) },
        Vertex { pos: (3, 24), texture_uv: (0, 0) },
        Vertex { pos: (13, 4), texture_uv: (FP_ONE, FP_ONE) },
        Vertex { pos: (13, 24), texture_uv: (FP_ONE, 0) },
        Vertex { pos: (3, 24), texture_uv: (0, 0) },
    ];
    assert_eq!(shape.vertices, expected);
}

#[test]
fn full_uv_rect_matches_plain_rect() {
    let mut plain = Shape::new();
    plain.add_rect((-7, 11), (42, -5));
    let mut textured = Shape::new();
    textured.add_uv_rect((-7, 11), (42, -5), (0, 0, FP_ONE, FP_ONE));
    assert_eq!(plain.vertices, textured.vertices);
}

#[test]
fn uv_rect_flips_vertically() {
    let mut shape = Shape::new();
    let quarter = FP_ONE / 4;
    let half = FP_ONE / 2;
    shape.add_uv_rect((0, 0), (8, 8), (quarter, quarter, half, half));
    // uv origin after the flip: (0.25, 1 - 0.25) with extent (0.5, -0.5).
    assert_eq!(shape.vertices[0].texture_uv, (quarter, FP_ONE - quarter));
    assert_eq!(shape.vertices[4].texture_uv, (quarter + half, FP_ONE - quarter - half));
}

fn shape_of_len(n: usize) -> Shape {
    let mut shape = Shape::new();
    for i in 0..n {
        shape.add_vert(Vertex::plain(i as i64 + 1, 2));
    }
    shape
}

#[test]
fn capacity_starts_at_default_and_grows_to_maximum() {
    let mut buffer = ShapeBuffer::new();
    assert_eq!(buffer.current_size, DEFAULT_SHAPEBUFFER_SIZE);

    let n = buffer.draw(&shape_of_len(40));
    assert_eq!(n, 40);
    assert_eq!(buffer.current_size, 40);

    let n = buffer.draw(&shape_of_len(10));
    assert_eq!(n, 10);
    assert_eq!(buffer.current_size, 40);

    let n = buffer.draw(&shape_of_len(50));
    assert_eq!(n, 50);
    assert_eq!(buffer.current_size, 50);

    let n = buffer.draw(&shape_of_len(50));
    assert_eq!(n, 50);
    assert_eq!(buffer.current_size, 50);
}

#[test]
fn small_draws_never_shrink_capacity() {
    let mut buffer = ShapeBuffer::new();
    for len in [6, 12, 30, 0, 32] {
        buffer.draw(&shape_of_len(len));
        assert_eq!(buffer.current_size, DEFAULT_SHAPEBUFFER_SIZE);
    }
}

#[test]
fn padded_tail_is_all_degenerate_origin_vertices() {
    let mut buffer = ShapeBuffer::new();
    buffer.draw(&shape_of_len(40));
    let small = shape_of_len(6);
    buffer.draw(&small);
    assert_eq!(buffer.store.len(), 40);
    assert_eq!(&buffer.store[..6], &small.vertices[..]);
    for v in &buffer.store[6..] {
        assert_eq!(v.pos, (0, 0));
        assert_eq!(v.texture_uv, (0, 0));
    }
}
