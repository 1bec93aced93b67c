use clrblk::grid::Buffer;
use clrblk::rng::SimpleRng;

/// The byte stream a fresh generator with this seed produces, mirroring the
/// library's xorshift rule, for computing expected grid contents.
fn stream(seed: u64, n: usize) -> Vec<u8> {
    let mut s: u64 = if seed == 0 { 1 } else { seed };
    let mut out = Vec::new();
    for _ in 0..n {
        s ^= s << 13;
        s ^= s >> 7;
        s ^= s << 17;
        out.push((s & 0xff) as u8);
    }
    out
}

#[test]
fn new_grid_has_requested_dimensions() {
    let buf = Buffer::new(3, 2, SimpleRng::from_seed(7));
    assert_eq!(buf.width(), 3);
    assert_eq!(buf.height(), 2);
    assert_eq!(buf.cell_count(), 6);
}

#[test]
fn new_grid_is_seeded_channel_by_channel() {
    // Current colors take the first three blocks of draws (r, g, b), goal
    // colors the next three.
    let buf = Buffer::new(2, 2, SimpleRng::from_seed(7));
    let b = stream(7, 24);
    for i in 0..4 {
        assert_eq!(buf.cell_current(i), (b[i], b[4 + i], b[8 + i]));
        assert_eq!(buf.cell_goal(i), (b[12 + i], b[16 + i], b[20 + i]));
    }
}

#[test]
fn equal_seeds_give_identical_grids() {
    let a = Buffer::new(4, 3, SimpleRng::from_seed(9));
    let b = Buffer::new(4, 3, SimpleRng::from_seed(9));
    assert_eq!(a.cell_count(), b.cell_count());
    for i in 0..a.cell_count() {
        assert_eq!(a.cell_current(i), b.cell_current(i));
        assert_eq!(a.cell_goal(i), b.cell_goal(i));
    }
}

#[test]
fn resize_tracks_new_geometry_exactly() {
    let mut buf = Buffer::new(80, 24, SimpleRng::from_seed(1));
    assert_eq!(buf.cell_count(), 1920);
    buf.resize(100, 30);
    assert_eq!(buf.width(), 100);
    assert_eq!(buf.height(), 30);
    assert_eq!(buf.cell_count(), 3000);
}

#[test]
fn resize_to_same_dimensions_changes_nothing() {
    let mut buf = Buffer::new(5, 4, SimpleRng::from_seed(11));
    let before: Vec<_> = (0..20).map(|i| (buf.cell_current(i), buf.cell_goal(i))).collect();
    buf.resize(5, 4);
    let after: Vec<_> = (0..20).map(|i| (buf.cell_current(i), buf.cell_goal(i))).collect();
    assert_eq!(before, after);
}

#[test]
fn resize_reseeds_from_the_next_draws() {
    // A 1x1 construction consumes six draws; the resize reseeds both grids
    // from the seventh draw on.
    let mut buf = Buffer::new(1, 1, SimpleRng::from_seed(3));
    buf.resize(2, 1);
    let b = stream(3, 18);
    for i in 0..2 {
        assert_eq!(buf.cell_current(i), (b[6 + i], b[8 + i], b[10 + i]));
        assert_eq!(buf.cell_goal(i), (b[12 + i], b[14 + i], b[16 + i]));
    }
}

#[test]
fn step_moves_one_unit_toward_the_goal() {
    let buf = Buffer::new(1, 1, SimpleRng::from_seed(1));
    assert_eq!(buf.step_towards_goal(10, 13), 11);
    assert_eq!(buf.step_towards_goal(10, 8), 9);
    assert_eq!(buf.step_towards_goal(10, 10), 10);
    assert_eq!(buf.step_towards_goal(0, 255), 1);
    assert_eq!(buf.step_towards_goal(255, 0), 254);
    assert_eq!(buf.step_towards_goal(0, 0), 0);
    assert_eq!(buf.step_towards_goal(255, 255), 255);
    assert_eq!(buf.step_towards_goal(254, 255), 255);
    assert_eq!(buf.step_towards_goal(1, 0), 0);
}

#[test]
fn cell_walks_to_its_goal_and_draws_a_fresh_one() {
    // A 3x2 grid; its construction consumes 36 draws. One cell walks from
    // (10,10,10) to goal (13,8,10); the others sit far from their goals so
    // no other cell arrives while we watch.
    let mut buf = Buffer::new(3, 2, SimpleRng::from_seed(42));
    buf.set_cell(0, (10, 10, 10), (13, 8, 10));
    for i in 1..6 {
        buf.set_cell(i, (0, 0, 0), (200, 200, 200));
    }
    buf.tick();
    assert_eq!(buf.cell_current(0), (11, 9, 10));
    assert_eq!(buf.cell_goal(0), (13, 8, 10));
    buf.tick();
    assert_eq!(buf.cell_current(0), (12, 8, 10));
    assert_eq!(buf.cell_goal(0), (13, 8, 10));
    buf.tick();
    assert_eq!(buf.cell_current(0), (13, 8, 10));
    // Arrival: the goal is replaced by the next three draws of the stream,
    // bytes 36, 37 and 38 counting from the seed.
    assert_eq!(buf.cell_goal(0), (175, 208, 55));
}

#[test]
fn tick_leaves_unarrived_goals_alone() {
    let mut buf = Buffer::new(2, 1, SimpleRng::from_seed(8));
    buf.set_cell(0, (0, 0, 0), (9, 9, 9));
    buf.set_cell(1, (200, 100, 50), (0, 0, 0));
    buf.tick();
    assert_eq!(buf.cell_goal(0), (9, 9, 9));
    assert_eq!(buf.cell_goal(1), (0, 0, 0));
    assert_eq!(buf.cell_current(0), (1, 1, 1));
    assert_eq!(buf.cell_current(1), (199, 99, 49));
}

#[test]
fn cell_already_at_goal_is_reassigned_on_the_next_tick() {
    let mut buf = Buffer::new(1, 1, SimpleRng::from_seed(6));
    buf.set_cell(0, (77, 77, 77), (77, 77, 77));
    buf.tick();
    // Still at its goal after the step, so this tick drew bytes 6, 7, 8.
    assert_eq!(buf.cell_current(0), (77, 77, 77));
    let b = stream(6, 9);
    assert_eq!(buf.cell_goal(0), (b[6], b[7], b[8]));
}

#[test]
fn render_paints_one_cell() {
    let mut buf = Buffer::new(1, 1, SimpleRng::from_seed(5));
    buf.set_cell(0, (1, 2, 3), (9, 9, 9));
    let frame = buf.render();
    assert_eq!(frame, b"\x1b[H\x1b[2J\x1b[48;2;1;2;3m \x1b[0m".to_vec());
}

#[test]
fn render_breaks_lines_between_rows_only() {
    let mut buf = Buffer::new(2, 2, SimpleRng::from_seed(5));
    buf.set_cell(0, (0, 0, 0), (1, 1, 1));
    buf.set_cell(1, (10, 20, 30), (1, 1, 1));
    buf.set_cell(2, (100, 150, 200), (1, 1, 1));
    buf.set_cell(3, (255, 255, 255), (1, 1, 1));
    let frame = buf.render();
    let expected = b"\x1b[H\x1b[2J\x1b[48;2;0;0;0m \x1b[48;2;10;20;30m \r\n\x1b[48;2;100;150;200m \x1b[48;2;255;255;255m \x1b[0m";
    assert_eq!(frame, expected.to_vec());
}
