use hexgrid::{DrawCommand, Hexgrid, TerrainColor, UNITS_PER_PIXEL};

fn px(v: i64) -> i64 {
    v * UNITS_PER_PIXEL
}

fn flat(n: usize) -> Vec<i64> {
    vec![0; n]
}

#[test]
fn full_grid_cell_count() {
    let g = Hexgrid::new(21, 14, px(100), &flat(294));
    assert_eq!(g.cells.len(), 294);
    assert_eq!(g.selected_index, None);
}

#[test]
fn empty_grid() {
    let g = Hexgrid::new(0, 5, px(10), &flat(0));
    assert!(g.cells.is_empty());
    let g = Hexgrid::new(-3, 5, px(10), &flat(0));
    assert!(g.cells.is_empty());
}

#[test]
fn two_cell_grid_scenario() {
    let mut g = Hexgrid::new(2, 1, px(10), &flat(2));
    assert_eq!(g.cells.len(), 2);
    assert_eq!(g.cells[0].corners[0].x, 0);
    assert_eq!(g.cells[0].corners[0].y, -px(10));
    // second cell centered at (17.32 px, 0)
    assert_eq!(g.cells[1].corners[0].x, 17320);
    assert_eq!(g.cells[1].corners[3].y, px(10));
    g.select(0, 0);
    assert_eq!(g.selected_index, Some(0));
    g.select(px(1000), px(1000));
    assert_eq!(g.selected_index, Some(0));
}

#[test]
fn odd_rows_are_staggered() {
    let g = Hexgrid::new(2, 3, px(10), &flat(6));
    // column 0: rows 0, 1, 2 at indices 0, 1, 2; top corner x is the center x
    assert_eq!(g.cells[0].corners[0].x, 0);
    assert_eq!(g.cells[1].corners[0].x, 8660);
    assert_eq!(g.cells[2].corners[0].x, 0);
    assert_eq!(g.cells[3].corners[0].x, 17320);
    assert_eq!(g.cells[4].corners[0].x, 17320 + 8660);
    // rows are 1.5 outer radii apart
    assert_eq!(g.cells[1].corners[0].y, 15000 - 10000);
    assert_eq!(g.cells[2].corners[0].y, 30000 - 10000);
}

#[test]
fn colors_follow_depths() {
    let g = Hexgrid::new(1, 3, px(10), &vec![-900, 50, 900]);
    assert_eq!(g.cells[0].color, TerrainColor::DeepWater);
    assert_eq!(g.cells[1].color, TerrainColor::Sand);
    assert_eq!(g.cells[2].color, TerrainColor::Snow);
}

#[test]
fn select_twice_toggles_off() {
    let mut g = Hexgrid::new(3, 3, px(10), &flat(9));
    let center_x = 17320 + 8660;
    let center_y = 15000;
    g.select(center_x, center_y);
    assert_eq!(g.selected_index, Some(4));
    g.select(center_x, center_y);
    assert_eq!(g.selected_index, None);
}

#[test]
fn select_other_cell_moves_selection() {
    let mut g = Hexgrid::new(3, 3, px(10), &flat(9));
    g.select(0, 0);
    assert_eq!(g.selected_index, Some(0));
    g.select(17320, 0);
    assert_eq!(g.selected_index, Some(3));
}

#[test]
fn select_miss_keeps_selection() {
    let mut g = Hexgrid::new(2, 2, px(10), &flat(4));
    g.select(-px(500), -px(500));
    assert_eq!(g.selected_index, None);
    g.select(0, 0);
    g.select(-px(500), -px(500));
    assert_eq!(g.selected_index, Some(0));
    let mut empty = Hexgrid::new(0, 0, px(10), &flat(0));
    empty.select(0, 0);
    assert_eq!(empty.selected_index, None);
}

#[test]
fn draw_plan_order() {
    let mut g = Hexgrid::new(1, 2, px(10), &flat(2));
    assert_eq!(g.draw(), vec![DrawCommand::FillCell(0), DrawCommand::FillCell(1)]);
    g.select(8660, px(15));
    g.set_image(0, 7);
    assert_eq!(
        g.draw(),
        vec![DrawCommand::FillCell(0), DrawCommand::FillCell(1), DrawCommand::OutlineCell(1), DrawCommand::Image(7)]
    );
    let empty = Hexgrid::new(0, 0, px(10), &flat(0));
    assert!(empty.draw().is_empty());
}
