use water_flow::cell::{Cell, Color, Mode, WALL_THRESHOLD};

const BLACK: Color = Color { r: 0, g: 0, b: 0 };
const BLUE: Color = Color { r: 0, g: 0, b: 255 };
const WHITE: Color = Color { r: 255, g: 255, b: 255 };

#[test]
fn exact_policy_knows_three_colors() {
    assert_eq!(Cell::from_pixel(&BLACK), Some(Cell::Wall));
    assert_eq!(Cell::from_pixel(&BLUE), Some(Cell::Water));
    assert_eq!(Cell::from_pixel(&WHITE), Some(Cell::Air));
    assert_eq!(Cell::from_pixel(&Color { r: 1, g: 2, b: 3 }), None);
    assert_eq!(Cell::from_pixel(&Color { r: 0, g: 0, b: 254 }), None);
    assert_eq!(Cell::from_pixel(&Color { r: 255, g: 255, b: 254 }), None);
}

#[test]
fn approximate_policy_knows_water_and_dark_colors() {
    assert_eq!(Cell::from_pixel_approximate(&BLACK), Some(Cell::Wall));
    assert_eq!(Cell::from_pixel_approximate(&BLUE), Some(Cell::Water));
    assert_eq!(Cell::from_pixel_approximate(&Color { r: 100, g: 20, b: 149 }), Some(Cell::Wall));
    assert_eq!(Cell::from_pixel_approximate(&WHITE), None);
    assert_eq!(Cell::from_pixel_approximate(&Color { r: 0, g: 0, b: 254 }), None);
}

#[test]
fn unknown_colors_are_air() {
    assert_eq!(Cell::classify(&Color { r: 1, g: 2, b: 3 }, Mode::Exact), Cell::Air);
    assert_eq!(Cell::classify(&Color { r: 200, g: 2, b: 3 }, Mode::Approximate), Cell::Air);
    assert_eq!(Cell::classify(&WHITE, Mode::Approximate), Cell::Air);
    assert_eq!(Cell::classify(&WHITE, Mode::Exact), Cell::Air);
}

#[test]
fn exact_classification_is_total() {
    for r in [0u8, 1, 127, 149, 150, 254, 255] {
        for g in [0u8, 1, 127, 149, 150, 254, 255] {
            for b in [0u8, 1, 127, 149, 150, 254, 255] {
                let color = Color { r, g, b };
                let expected = if color == BLACK {
                    Cell::Wall
                } else if color == BLUE {
                    Cell::Water
                } else {
                    Cell::Air
                };
                assert_eq!(Cell::classify(&color, Mode::Exact), expected);
            }
        }
    }
}

#[test]
fn threshold_is_the_first_value_that_is_no_wall() {
    assert_eq!(WALL_THRESHOLD, 150);
    let at = Color { r: 150, g: 150, b: 150 };
    let below = Color { r: 149, g: 149, b: 149 };
    assert_eq!(Cell::classify(&at, Mode::Approximate), Cell::Air);
    assert_eq!(Cell::classify(&below, Mode::Approximate), Cell::Wall);
    assert_eq!(Cell::classify(&below, Mode::Exact), Cell::Air);
}

#[test]
fn one_bright_channel_is_enough_for_air() {
    assert_eq!(Cell::classify(&Color { r: 150, g: 0, b: 0 }, Mode::Approximate), Cell::Air);
    assert_eq!(Cell::classify(&Color { r: 0, g: 150, b: 0 }, Mode::Approximate), Cell::Air);
    assert_eq!(Cell::classify(&Color { r: 0, g: 0, b: 150 }, Mode::Approximate), Cell::Air);
    assert_eq!(Cell::classify(&Color { r: 149, g: 0, b: 149 }, Mode::Approximate), Cell::Wall);
}

#[test]
fn canonical_colors_read_back() {
    assert_eq!(Cell::Wall.color(), BLACK);
    assert_eq!(Cell::Water.color(), BLUE);
    assert_eq!(Cell::Air.color(), WHITE);
    for cell in [Cell::Wall, Cell::Water, Cell::Air] {
        assert_eq!(Cell::classify(&cell.color(), Mode::Exact), cell);
        assert_eq!(Cell::classify(&cell.color(), Mode::Approximate), cell);
    }
}
