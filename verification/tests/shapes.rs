use blockfall::colors::Colors;
use blockfall::desk::Desk;
use blockfall::shapes::{
    get_i_shape, get_j_shape, get_l_shape, get_o_shape, get_random_shape, get_s_shape, get_t_shape,
    get_z_shape, shape_from_draw,
};
use rand::rngs::StdRng;
use rand::SeedableRng;

fn picture(d: &Desk, color: Colors) -> Vec<String> {
    let mut rows = Vec::new();
    for y in 0..d.get_height() {
        let mut row = String::new();
        for x in 0..d.get_width() {
            match d.get(x, y).unwrap() {
                None => row.push('.'),
                Some(cell) => {
                    assert_eq!(cell, (color, true));
                    row.push('#');
                }
            }
        }
        rows.push(row);
    }
    rows
}

#[test]
fn the_straight_piece() {
    assert_eq!(picture(&get_i_shape(Colors::Red), Colors::Red), vec!["#", "#", "#", "#"]);
}

#[test]
fn the_square_piece() {
    assert_eq!(picture(&get_o_shape(Colors::Green), Colors::Green), vec!["##", "##"]);
}

#[test]
fn the_hook_with_its_foot_to_the_right() {
    assert_eq!(picture(&get_l_shape(Colors::Blue), Colors::Blue), vec!["#.", "#.", "##"]);
}

#[test]
fn the_hook_with_its_foot_to_the_left() {
    assert_eq!(picture(&get_j_shape(Colors::Yellow), Colors::Yellow), vec![".#", ".#", "##"]);
}

#[test]
fn the_zig_zag_that_rises() {
    assert_eq!(picture(&get_s_shape(Colors::Red), Colors::Red), vec![".##", "##."]);
}

#[test]
fn the_zig_zag_that_falls() {
    assert_eq!(picture(&get_z_shape(Colors::Green), Colors::Green), vec!["##.", ".##"]);
}

#[test]
fn the_piece_with_a_stem() {
    assert_eq!(picture(&get_t_shape(Colors::Blue), Colors::Blue), vec![".#.", "###"]);
}

#[test]
fn every_piece_has_four_cells() {
    for draw in 0..7 {
        let shape = shape_from_draw(draw, Colors::Red);
        let cells: usize = picture(&shape, Colors::Red).iter().map(|r| r.matches('#').count()).sum();
        assert_eq!(cells, 4);
    }
}

#[test]
fn draws_stand_for_the_pieces_in_order() {
    let red = Colors::Red;
    assert!(shape_from_draw(0, red) == get_i_shape(red));
    assert!(shape_from_draw(1, red) == get_o_shape(red));
    assert!(shape_from_draw(2, red) == get_l_shape(red));
    assert!(shape_from_draw(3, red) == get_j_shape(red));
    assert!(shape_from_draw(4, red) == get_s_shape(red));
    assert!(shape_from_draw(5, red) == get_z_shape(red));
    assert!(shape_from_draw(6, red) == get_t_shape(red));
    assert!(shape_from_draw(7, red) == get_t_shape(red));
    assert!(shape_from_draw(-1, red) == get_t_shape(red));
}

#[test]
fn draws_stand_for_the_colors_in_order() {
    assert_eq!(Colors::from_draw(0), Colors::Red);
    assert_eq!(Colors::from_draw(1), Colors::Green);
    assert_eq!(Colors::from_draw(2), Colors::Blue);
    assert_eq!(Colors::from_draw(3), Colors::Yellow);
    assert_eq!(Colors::from_draw(4), Colors::Yellow);
    assert_eq!(Colors::from_draw(-3), Colors::Yellow);
}

#[test]
fn colors_have_letters() {
    assert_eq!(Colors::Red.letter(), 'R');
    assert_eq!(Colors::Green.letter(), 'G');
    assert_eq!(Colors::Blue.letter(), 'B');
    assert_eq!(Colors::Yellow.letter(), 'Y');
}

#[test]
fn random_colors_cover_all_four() {
    let mut rng = StdRng::seed_from_u64(12345);
    let mut seen = [0usize; 4];
    for _ in 0..400 {
        match Colors::get_random(&mut rng) {
            Colors::Red => seen[0] += 1,
            Colors::Green => seen[1] += 1,
            Colors::Blue => seen[2] += 1,
            Colors::Yellow => seen[3] += 1,
        }
    }
    for count in seen {
        assert!(count > 50);
    }
}

#[test]
fn random_pieces_cover_all_seven() {
    let mut rng = StdRng::seed_from_u64(12345);
    let all = [
        get_i_shape(Colors::Red),
        get_o_shape(Colors::Red),
        get_l_shape(Colors::Red),
        get_j_shape(Colors::Red),
        get_s_shape(Colors::Red),
        get_z_shape(Colors::Red),
        get_t_shape(Colors::Red),
    ];
    let mut seen = [0usize; 7];
    for _ in 0..700 {
        let shape = get_random_shape(&mut rng, Colors::Red);
        let index = all.iter().position(|s| *s == shape).unwrap();
        seen[index] += 1;
    }
    for count in seen {
        assert!(count > 50);
    }
}

#[test]
fn the_same_seed_gives_the_same_pieces() {
    let mut a = StdRng::seed_from_u64(7);
    let mut b = StdRng::seed_from_u64(7);
    for _ in 0..50 {
        let color = Colors::get_random(&mut a);
        assert_eq!(color, Colors::get_random(&mut b));
        assert!(get_random_shape(&mut a, color) == get_random_shape(&mut b, color));
    }
}
