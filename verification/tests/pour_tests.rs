use omara_screensavers::layout::{place_logo, Glyph};
use omara_screensavers::pour::{
    pour_glyph_at, pour_glyphs, random_pour_glyph, stream_tail, PourBoard, PourCell, PourPhase, Strike,
};
use omara_screensavers::text::split_lines;

fn board_for(text: &str) -> PourBoard {
    PourBoard::new(&place_logo(&split_lines(text), 0, 0))
}

fn light_all(board: &mut PourBoard) {
    let cells: Vec<PourCell> = board.cells().clone();
    for c in cells {
        board.strike(c.x, c.y, 100, 100);
    }
}

#[test]
fn new_board_is_dark_and_building() {
    let board = PourBoard::new(&vec![Glyph { x: 3, y: 4, ch: 'Q' }]);
    assert_eq!(board.phase(), PourPhase::Building);
    assert_eq!(board.cells(), &vec![PourCell { x: 3, y: 4, ch: 'Q', active: false }]);
    assert!(!board.all_active());
}

#[test]
fn drop_lands_and_lights_one_cell() {
    let mut board = board_for("AB\nC");
    assert_eq!(board.strike(1, 0, 10, 10), Strike::Landed(1));
    assert!(board.cells()[1].active);
    assert!(!board.cells()[0].active && !board.cells()[2].active);
    assert!(board.active_at(1, 0));
    // the same cell is lit already: nothing more to land on
    assert_eq!(board.strike(1, 0, 10, 10), Strike::Miss);
}

#[test]
fn drop_lands_on_first_unlit_cell_there() {
    let glyphs = vec![Glyph { x: 2, y: 2, ch: 'a' }, Glyph { x: 2, y: 2, ch: 'b' }];
    let mut board = PourBoard::new(&glyphs);
    assert_eq!(board.strike(2, 2, 10, 10), Strike::Landed(0));
    assert_eq!(board.strike(2, 2, 10, 10), Strike::Landed(1));
}

#[test]
fn off_screen_and_empty_cells_miss() {
    let mut board = board_for("A");
    assert_eq!(board.strike(0, 0, 0, 10), Strike::Miss);
    assert_eq!(board.strike(5, 0, 10, 10), Strike::Miss);
    assert!(!board.cells()[0].active);
}

#[test]
fn building_completes_when_all_lit() {
    let mut board = board_for("AB");
    let mut rng = rand::rng();
    let tick = board.update_phase(false, &mut rng);
    assert!(!tick.restarted && tick.washed.is_empty());
    assert_eq!(board.phase(), PourPhase::Building);
    light_all(&mut board);
    let tick = board.update_phase(false, &mut rng);
    assert!(tick.restarted);
    assert_eq!(board.phase(), PourPhase::Complete);
    assert!(board.all_active());
}

#[test]
fn empty_logo_completes_at_once() {
    let mut board = PourBoard::new(&Vec::new());
    let mut rng = rand::rng();
    assert!(board.update_phase(false, &mut rng).restarted);
    assert_eq!(board.phase(), PourPhase::Complete);
}

#[test]
fn finished_logo_holds_until_time_is_up() {
    let mut board = board_for("A\nB");
    let mut rng = rand::rng();
    light_all(&mut board);
    board.update_phase(false, &mut rng);
    assert!(!board.update_phase(false, &mut rng).restarted);
    assert_eq!(board.phase(), PourPhase::Complete);
    assert!(board.update_phase(true, &mut rng).restarted);
    assert_eq!(board.phase(), PourPhase::WashingAway);
}

#[test]
fn top_edge_of_finished_logo() {
    let mut board = PourBoard::new(&place_logo(&split_lines("A\nB"), 0, 1));
    let mut rng = rand::rng();
    light_all(&mut board);
    board.update_phase(false, &mut rng);
    assert!(board.is_top_edge(0, 1));
    assert!(!board.is_top_edge(0, 2));
    assert_eq!(board.strike(0, 1, 10, 10), Strike::TopEdge);
    assert_eq!(board.strike(0, 2, 10, 10), Strike::Miss);
    assert_eq!(board.strike(3, 3, 10, 10), Strike::Miss);
}

#[test]
fn row_zero_is_never_a_top_edge() {
    let mut board = board_for("A");
    let mut rng = rand::rng();
    light_all(&mut board);
    board.update_phase(false, &mut rng);
    assert!(board.active_at(0, 0));
    assert!(!board.is_top_edge(0, 0));
    assert_eq!(board.strike(0, 0, 10, 10), Strike::Miss);
}

#[test]
fn washing_darkens_a_few_cells_then_restarts() {
    let text = "ABCDEFGHIJ";
    let mut board = board_for(text);
    let mut rng = rand::rng();
    light_all(&mut board);
    board.update_phase(false, &mut rng);
    board.update_phase(true, &mut rng);
    let mut frames = 0;
    loop {
        let before: Vec<bool> = board.cells().iter().map(|c| c.active).collect();
        let lit = before.iter().filter(|a| **a).count();
        let tick = board.update_phase(false, &mut rng);
        if lit == 0 {
            assert!(tick.restarted && tick.washed.is_empty());
            assert_eq!(board.phase(), PourPhase::Building);
            break;
        }
        assert!(!tick.restarted);
        assert!(tick.washed.len() >= lit.min(2) && tick.washed.len() <= lit.min(4));
        let mut distinct = tick.washed.clone();
        distinct.sort();
        distinct.dedup();
        assert_eq!(distinct.len(), tick.washed.len());
        let lit_after = board.cells().iter().filter(|c| c.active).count();
        assert_eq!(lit_after, lit - tick.washed.len());
        for (i, c) in board.cells().iter().enumerate() {
            assert_eq!(c.active, before[i] && !tick.washed.contains(&i));
        }
        for i in &tick.washed {
            assert!(before[*i]);
        }
        frames += 1;
        assert!(frames <= 10);
    }
}

#[test]
fn inactive_column_points_at_dark_cell() {
    let mut board = board_for("A B");
    let mut rng = rand::rng();
    for _ in 0..20 {
        let col = board.random_inactive_column(&mut rng).unwrap();
        assert!(col == 0 || col == 2);
    }
    board.strike(0, 0, 10, 10);
    assert_eq!(board.random_inactive_column(&mut rng), Some(2));
    board.strike(2, 0, 10, 10);
    assert_eq!(board.random_inactive_column(&mut rng), None);
}

#[test]
fn index_lists() {
    let mut board = board_for("ABC");
    board.strike(1, 0, 10, 10);
    assert_eq!(board.active_indices(), vec![1]);
    assert_eq!(board.inactive_indices(), vec![0, 2]);
}

#[test]
fn glyph_pool() {
    let s: String = pour_glyphs().into_iter().collect();
    assert_eq!(s, "OMARA\u{2591}\u{2592}\u{2593}\u{2588}*+=:-");
    let mut rng = rand::rng();
    for _ in 0..50 {
        assert!(s.contains(random_pour_glyph(&mut rng)));
    }
}

#[test]
fn stream_tails() {
    assert_eq!(stream_tail(10), vec![(10, (0, 200, 255)), (9, (0, 140, 195)), (8, (0, 80, 135))]);
    assert_eq!(stream_tail(1), vec![(1, (0, 200, 255)), (0, (0, 140, 195)), (0, (0, 80, 135))]);
}

fn washing_board(text: &str) -> PourBoard {
    let mut board = board_for(text);
    let mut rng = rand::rng();
    light_all(&mut board);
    board.update_phase(false, &mut rng);
    board.update_phase(true, &mut rng);
    assert_eq!(board.phase(), PourPhase::WashingAway);
    board
}

#[test]
fn wash_one_darkens_the_drawn_cell() {
    let mut board = washing_board("ABCD");
    assert_eq!(board.wash_one(2), 2);
    let lit: Vec<bool> = board.cells().iter().map(|c| c.active).collect();
    assert_eq!(lit, vec![true, true, false, true]);
    // draws count the cells lit now: 0, 1 and 3
    assert_eq!(board.wash_one(2), 3);
    assert_eq!(board.wash_one(0), 0);
    let lit: Vec<bool> = board.cells().iter().map(|c| c.active).collect();
    assert_eq!(lit, vec![false, true, false, false]);
    assert_eq!(board.phase(), PourPhase::WashingAway);
}

#[test]
fn inactive_column_by_rank() {
    let mut board = board_for("ABC");
    board.strike(1, 0, 10, 10);
    assert_eq!(board.inactive_column(0), 0);
    assert_eq!(board.inactive_column(1), 2);
}

#[test]
fn glyph_by_number() {
    assert_eq!(pour_glyph_at(0), 'O');
    assert_eq!(pour_glyph_at(5), '\u{2591}');
    assert_eq!(pour_glyph_at(13), '-');
}

#[test]
fn a_frame_of_drops_only_lights_while_building() {
    let mut board = board_for("AB\nCD");
    let mut rng = rand::rng();
    board.update_phase(false, &mut rng);
    let before: Vec<bool> = board.cells().iter().map(|c| c.active).collect();
    for (x, y) in [(0u16, 0u16), (1, 1), (5, 5), (0, 0)] {
        board.strike(x, y, 10, 10);
    }
    for (i, c) in board.cells().iter().enumerate() {
        assert!(!before[i] || c.active);
    }
}

#[test]
fn wash_takes_the_asked_count_of_distinct_cells() {
    let mut rng = rand::rng();
    let mut board = washing_board("ABCDEF");
    assert!(board.wash(0, &mut rng).is_empty());
    let washed = board.wash(3, &mut rng);
    assert_eq!(washed.len(), 3);
    let mut distinct = washed.clone();
    distinct.sort();
    distinct.dedup();
    assert_eq!(distinct.len(), 3);
    assert_eq!(board.cells().iter().filter(|c| c.active).count(), 3);
    for i in &washed {
        assert!(!board.cells()[*i].active);
    }
    let rest = board.wash(3, &mut rng);
    assert_eq!(rest.len(), 3);
    assert!(!board.cells().iter().any(|c| c.active));
    assert_eq!(board.phase(), PourPhase::WashingAway);
}
