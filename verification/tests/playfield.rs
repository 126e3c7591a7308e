use openpon::clock::{FRAME_INTERVAL, MIN_RISE_INTERVAL};
use openpon::panel::{animation_name, KindSource, Panel, PanelAnimState, PanelKind, PanelSheet};
use openpon::playfield::{Playfield, UpdateOutcome};
use openpon::sprite::{SpriteFrame, SpriteInfo};
use openpon::stack::{FIELD_HEIGHT, FIELD_WIDTH, MAX_ROWS};
use openpon::vec2::Vec2;

const ALL_KINDS: [PanelKind; 7] = [
    PanelKind::Circle,
    PanelKind::Diamond,
    PanelKind::Heart,
    PanelKind::Star,
    PanelKind::Up,
    PanelKind::Down,
    PanelKind::Stone,
];

const ALL_STATES: [PanelAnimState; 4] =
    [PanelAnimState::Normal, PanelAnimState::Dark, PanelAnimState::Bounce, PanelAnimState::Clear];

/// Ticks per one-pixel rise at level 0.
const STEP: u64 = 1_200_000_000;

type Slot = Option<(PanelKind, PanelAnimState)>;

fn cell(index: usize) -> SpriteFrame {
    SpriteFrame { x: (index as i32 % 8) * 16, y: (index as i32 / 8) * 16, width: 16, height: 16 }
}

/// A sheet with two frames for each kind in each state: the animation of
/// kind `k` in state `s` runs through frames `8 k + 2 s` and `8 k + 2 s + 1`.
fn field_sheet() -> PanelSheet {
    let mut animations = Vec::new();
    let mut next = 0;
    for kind in ALL_KINDS {
        for state in ALL_STATES {
            animations.push((animation_name(kind, state), vec![next, next + 1]));
            next += 2;
        }
    }
    let info = SpriteInfo::new(
        "panels.png".to_string(),
        (0..56).map(cell).collect(),
        animations,
        "circle".to_string(),
    )
    .unwrap();
    PanelSheet::new(info).unwrap()
}

fn new_field(seed: u64) -> Playfield {
    Playfield::new(8, 214, field_sheet(), KindSource::seeded(seed))
}

fn field_of(rows: Vec<[Option<Panel>; FIELD_WIDTH]>) -> Playfield {
    Playfield::with_rows(8, 214, rows, field_sheet(), KindSource::seeded(5))
}

fn full_row(sheet: &PanelSheet, kind: PanelKind, state: PanelAnimState) -> [Option<Panel>; FIELD_WIDTH] {
    std::array::from_fn(|_| {
        let mut panel = Panel::new(kind, sheet);
        panel.set_anim_state(state);
        Some(panel)
    })
}

fn empty_row() -> [Option<Panel>; FIELD_WIDTH] {
    std::array::from_fn(|_| None)
}

fn row_of(field: &Playfield, row: usize) -> Vec<Slot> {
    (0..FIELD_WIDTH)
        .map(|column| field.panel(row, column).map(|panel| (panel.kind(), panel.anim_state())))
        .collect()
}

fn rows_of(field: &Playfield) -> Vec<Vec<Slot>> {
    (0..field.row_count()).map(|row| row_of(field, row)).collect()
}

fn lit(row: &[Slot]) -> Vec<Slot> {
    row.iter().map(|slot| slot.map(|(kind, _)| (kind, PanelAnimState::Normal))).collect()
}

fn is_full_of(row: &[Slot], state: PanelAnimState) -> bool {
    row.len() == FIELD_WIDTH && row.iter().all(|slot| matches!(slot, Some((_, found)) if *found == state))
}

#[test]
fn field_dimensions_are_six_by_thirteen() {
    assert_eq!(FIELD_WIDTH, 6);
    assert_eq!(FIELD_HEIGHT, 13);
    assert_eq!(MAX_ROWS, 12);
}

#[test]
fn new_field_has_one_dark_row_under_four_lit_rows() {
    let field = new_field(1);
    assert_eq!(field.row_count(), 5);
    assert!(is_full_of(&row_of(&field, 0), PanelAnimState::Dark));
    for row in 1..5 {
        assert!(is_full_of(&row_of(&field, row), PanelAnimState::Normal));
    }
    assert!(field.panel(5, 0).is_none());
    assert!(field.panel(0, 6).is_none());
    assert_eq!(field.pos(), Vec2::new(8, 214));
    assert_eq!(field.stack_offset(), 0);
    assert_eq!(field.timer(), 0);
    assert_eq!(field.level(), 0);
    assert!(!field.is_stack_stopped());
    assert!(!field.is_lost());
}

#[test]
fn new_field_panels_play_the_animation_of_their_state() {
    let field = new_field(3);
    for row in 0..5 {
        for column in 0..FIELD_WIDTH {
            let panel = field.panel(row, column).unwrap();
            assert_eq!(panel.sprite().current_anim(), &animation_name(panel.kind(), panel.anim_state()));
            assert_eq!(panel.sprite().frame_counter(), 0);
            assert_eq!(panel.sprite().pos(), &Vec2::new(0, 0));
        }
    }
}

#[test]
fn new_field_draws_its_kinds_in_the_order_of_the_source() {
    let field = new_field(77);
    let mut source = KindSource::seeded(77);
    // the rows were made from the topmost down to the one below the screen
    for row in (0..5).rev() {
        for column in 0..FIELD_WIDTH {
            assert_eq!(field.panel(row, column).unwrap().kind(), source.next_kind());
        }
    }
}

#[test]
fn stack_raise_rate_follows_the_level() {
    let mut field = new_field(1);
    assert_eq!(field.stack_raise_rate(), STEP);
    field.set_level(3);
    assert_eq!(field.level(), 3);
    assert_eq!(field.stack_raise_rate(), 795_000_000);
    field.set_level(100);
    assert_eq!(field.stack_raise_rate(), MIN_RISE_INTERVAL);
}

#[test]
fn update_banks_time_short_of_an_interval() {
    let mut field = new_field(1);
    let before = rows_of(&field);
    assert_eq!(field.update(STEP - 1), UpdateOutcome::Running);
    assert_eq!(field.stack_offset(), 0);
    assert_eq!(field.timer(), STEP - 1);
    assert_eq!(rows_of(&field), before);
}

#[test]
fn update_rises_one_pixel_for_each_whole_interval() {
    let mut field = new_field(1);
    assert_eq!(field.update(STEP), UpdateOutcome::Running);
    assert_eq!(field.stack_offset(), 1);
    assert_eq!(field.timer(), 0);
    assert_eq!(field.update(2 * STEP + 1), UpdateOutcome::Running);
    assert_eq!(field.stack_offset(), 3);
    assert_eq!(field.timer(), 1);
    assert_eq!(field.update(STEP - 1), UpdateOutcome::Running);
    assert_eq!(field.stack_offset(), 4);
    assert_eq!(field.timer(), 0);
    assert_eq!(field.row_count(), 5);
}

#[test]
fn update_with_no_time_changes_nothing_in_the_field() {
    let mut field = new_field(1);
    field.update(STEP / 2);
    let before = rows_of(&field);
    assert_eq!(field.update(0), UpdateOutcome::Running);
    assert_eq!(field.timer(), STEP / 2);
    assert_eq!(field.stack_offset(), 0);
    assert_eq!(rows_of(&field), before);
}

#[test]
fn fifteen_pixels_do_not_shift_the_rows() {
    let mut field = new_field(2);
    let before = rows_of(&field);
    assert_eq!(field.update(15 * STEP), UpdateOutcome::Running);
    assert_eq!(field.stack_offset(), 15);
    assert_eq!(rows_of(&field), before);
}

#[test]
fn the_sixteenth_pixel_shifts_the_rows() {
    let mut field = new_field(2);
    let before = rows_of(&field);
    assert_eq!(field.update(16 * STEP), UpdateOutcome::Running);
    assert_eq!(field.stack_offset(), 0);
    assert_eq!(field.timer(), 0);
    let after = rows_of(&field);
    assert_eq!(after.len(), 6);
    assert!(is_full_of(&after[0], PanelAnimState::Dark));
    assert_eq!(after[1], lit(&before[0]));
    assert_eq!(&after[2..], &before[1..]);
}

#[test]
fn raise_stack_one_pixel_counts_to_a_panel_height() {
    let mut field = new_field(4);
    for pixel in 1..16 {
        assert_eq!(field.raise_stack_one_pixel(), UpdateOutcome::Running);
        assert_eq!(field.stack_offset(), pixel);
        assert_eq!(field.row_count(), 5);
    }
    assert_eq!(field.raise_stack_one_pixel(), UpdateOutcome::Running);
    assert_eq!(field.stack_offset(), 0);
    assert_eq!(field.row_count(), 6);
    assert_eq!(field.timer(), 0);
}

#[test]
fn several_shifts_in_one_update_light_all_but_the_newest_row() {
    let mut field = new_field(6);
    let before = rows_of(&field);
    assert_eq!(field.update(3 * 16 * STEP + 5 * STEP + 11), UpdateOutcome::Running);
    assert_eq!(field.stack_offset(), 5);
    assert_eq!(field.timer(), 11);
    let after = rows_of(&field);
    assert_eq!(after.len(), 8);
    assert!(is_full_of(&after[0], PanelAnimState::Dark));
    assert!(is_full_of(&after[1], PanelAnimState::Normal));
    assert!(is_full_of(&after[2], PanelAnimState::Normal));
    assert_eq!(after[3], lit(&before[0]));
    assert_eq!(&after[4..], &before[1..]);
}

#[test]
fn time_in_one_call_or_in_many_makes_the_same_field() {
    let total = 40 * STEP + 17;
    let mut whole = new_field(11);
    assert_eq!(whole.update(total), UpdateOutcome::Running);
    let mut chunked = new_field(11);
    let chunks = [STEP / 3, 7 * STEP + 1, 0, 5, 16 * STEP, STEP - 1];
    let mut fed = 0;
    for chunk in chunks {
        assert_eq!(chunked.update(chunk), UpdateOutcome::Running);
        fed += chunk;
    }
    while fed < total {
        let chunk = (STEP / 7).min(total - fed);
        assert_eq!(chunked.update(chunk), UpdateOutcome::Running);
        fed += chunk;
    }
    assert_eq!(whole.stack_offset(), 8);
    assert_eq!(whole.row_count(), 7);
    assert_eq!(whole.timer(), 17);
    assert_eq!(chunked.stack_offset(), whole.stack_offset());
    assert_eq!(chunked.timer(), whole.timer());
    assert_eq!(rows_of(&chunked), rows_of(&whole));
}

#[test]
fn a_stopped_field_lets_time_pass_by() {
    let mut field = new_field(12);
    field.update(STEP / 2);
    let before = rows_of(&field);
    field.set_stack_stopped(true);
    assert!(field.is_stack_stopped());
    assert_eq!(field.update(100 * STEP), UpdateOutcome::Running);
    assert_eq!(field.timer(), STEP / 2);
    assert_eq!(field.stack_offset(), 0);
    assert_eq!(rows_of(&field), before);
    field.set_stack_stopped(false);
    assert_eq!(field.update(STEP / 2), UpdateOutcome::Running);
    assert_eq!(field.stack_offset(), 1);
    assert_eq!(field.timer(), 0);
}

#[test]
fn stopping_and_letting_go_at_once_changes_nothing() {
    let mut field = new_field(13);
    field.update(20 * STEP + 123);
    let before = rows_of(&field);
    field.set_stack_stopped(true);
    field.set_stack_stopped(false);
    assert!(!field.is_stack_stopped());
    assert_eq!(field.timer(), 123);
    assert_eq!(field.stack_offset(), 4);
    assert_eq!(rows_of(&field), before);
}

#[test]
fn a_pause_only_takes_the_paused_time_out() {
    let mut paused = new_field(14);
    let mut straight = new_field(14);
    paused.update(30 * STEP + 9);
    paused.set_stack_stopped(true);
    paused.update(55 * STEP);
    paused.set_stack_stopped(false);
    paused.update(10 * STEP);
    straight.update(30 * STEP + 9);
    straight.update(10 * STEP);
    assert_eq!(paused.stack_offset(), straight.stack_offset());
    assert_eq!(paused.timer(), straight.timer());
    assert_eq!(rows_of(&paused), rows_of(&straight));
}

#[test]
fn a_new_field_is_lost_at_its_eighth_shift() {
    let mut field = new_field(21);
    let before = rows_of(&field);
    assert_eq!(field.update(127 * STEP + 3), UpdateOutcome::Running);
    assert_eq!(field.row_count(), 12);
    assert_eq!(field.stack_offset(), 15);
    assert!(!field.is_lost());
    assert_eq!(rows_of(&field)[11], before[4]);
    assert_eq!(field.update(STEP), UpdateOutcome::LossCondition);
    assert!(field.is_lost());
    assert_eq!(field.row_count(), 11);
    assert_eq!(field.stack_offset(), 0);
    assert_eq!(field.timer(), 0);
    let left = rows_of(&field);
    for row in 0..7 {
        assert!(is_full_of(&left[row], PanelAnimState::Normal));
    }
    assert_eq!(left[7], lit(&before[0]));
    assert_eq!(&left[8..], &before[1..4]);
}

#[test]
fn a_loss_in_the_middle_of_an_update_ends_it() {
    let mut field = new_field(21);
    assert_eq!(field.update(1000 * STEP), UpdateOutcome::LossCondition);
    assert!(field.is_lost());
    assert_eq!(field.row_count(), 11);
    assert_eq!(field.stack_offset(), 0);
    assert_eq!(field.timer(), 0);
    let mut stepwise = new_field(21);
    stepwise.update(127 * STEP);
    stepwise.update(STEP);
    assert_eq!(rows_of(&field), rows_of(&stepwise));
}

#[test]
fn the_longest_update_ends_in_a_loss() {
    let mut field = new_field(22);
    field.update(STEP / 2);
    assert_eq!(field.update(u64::MAX), UpdateOutcome::LossCondition);
    assert!(field.is_lost());
}

#[test]
fn a_lost_field_reports_its_loss_again() {
    let mut field = new_field(23);
    assert_eq!(field.update(128 * STEP), UpdateOutcome::LossCondition);
    let left = rows_of(&field);
    for delta in [0, 1, STEP, 500 * STEP] {
        assert_eq!(field.update(delta), UpdateOutcome::LossCondition);
        assert!(field.is_lost());
        assert_eq!(field.timer(), 0);
        assert_eq!(field.stack_offset(), 0);
        assert_eq!(rows_of(&field), left);
    }
}

#[test]
fn a_panel_in_the_topmost_row_of_a_full_stack_loses_the_field() {
    let sheet = field_sheet();
    let mut rows = Vec::new();
    rows.push(full_row(&sheet, PanelKind::Heart, PanelAnimState::Dark));
    for _ in 1..11 {
        rows.push(empty_row());
    }
    let mut top = empty_row();
    top[3] = Some(Panel::new(PanelKind::Stone, &sheet));
    rows.push(top);
    let mut field = field_of(rows);
    assert_eq!(field.row_count(), 12);
    assert_eq!(field.update(15 * STEP), UpdateOutcome::Running);
    assert_eq!(field.row_count(), 12);
    assert_eq!(field.update(STEP), UpdateOutcome::LossCondition);
    assert!(field.is_lost());
    assert_eq!(field.row_count(), 11);
    assert_eq!(row_of(&field, 0), vec![Some((PanelKind::Heart, PanelAnimState::Normal)); 6]);
    for row in 1..11 {
        assert_eq!(row_of(&field, row), vec![None; 6]);
    }
    assert_eq!(field.update(16 * STEP), UpdateOutcome::LossCondition);
    assert_eq!(field.row_count(), 11);
}

#[test]
fn an_empty_topmost_row_leaves_without_a_loss() {
    let sheet = field_sheet();
    let mut rows = Vec::new();
    rows.push(full_row(&sheet, PanelKind::Up, PanelAnimState::Dark));
    for _ in 1..11 {
        rows.push(full_row(&sheet, PanelKind::Circle, PanelAnimState::Normal));
    }
    rows.push(empty_row());
    let mut field = field_of(rows);
    let before = rows_of(&field);
    assert_eq!(field.update(16 * STEP), UpdateOutcome::Running);
    assert!(!field.is_lost());
    assert_eq!(field.stack_offset(), 0);
    let after = rows_of(&field);
    assert_eq!(after.len(), 12);
    assert!(is_full_of(&after[0], PanelAnimState::Dark));
    assert_eq!(after[1], vec![Some((PanelKind::Up, PanelAnimState::Normal)); 6]);
    assert_eq!(&after[2..], &before[1..11]);
    // the next row to leave is full
    assert_eq!(field.update(16 * STEP), UpdateOutcome::LossCondition);
}

#[test]
fn with_rows_keeps_the_rows_in_order() {
    let sheet = field_sheet();
    let mut holes = empty_row();
    holes[0] = Some(Panel::new(PanelKind::Star, &sheet));
    holes[5] = Some(Panel::new(PanelKind::Down, &sheet));
    let rows = vec![
        full_row(&sheet, PanelKind::Diamond, PanelAnimState::Dark),
        holes,
        full_row(&sheet, PanelKind::Heart, PanelAnimState::Clear),
    ];
    let field = field_of(rows);
    assert_eq!(field.row_count(), 3);
    assert_eq!(row_of(&field, 0), vec![Some((PanelKind::Diamond, PanelAnimState::Dark)); 6]);
    assert_eq!(
        row_of(&field, 1),
        vec![
            Some((PanelKind::Star, PanelAnimState::Dark)),
            None,
            None,
            None,
            None,
            Some((PanelKind::Down, PanelAnimState::Dark)),
        ]
    );
    assert_eq!(row_of(&field, 2), vec![Some((PanelKind::Heart, PanelAnimState::Clear)); 6]);
    assert_eq!(field.stack_offset(), 0);
    assert_eq!(field.timer(), 0);
    assert!(!field.is_lost());
}

#[test]
fn a_field_without_rows_is_lost_at_its_thirteenth_shift() {
    let mut field = field_of(Vec::new());
    assert_eq!(field.row_count(), 0);
    assert_eq!(field.update(16 * STEP), UpdateOutcome::Running);
    assert_eq!(field.row_count(), 1);
    assert!(is_full_of(&row_of(&field, 0), PanelAnimState::Dark));
    assert_eq!(field.update(11 * 16 * STEP + 15 * STEP), UpdateOutcome::Running);
    assert_eq!(field.row_count(), 12);
    assert_eq!(field.update(STEP), UpdateOutcome::LossCondition);
    assert_eq!(field.row_count(), 11);
    for row in 0..11 {
        assert!(is_full_of(&row_of(&field, row), PanelAnimState::Normal));
    }
}

#[test]
fn holes_stay_holes_when_a_row_lights_up() {
    let sheet = field_sheet();
    let mut holes = empty_row();
    holes[2] = Some(Panel::new(PanelKind::Circle, &sheet));
    let mut field = field_of(vec![holes]);
    assert_eq!(field.update(16 * STEP), UpdateOutcome::Running);
    assert_eq!(
        row_of(&field, 1),
        vec![None, None, Some((PanelKind::Circle, PanelAnimState::Normal)), None, None, None]
    );
}

#[test]
fn the_stack_stays_within_its_bounds_until_it_is_lost() {
    let mut field = new_field(31);
    let deltas = [STEP / 5, 3 * STEP, 16 * STEP + 1, 0, 40 * STEP, STEP - 1, 2 * STEP / 3];
    let mut rows = field.row_count();
    let mut turn = 0;
    loop {
        let outcome = field.update(deltas[turn % deltas.len()]);
        assert!(field.row_count() <= MAX_ROWS);
        assert!(0 <= field.stack_offset() && field.stack_offset() < 16);
        if outcome == UpdateOutcome::LossCondition {
            assert_eq!(field.row_count(), MAX_ROWS - 1);
            break;
        }
        assert!(field.row_count() >= rows);
        assert!(field.timer() < STEP);
        rows = field.row_count();
        turn += 1;
        assert!(turn < 1000);
    }
}

#[test]
fn a_higher_level_raises_the_stack_sooner() {
    let mut field = new_field(32);
    field.set_level(9);
    assert_eq!(field.update(16 * MIN_RISE_INTERVAL - 1), UpdateOutcome::Running);
    assert_eq!(field.stack_offset(), 15);
    assert_eq!(field.row_count(), 5);
    assert_eq!(field.update(1), UpdateOutcome::Running);
    assert_eq!(field.stack_offset(), 0);
    assert_eq!(field.row_count(), 6);
}

#[test]
fn draw_places_each_panel_by_its_slot() {
    let field = new_field(41);
    let blits = field.draw();
    assert_eq!(blits.len(), 30);
    for row in 0..5 {
        for column in 0..FIELD_WIDTH {
            let blit = &blits[row * FIELD_WIDTH + column];
            let panel = field.panel(row, column).unwrap();
            assert_eq!(blit.texture_filename, "panels.png");
            assert_eq!(blit.source, panel.sprite().current_frame());
            assert_eq!(
                blit.target,
                SpriteFrame { x: 8 + 16 * column as i32, y: 214 - 16 * row as i32, width: 16, height: 16 }
            );
        }
    }
    assert_eq!(blits[0].target.x, 8);
    assert_eq!(blits[0].target.y, 214);
    assert_eq!(blits[29].target.x, 88);
    assert_eq!(blits[29].target.y, 150);
}

#[test]
fn draw_shows_the_first_frame_of_each_animation() {
    let field = new_field(42);
    let blits = field.draw();
    for column in 0..FIELD_WIDTH {
        let dark = field.panel(0, column).unwrap().kind().index() as usize;
        assert_eq!(blits[column].source, cell(8 * dark + 2));
        let normal = field.panel(1, column).unwrap().kind().index() as usize;
        assert_eq!(blits[FIELD_WIDTH + column].source, cell(8 * normal));
    }
}

#[test]
fn draw_follows_the_offset_upwards() {
    let mut field = new_field(43);
    field.update(3 * STEP);
    let blits = field.draw();
    assert_eq!(blits.len(), 30);
    assert_eq!(blits[0].target.y, 211);
    assert_eq!(blits[6].target.y, 195);
    assert_eq!(blits[6].target.x, 8);
}

#[test]
fn draw_leaves_empty_slots_out() {
    let sheet = field_sheet();
    let mut holes = empty_row();
    holes[1] = Some(Panel::new(PanelKind::Star, &sheet));
    holes[4] = Some(Panel::new(PanelKind::Down, &sheet));
    let field = field_of(vec![empty_row(), holes, empty_row()]);
    let blits = field.draw();
    assert_eq!(blits.len(), 2);
    assert_eq!(blits[0].target, SpriteFrame { x: 24, y: 198, width: 16, height: 16 });
    assert_eq!(blits[1].target, SpriteFrame { x: 72, y: 198, width: 16, height: 16 });
    assert_eq!(blits[0].source, cell(8 * 3 + 2));
    assert_eq!(blits[1].source, cell(8 * 5 + 2));
}

#[test]
fn draw_reaches_the_edges_of_the_plane() {
    let field = Playfield::new(i32::MAX - 80, i32::MIN + 207, field_sheet(), KindSource::seeded(1));
    let blits = field.draw();
    assert_eq!(blits[5].target.x, i32::MAX);
    assert_eq!(blits[24].target.y, i32::MIN + 207 - 64);
}

#[test]
fn unlazy_map_reaches_every_panel() {
    let mut field = new_field(51);
    let before = rows_of(&field);
    field.unlazy_map(|mut panel: Panel| {
        panel.update(FRAME_INTERVAL + 1);
        panel
    });
    assert_eq!(rows_of(&field), before);
    for row in 0..5 {
        for column in 0..FIELD_WIDTH {
            let panel = field.panel(row, column).unwrap();
            assert_eq!(panel.sprite().frame_counter(), 1);
            assert_eq!(panel.sprite().timer(), 1);
        }
    }
}

#[test]
fn unlazy_map_passes_over_empty_slots() {
    let sheet = field_sheet();
    let mut holes = empty_row();
    holes[2] = Some(Panel::new(PanelKind::Circle, &sheet));
    let mut field = field_of(vec![
        full_row(&sheet, PanelKind::Heart, PanelAnimState::Dark),
        holes,
        empty_row(),
    ]);
    field.unlazy_map(|mut panel: Panel| {
        panel.set_anim_state(PanelAnimState::Bounce);
        panel
    });
    assert_eq!(row_of(&field, 0), vec![Some((PanelKind::Heart, PanelAnimState::Bounce)); 6]);
    assert_eq!(
        row_of(&field, 1),
        vec![None, None, Some((PanelKind::Circle, PanelAnimState::Bounce)), None, None, None]
    );
    assert_eq!(row_of(&field, 2), vec![None; 6]);
}

#[test]
fn origin_fits_up_to_the_edges_of_the_plane() {
    assert!(Playfield::origin_fits(8, 214));
    assert!(Playfield::origin_fits(i32::MIN, i32::MAX));
    assert!(Playfield::origin_fits(i32::MAX - 80, i32::MIN + 207));
    assert!(!Playfield::origin_fits(i32::MAX - 79, 214));
    assert!(!Playfield::origin_fits(8, i32::MIN + 206));
}
