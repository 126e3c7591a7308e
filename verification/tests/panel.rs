use openpon::clock::FRAME_INTERVAL;
use openpon::panel::{
    animation_name, KindSource, Panel, PanelAnimState, PanelKind, PanelSheet, KIND_COUNT,
    PANEL_HEIGHT, PANEL_WIDTH,
};
use openpon::sprite::{SpriteFrame, SpriteInfo, UnknownAnimationError};
use openpon::vec2::Vec2;

const KINDS: [PanelKind; 7] = [
    PanelKind::Circle,
    PanelKind::Diamond,
    PanelKind::Heart,
    PanelKind::Star,
    PanelKind::Up,
    PanelKind::Down,
    PanelKind::Stone,
];

const STATES: [PanelAnimState; 4] =
    [PanelAnimState::Normal, PanelAnimState::Dark, PanelAnimState::Bounce, PanelAnimState::Clear];

fn tile(index: usize) -> SpriteFrame {
    SpriteFrame { x: (index as i32 % 8) * 16, y: (index as i32 / 8) * 16, width: 16, height: 16 }
}

/// A sheet with two frames for each kind in each state, except for the names
/// in `without`.
fn panel_info(without: &[&str]) -> SpriteInfo {
    let mut animations = Vec::new();
    let mut next = 0;
    for kind in KINDS {
        for state in STATES {
            let name = animation_name(kind, state);
            if !without.contains(&name.as_str()) {
                animations.push((name, vec![next, next + 1]));
            }
            next += 2;
        }
    }
    SpriteInfo::new("panels.png".to_string(), (0..56).map(tile).collect(), animations, "circle".to_string())
        .unwrap()
}

fn panel_sheet() -> PanelSheet {
    PanelSheet::new(panel_info(&[])).unwrap()
}

#[test]
fn panels_are_sixteen_pixels_square() {
    assert_eq!(PANEL_WIDTH, 16);
    assert_eq!(PANEL_HEIGHT, 16);
}

#[test]
fn kind_names_are_lower_case_words() {
    assert_eq!(PanelKind::Circle.name(), "circle");
    assert_eq!(PanelKind::Diamond.name(), "diamond");
    assert_eq!(PanelKind::Heart.name(), "heart");
    assert_eq!(PanelKind::Star.name(), "star");
    assert_eq!(PanelKind::Up.name(), "up");
    assert_eq!(PanelKind::Down.name(), "down");
    assert_eq!(PanelKind::Stone.name(), "stone");
}

#[test]
fn state_suffixes_are_empty_for_normal_only() {
    assert_eq!(PanelAnimState::Normal.suffix(), "");
    assert_eq!(PanelAnimState::Dark.suffix(), "Dark");
    assert_eq!(PanelAnimState::Bounce.suffix(), "Bounce");
    assert_eq!(PanelAnimState::Clear.suffix(), "Clear");
}

#[test]
fn animation_name_joins_kind_and_state() {
    assert_eq!(animation_name(PanelKind::Heart, PanelAnimState::Dark), "heartDark");
    assert_eq!(animation_name(PanelKind::Up, PanelAnimState::Normal), "up");
    assert_eq!(animation_name(PanelKind::Stone, PanelAnimState::Bounce), "stoneBounce");
    assert_eq!(animation_name(PanelKind::Down, PanelAnimState::Clear), "downClear");
}

#[test]
fn animation_names_are_all_different() {
    let mut names = Vec::new();
    for kind in KINDS {
        for state in STATES {
            let name = animation_name(kind, state);
            assert!(!names.contains(&name));
            names.push(name);
        }
    }
    assert_eq!(names.len(), 28);
}

#[test]
fn kind_indices_count_from_zero() {
    assert_eq!(KIND_COUNT, 7);
    for (place, kind) in KINDS.iter().enumerate() {
        assert_eq!(kind.index(), place as i32);
    }
}

#[test]
fn from_index_inverts_index() {
    for kind in KINDS {
        assert_eq!(PanelKind::from_index(kind.index()), kind);
    }
}

#[test]
fn from_index_gives_stone_outside_the_kinds() {
    assert_eq!(PanelKind::from_index(6), PanelKind::Stone);
    assert_eq!(PanelKind::from_index(7), PanelKind::Stone);
    assert_eq!(PanelKind::from_index(-1), PanelKind::Stone);
    assert_eq!(PanelKind::from_index(i32::MAX), PanelKind::Stone);
    assert_eq!(PanelKind::from_index(i32::MIN), PanelKind::Stone);
}

#[test]
fn panel_sheet_accepts_a_complete_sheet() {
    let sheet = panel_sheet();
    assert_eq!(sheet.info().animations().len(), 28);
    assert_eq!(sheet.info().texture_filename(), "panels.png");
}

#[test]
fn panel_sheet_refuses_a_missing_animation() {
    assert_eq!(PanelSheet::new(panel_info(&["stoneClear"])).err(), Some(UnknownAnimationError));
    assert_eq!(PanelSheet::new(panel_info(&["heart"])).err(), Some(UnknownAnimationError));
    assert_eq!(PanelSheet::new(panel_info(&["upDark", "downBounce"])).err(), Some(UnknownAnimationError));
}

#[test]
fn new_panel_starts_dark() {
    let sheet = panel_sheet();
    for kind in KINDS {
        let panel = Panel::new(kind, &sheet);
        assert_eq!(panel.kind(), kind);
        assert_eq!(panel.anim_state(), PanelAnimState::Dark);
        assert_eq!(panel.sprite().current_anim(), &animation_name(kind, PanelAnimState::Dark));
        assert_eq!(panel.sprite().frame_counter(), 0);
        assert_eq!(panel.sprite().timer(), 0);
        assert_eq!(panel.sprite().pos(), &Vec2::new(0, 0));
    }
}

#[test]
fn set_anim_state_renames_the_animation() {
    let sheet = panel_sheet();
    let mut panel = Panel::new(PanelKind::Star, &sheet);
    panel.update(FRAME_INTERVAL + 9);
    assert_eq!(panel.sprite().frame_counter(), 1);
    panel.set_anim_state(PanelAnimState::Normal);
    assert_eq!(panel.kind(), PanelKind::Star);
    assert_eq!(panel.anim_state(), PanelAnimState::Normal);
    assert_eq!(panel.sprite().current_anim(), "star");
    assert_eq!(panel.sprite().frame_counter(), 0);
    assert_eq!(panel.sprite().timer(), 9);
    panel.set_anim_state(PanelAnimState::Clear);
    assert_eq!(panel.anim_state(), PanelAnimState::Clear);
    assert_eq!(panel.sprite().current_anim(), "starClear");
    panel.set_anim_state(PanelAnimState::Bounce);
    assert_eq!(panel.sprite().current_anim(), "starBounce");
}

#[test]
fn panel_update_advances_its_sprite() {
    let sheet = panel_sheet();
    let mut panel = Panel::new(PanelKind::Diamond, &sheet);
    panel.update(3 * FRAME_INTERVAL + 2);
    assert_eq!(panel.sprite().frame_counter(), 1);
    assert_eq!(panel.sprite().timer(), 2);
    assert_eq!(panel.anim_state(), PanelAnimState::Dark);
    // diamond is the second kind and Dark its second state: frames 10 and 11
    assert_eq!(panel.sprite().current_frame(), tile(11));
}

#[test]
fn mut_sprite_reaches_the_sprite_of_the_panel() {
    let sheet = panel_sheet();
    let mut panel = Panel::new(PanelKind::Circle, &sheet);
    panel.mut_sprite().update(FRAME_INTERVAL + 1);
    assert_eq!(panel.sprite().frame_counter(), 1);
    assert_eq!(panel.kind(), PanelKind::Circle);
}

#[test]
fn panel_clone_is_a_panel_of_its_own() {
    let sheet = panel_sheet();
    let panel = Panel::new(PanelKind::Up, &sheet);
    let mut copy = panel.clone();
    copy.set_anim_state(PanelAnimState::Normal);
    assert_eq!(panel.anim_state(), PanelAnimState::Dark);
    assert_eq!(copy.anim_state(), PanelAnimState::Normal);
    assert_eq!(copy.kind(), PanelKind::Up);
}

#[test]
fn seeded_sources_repeat_themselves() {
    let mut first = KindSource::seeded(2020);
    let mut second = KindSource::seeded(2020);
    for _ in 0..500 {
        assert_eq!(first.next_kind(), second.next_kind());
    }
}

#[test]
fn seeds_make_different_sources() {
    let mut first = KindSource::seeded(1);
    let mut second = KindSource::seeded(2);
    let mut same = 0;
    for _ in 0..500 {
        if first.next_kind() == second.next_kind() {
            same += 1;
        }
    }
    assert!(same < 500);
}

#[test]
fn every_kind_comes_out_about_equally_often() {
    let mut source = KindSource::seeded(7);
    let draws = 14_000;
    let mut counts = [0u32; 7];
    for _ in 0..draws {
        counts[source.next_kind().index() as usize] += 1;
    }
    let expected = draws as f64 / 7.0;
    let mut chi_square = 0.0;
    for count in counts {
        assert!(count > 0);
        let off = count as f64 - expected;
        chi_square += off * off / expected;
    }
    // six degrees of freedom: 22.46 is the 0.1 % point
    assert!(chi_square < 22.46, "chi square {}", chi_square);
}

#[test]
fn random_panels_are_new_dark_panels() {
    let sheet = panel_sheet();
    let mut source = KindSource::seeded(99);
    let mut check = KindSource::seeded(99);
    for _ in 0..50 {
        let panel = Panel::new_with_random_kind(&mut source, &sheet);
        assert_eq!(panel.kind(), check.next_kind());
        assert_eq!(panel.anim_state(), PanelAnimState::Dark);
        assert_eq!(panel.sprite().current_anim(), &animation_name(panel.kind(), PanelAnimState::Dark));
    }
}
