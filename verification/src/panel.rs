//! Panels: the tiles of the playfield, their kinds and animation states, and
//! the source that new kinds are drawn from.

use crate::sprite::{Sprite, SpriteInfo, SpriteInfoView, SpriteView, UnknownAnimationError};
use crate::vec2::Vec2;
use rand::rngs::StdRng;
use rand::{Rng, SeedableRng};
use vstd::prelude::*;
use vstd::string::StringExecFns;

verus! {

/// Width of a panel on screen, in pixels.
pub const PANEL_WIDTH: i32 = 16;

/// Height of a panel on screen, in pixels.
pub const PANEL_HEIGHT: i32 = 16;

/// Number of panel kinds.
pub const KIND_COUNT: i32 = 7;

/// The symbol on a panel.
#[derive(Clone, Copy, Debug, PartialEq, Eq, Hash)]
pub enum PanelKind {
    Circle,
    Diamond,
    Heart,
    Star,
    Up,
    Down,
    Stone,
}

impl PanelKind {
    /// The kind's name, as animations spell it.
    pub open spec fn name_spec(self) -> Seq<char> {
        match self {
            PanelKind::Circle => "circle"@,
            PanelKind::Diamond => "diamond"@,
            PanelKind::Heart => "heart"@,
            PanelKind::Star => "star"@,
            PanelKind::Up => "up"@,
            PanelKind::Down => "down"@,
            PanelKind::Stone => "stone"@,
        }
    }

    /// The kind's place in the declaration, from 0.
    pub open spec fn index_spec(self) -> int {
        match self {
            PanelKind::Circle => 0,
            PanelKind::Diamond => 1,
            PanelKind::Heart => 2,
            PanelKind::Star => 3,
            PanelKind::Up => 4,
            PanelKind::Down => 5,
            PanelKind::Stone => 6,
        }
    }

    /// The kind that `index` selects: the kind at that place for 0 to 5, and
    /// `Stone` for every other index.
    pub open spec fn of_index(index: int) -> PanelKind {
        if index == 0 {
            PanelKind::Circle
        } else if index == 1 {
            PanelKind::Diamond
        } else if index == 2 {
            PanelKind::Heart
        } else if index == 3 {
            PanelKind::Star
        } else if index == 4 {
            PanelKind::Up
        } else if index == 5 {
            PanelKind::Down
        } else {
            PanelKind::Stone
        }
    }

    /// The kind's name, as animations spell it.
    pub fn name(self) -> (name: &'static str)
        ensures
            name@ == self.name_spec(),
    {
        match self {
            PanelKind::Circle => "circle",
            PanelKind::Diamond => "diamond",
            PanelKind::Heart => "heart",
            PanelKind::Star => "star",
            PanelKind::Up => "up",
            PanelKind::Down => "down",
            PanelKind::Stone => "stone",
        }
    }

    /// The kind's place in the declaration, from 0.
    pub fn index(self) -> (index: i32)
        ensures
            index == self.index_spec(),
            0 <= index < KIND_COUNT,
    {
        match self {
            PanelKind::Circle => 0,
            PanelKind::Diamond => 1,
            PanelKind::Heart => 2,
            PanelKind::Star => 3,
            PanelKind::Up => 4,
            PanelKind::Down => 5,
            PanelKind::Stone => 6,
        }
    }

    /// The kind that `index` selects.
    pub fn from_index(index: i32) -> (kind: PanelKind)
        ensures
            kind == Self::of_index(index as int),
    {
        match index {
            0 => PanelKind::Circle,
            1 => PanelKind::Diamond,
            2 => PanelKind::Heart,
            3 => PanelKind::Star,
            4 => PanelKind::Up,
            5 => PanelKind::Down,
            _ => PanelKind::Stone,
        }
    }

    /// Every kind is the one that its own index selects.
    pub proof fn law_index_round_trip(self)
        ensures
            0 <= self.index_spec() < KIND_COUNT,
            Self::of_index(self.index_spec()) == self,
    {
    }
}

/// Current state of a panel's animation.
#[derive(Clone, Copy, Debug, PartialEq, Eq, Hash)]
pub enum PanelAnimState {
    Normal,
    Dark,
    Bounce,
    Clear,
}

impl PanelAnimState {
    /// What the state adds to a kind's name to name an animation.
    pub open spec fn suffix_spec(self) -> Seq<char> {
        match self {
            PanelAnimState::Normal => ""@,
            PanelAnimState::Dark => "Dark"@,
            PanelAnimState::Bounce => "Bounce"@,
            PanelAnimState::Clear => "Clear"@,
        }
    }

    /// What the state adds to a kind's name to name an animation.
    pub fn suffix(self) -> (suffix: &'static str)
        ensures
            suffix@ == self.suffix_spec(),
    {
        match self {
            PanelAnimState::Normal => "",
            PanelAnimState::Dark => "Dark",
            PanelAnimState::Bounce => "Bounce",
            PanelAnimState::Clear => "Clear",
        }
    }
}

/// Name of the animation that shows a panel of `kind` in `state`: the kind's
/// name followed by the state's suffix.
pub open spec fn animation_name_spec(kind: PanelKind, state: PanelAnimState) -> Seq<char> {
    kind.name_spec() + state.suffix_spec()
}

/// Name of the animation that shows a panel of `kind` in `state`.
pub fn animation_name(kind: PanelKind, state: PanelAnimState) -> (name: String)
    ensures
        name@ == animation_name_spec(kind, state),
{
    String::from_str(kind.name()).concat(state.suffix())
}

/// No two animations of panels share a name: the name tells both the kind
/// and the state.
pub proof fn law_animation_names_differ(
    kind: PanelKind,
    state: PanelAnimState,
    other_kind: PanelKind,
    other_state: PanelAnimState,
)
    requires
        animation_name_spec(kind, state) == animation_name_spec(other_kind, other_state),
    ensures
        kind == other_kind,
        state == other_state,
{
    reveal_strlit("circle");
    reveal_strlit("diamond");
    reveal_strlit("heart");
    reveal_strlit("star");
    reveal_strlit("up");
    reveal_strlit("down");
    reveal_strlit("stone");
    reveal_strlit("");
    reveal_strlit("Dark");
    reveal_strlit("Bounce");
    reveal_strlit("Clear");
    let name = animation_name_spec(kind, state);
    let other = animation_name_spec(other_kind, other_state);
    assert(name.len() == kind.name_spec().len() + state.suffix_spec().len());
    assert(other.len() == other_kind.name_spec().len() + other_state.suffix_spec().len());
    assert(name[0] == kind.name_spec()[0] && name[1] == kind.name_spec()[1]);
    assert(other[0] == other_kind.name_spec()[0] && other[1] == other_kind.name_spec()[1]);
    if kind.name_spec().len() > 2 {
        assert(name[2] == kind.name_spec()[2]);
    }
    if other_kind.name_spec().len() > 2 {
        assert(other[2] == other_kind.name_spec()[2]);
    }
}

/// Whether a sheet defines the animation of every kind in every state.
pub open spec fn covers_panels(info: SpriteInfoView) -> bool {
    forall|kind: PanelKind, state: PanelAnimState| #[trigger]
        info.has_animation(animation_name_spec(kind, state))
}

/// A sprite sheet that is known to define the animation of every panel kind
/// in every state.
pub struct PanelSheet {
    info: SpriteInfo,
}

impl View for PanelSheet {
    type V = SpriteInfoView;

    closed spec fn view(&self) -> SpriteInfoView {
        self.info@
    }
}

/// Whether `info` defines the animation of `kind` in every state.
fn covers_kind(info: &SpriteInfo, kind: PanelKind) -> (covered: bool)
    ensures
        covered == (forall|state: PanelAnimState| #[trigger]
            info@.has_animation(animation_name_spec(kind, state))),
{
    let normal = animation_name(kind, PanelAnimState::Normal);
    let dark = animation_name(kind, PanelAnimState::Dark);
    let bounce = animation_name(kind, PanelAnimState::Bounce);
    let clear = animation_name(kind, PanelAnimState::Clear);
    let covered = info.has_animation(normal.as_str()) && info.has_animation(dark.as_str())
        && info.has_animation(bounce.as_str()) && info.has_animation(clear.as_str());
    proof {
        if covered {
            assert forall|state: PanelAnimState| #[trigger]
                info@.has_animation(animation_name_spec(kind, state)) by {
                match state {
                    PanelAnimState::Normal => {},
                    PanelAnimState::Dark => {},
                    PanelAnimState::Bounce => {},
                    PanelAnimState::Clear => {},
                }
            }
        }
    }
    covered
}

impl PanelSheet {
    /// Accepts `info` as a sheet for panels if it defines the animation of
    /// every kind in every state.
    pub fn new(info: SpriteInfo) -> (made: Result<Self, UnknownAnimationError>)
        requires
            info@.wf(),
        ensures
            match made {
                Ok(sheet) => sheet@ == info@ && sheet.wf(),
                Err(_) => !covers_panels(info@),
            },
    {
        let mut index: i32 = 0;
        while index < KIND_COUNT
            invariant
                0 <= index <= KIND_COUNT,
                forall|kind: PanelKind, state: PanelAnimState|
                    kind.index_spec() < index ==> #[trigger] info@.has_animation(
                        animation_name_spec(kind, state),
                    ),
            decreases KIND_COUNT - index,
        {
            let kind = PanelKind::from_index(index);
            if !covers_kind(&info, kind) {
                return Err(UnknownAnimationError);
            }
            assert forall|other: PanelKind, state: PanelAnimState|
                other.index_spec() < index + 1 implies #[trigger] info@.has_animation(
                animation_name_spec(other, state),
            ) by {
                if other.index_spec() == index {
                    other.law_index_round_trip();
                    assert(other == kind);
                }
            }
            index += 1;
        }
        Ok(PanelSheet { info })
    }

    /// The sheet is consistent and covers every panel.
    pub open spec fn wf(&self) -> bool {
        self@.wf() && covers_panels(self@)
    }

    /// The sheet itself.
    pub fn info(&self) -> (info: &SpriteInfo)
        ensures
            info@ == self@,
    {
        &self.info
    }
}

/// `rand::rngs::StdRng`, the generator behind a [`KindSource`]. Nothing is
/// known of what is inside it.
#[verifier::external_type_specification]
#[verifier::external_body]
pub struct ExStdRng(StdRng);

/// `SeedableRng::seed_from_u64` for `StdRng`: a generator whose whole output
/// is fixed by `seed`. Nothing is claimed of the generator.
#[verifier::external_body]
fn rng_from_seed(seed: u64) -> StdRng {
    StdRng::seed_from_u64(seed)
}

/// `Rng::gen_range` from 0 for `StdRng`: an integer that is at least 0 and
/// below `bound`. Which one is not claimed.
#[verifier::external_body]
fn draw_below(rng: &mut StdRng, bound: i32) -> (drawn: i32)
    requires
        0 < bound,
    ensures
        0 <= drawn < bound,
{
    rng.gen_range(0, bound)
}

/// Where the kinds of new panels come from: a seeded random generator that
/// draws each kind independently, all kinds being equally likely.
pub struct KindSource {
    rng: StdRng,
}

impl KindSource {
    /// The source that `seed` determines. Two sources made from one seed
    /// give the same kinds in the same order.
    pub fn seeded(seed: u64) -> KindSource {
        KindSource { rng: rng_from_seed(seed) }
    }

    /// Draws the next kind. Any kind may come out.
    pub fn next_kind(&mut self) -> PanelKind {
        PanelKind::from_index(draw_below(&mut self.rng, KIND_COUNT))
    }
}

/// What a [`Panel`] holds, as mathematical values.
pub struct PanelView {
    pub kind: PanelKind,
    pub state: PanelAnimState,
    pub sprite: SpriteView,
}

impl PanelView {
    /// The panel's sprite is in order and at the origin, its sheet covers
    /// every panel, and it plays the animation of the panel's kind and state.
    pub open spec fn wf(self) -> bool {
        &&& self.sprite.wf()
        &&& covers_panels(self.sprite.info)
        &&& self.sprite.current_anim == animation_name_spec(self.kind, self.state)
        &&& self.sprite.pos == (Vec2 { x: 0i32, y: 0i32 })
    }

    /// A new panel of `kind` in `state`, drawn from `info`: at the start of
    /// its animation, with no time banked.
    pub open spec fn fresh(
        kind: PanelKind,
        state: PanelAnimState,
        info: SpriteInfoView,
    ) -> PanelView {
        PanelView {
            kind,
            state,
            sprite: SpriteView::fresh(info).playing(animation_name_spec(kind, state)),
        }
    }

    /// This panel moved to `state`: its animation starts over under the new
    /// state's name.
    pub open spec fn with_state(self, state: PanelAnimState) -> PanelView {
        PanelView {
            state,
            sprite: self.sprite.playing(animation_name_spec(self.kind, state)),
            ..self
        }
    }

    /// This panel after `delta` more ticks.
    pub open spec fn advanced(self, delta: int) -> PanelView {
        PanelView { sprite: self.sprite.advanced(delta), ..self }
    }

    /// Moving a well-formed panel to any state leaves it well-formed.
    pub proof fn lemma_with_state_wf(self, state: PanelAnimState)
        requires
            self.wf(),
        ensures
            self.with_state(state).wf(),
    {
        let name = animation_name_spec(self.kind, state);
        assert(self.sprite.info.has_animation(name));
        self.sprite.info.lemma_animation_sound(name);
    }
}

/// One tile of the playfield.
pub struct Panel {
    kind: PanelKind,
    state: PanelAnimState,
    sprite: Sprite,
}

impl View for Panel {
    type V = PanelView;

    closed spec fn view(&self) -> PanelView {
        PanelView { kind: self.kind, state: self.state, sprite: self.sprite@ }
    }
}

impl Clone for Panel {
    fn clone(&self) -> (copy: Self)
        ensures
            copy@ == self@,
    {
        Panel { kind: self.kind, state: self.state, sprite: self.sprite.clone() }
    }
}

impl Panel {
    /// A new panel of `kind`, drawn from `sheet`. It starts out dark.
    pub fn new(kind: PanelKind, sheet: &PanelSheet) -> (panel: Self)
        requires
            sheet.wf(),
        ensures
            panel@ == PanelView::fresh(kind, PanelAnimState::Dark, sheet@),
            panel@.wf(),
    {
        let mut sprite = Sprite::new(sheet.info.clone());
        let name = animation_name(kind, PanelAnimState::Dark);
        assert(sheet@.has_animation(animation_name_spec(kind, PanelAnimState::Dark)));
        let set = sprite.set_animation(name);
        assert(set is Ok);
        Self { kind, state: PanelAnimState::Dark, sprite }
    }

    /// A new panel of a kind drawn from `source`.
    pub fn new_with_random_kind(source: &mut KindSource, sheet: &PanelSheet) -> (panel: Self)
        requires
            sheet.wf(),
        ensures
            panel@ == PanelView::fresh(panel@.kind, PanelAnimState::Dark, sheet@),
            panel@.wf(),
    {
        Self::new(source.next_kind(), sheet)
    }

    /// The panel's kind.
    pub fn kind(&self) -> (kind: PanelKind)
        ensures
            kind == self@.kind,
    {
        self.kind
    }

    /// The panel's animation state.
    pub fn anim_state(&self) -> (state: PanelAnimState)
        ensures
            state == self@.state,
    {
        self.state
    }

    /// The panel's sprite.
    pub fn sprite(&self) -> (sprite: &Sprite)
        ensures
            sprite@ == self@.sprite,
    {
        &self.sprite
    }

    /// The panel's sprite, to change in place.
    pub fn mut_sprite(&mut self) -> (sprite: &mut Sprite)
        ensures
            sprite@ == old(self)@.sprite,
            final(self)@ == (PanelView { sprite: final(sprite)@, ..old(self)@ }),
    {
        &mut self.sprite
    }

    /// Moves the panel to `state` and restarts its sprite on the animation
    /// of its kind in that state.
    pub fn set_anim_state(&mut self, state: PanelAnimState)
        requires
            old(self)@.wf(),
        ensures
            final(self)@ == old(self)@.with_state(state),
            final(self)@.wf(),
    {
        let name = animation_name(self.kind, state);
        proof {
            assert(self@.sprite.info.has_animation(animation_name_spec(self.kind, state)));
            self@.lemma_with_state_wf(state);
        }
        let set = self.sprite.set_animation(name);
        assert(set is Ok);
        self.state = state;
    }

    /// Lets `delta_time` ticks pass for the panel's sprite.
    pub fn update(&mut self, delta_time: u64)
        requires
            old(self)@.wf(),
        ensures
            final(self)@ == old(self)@.advanced(delta_time as int),
            final(self)@.wf(),
    {
        self.sprite.update(delta_time);
    }
}

} // verus!
