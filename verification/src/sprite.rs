//! Sprites: a sheet of frames, the named animations that run over them, and
//! the state of one sprite that plays them.

use crate::clock::FRAME_INTERVAL;
use crate::vec2::Vec2;
use vstd::arithmetic::div_mod::{lemma_fundamental_div_mod, lemma_mod_bound, lemma_small_mod};
use vstd::prelude::*;

verus! {

/// One rectangle of a sprite sheet.
#[derive(Clone, Copy, Debug, PartialEq, Eq)]
pub struct SpriteFrame {
    pub x: i32,
    pub y: i32,
    pub width: u32,
    pub height: u32,
}

/// A sprite sheet description that contradicts itself.
#[derive(Clone, Copy, Debug, PartialEq, Eq)]
pub struct AssetLoadError;

/// An animation was asked for that the sprite sheet does not define.
#[derive(Clone, Copy, Debug, PartialEq, Eq)]
pub struct UnknownAnimationError;

/// What a [`SpriteInfo`] holds, as mathematical values.
pub struct SpriteInfoView {
    pub texture_filename: Seq<char>,
    pub frames: Seq<SpriteFrame>,
    /// Each animation: its name, and the frames it runs through in order.
    pub animations: Seq<(Seq<char>, Seq<usize>)>,
    pub default_animation: Seq<char>,
}

impl SpriteInfoView {
    /// Whether an animation is called `name`.
    pub open spec fn has_animation(self, name: Seq<char>) -> bool {
        exists|i: int|
            0 <= i < self.animations.len() && (#[trigger] self.animations[i]).0 == name
    }

    /// Where the animation called `name` stands.
    pub open spec fn animation_index(self, name: Seq<char>) -> int {
        choose|i: int| 0 <= i < self.animations.len() && (#[trigger] self.animations[i]).0 == name
    }

    /// The frames that the animation called `name` runs through.
    pub open spec fn animation(self, name: Seq<char>) -> Seq<usize> {
        self.animations[self.animation_index(name)].1
    }

    /// No two animations share a name.
    pub open spec fn names_distinct(self) -> bool {
        forall|i: int, j: int|
            0 <= i < j < self.animations.len() ==> (#[trigger] self.animations[i]).0 != (
            #[trigger] self.animations[j]).0
    }

    /// The animation at `i` has at least one frame, and each of its frames is
    /// on the sheet.
    pub open spec fn animation_sound(self, i: int) -> bool {
        &&& self.animations[i].1.len() > 0
        &&& forall|k: int|
            0 <= k < self.animations[i].1.len() ==> (#[trigger] self.animations[i].1[k])
                < self.frames.len()
    }

    /// The description is consistent: animation names are distinct, every
    /// animation is sound, and the default animation exists.
    pub open spec fn wf(self) -> bool {
        &&& self.names_distinct()
        &&& forall|i: int| 0 <= i < self.animations.len() ==> #[trigger] self.animation_sound(i)
        &&& self.has_animation(self.default_animation)
    }

    /// In a description with distinct names, an animation found under a name
    /// is the animation of that name.
    pub proof fn lemma_animation_at(self, i: int)
        requires
            self.names_distinct(),
            0 <= i < self.animations.len(),
        ensures
            self.has_animation(self.animations[i].0),
            self.animation_index(self.animations[i].0) == i,
            self.animation(self.animations[i].0) == self.animations[i].1,
    {
        let name = self.animations[i].0;
        let j = self.animation_index(name);
        assert(0 <= j < self.animations.len() && self.animations[j].0 == name);
        if j < i {
            assert(self.animations[j].0 != self.animations[i].0);
        } else if i < j {
            assert(self.animations[i].0 != self.animations[j].0);
        }
    }

    /// In a consistent description every animation that exists has a frame,
    /// and all its frames are on the sheet.
    pub proof fn lemma_animation_sound(self, name: Seq<char>)
        requires
            self.wf(),
            self.has_animation(name),
        ensures
            self.animation(name).len() > 0,
            forall|k: int|
                0 <= k < self.animation(name).len() ==> (#[trigger] self.animation(name)[k])
                    < self.frames.len(),
    {
        let i = self.animation_index(name);
        assert(self.animation_sound(i));
    }
}

/// The animations of a table, each with its name and frames as sequences.
pub open spec fn table_view(table: Seq<(String, Vec<usize>)>) -> Seq<(Seq<char>, Seq<usize>)> {
    Seq::new(table.len(), |i: int| (table[i].0@, table[i].1@))
}

/// A sprite sheet: the texture it lives in, its frames and its animations.
pub struct SpriteInfo {
    texture_filename: String,
    frames: Vec<SpriteFrame>,
    animations: Vec<(String, Vec<usize>)>,
    default_animation: String,
}

impl View for SpriteInfo {
    type V = SpriteInfoView;

    closed spec fn view(&self) -> SpriteInfoView {
        SpriteInfoView {
            texture_filename: self.texture_filename@,
            frames: self.frames@,
            animations: table_view(self.animations@),
            default_animation: self.default_animation@,
        }
    }
}

/// Looks `name` up among the first `upto` animations of `table`.
fn find_animation(table: &Vec<(String, Vec<usize>)>, upto: usize, name: &String) -> (found: Option<
    usize,
>)
    requires
        upto <= table.len(),
    ensures
        match found {
            Some(i) => i < upto && table@[i as int].0@ == name@,
            None => forall|j: int| 0 <= j < upto ==> (#[trigger] table@[j]).0@ != name@,
        },
{
    let mut i: usize = 0;
    while i < upto
        invariant
            i <= upto <= table.len(),
            forall|j: int| 0 <= j < i ==> (#[trigger] table@[j]).0@ != name@,
        decreases upto - i,
    {
        if table[i].0 == *name {
            return Some(i);
        }
        i += 1;
    }
    None
}

/// Whether `indices` is non-empty and every index in it is below `frame_count`.
fn indices_sound(indices: &Vec<usize>, frame_count: usize) -> (sound: bool)
    ensures
        sound == (indices@.len() > 0 && forall|k: int|
            0 <= k < indices@.len() ==> (#[trigger] indices@[k]) < frame_count),
{
    if indices.len() == 0 {
        return false;
    }
    let mut k: usize = 0;
    while k < indices.len()
        invariant
            k <= indices.len(),
            forall|m: int| 0 <= m < k ==> (#[trigger] indices@[m]) < frame_count,
        decreases indices.len() - k,
    {
        if indices[k] >= frame_count {
            return false;
        }
        k += 1;
    }
    true
}

impl Clone for SpriteInfo {
    fn clone(&self) -> (copy: Self)
        ensures
            copy@ == self@,
    {
        let mut frames: Vec<SpriteFrame> = Vec::new();
        let mut i: usize = 0;
        while i < self.frames.len()
            invariant
                i <= self.frames.len(),
                frames@ == self.frames@.take(i as int),
            decreases self.frames.len() - i,
        {
            frames.push(self.frames[i]);
            assert(self.frames@.take(i as int).push(self.frames@[i as int])
                =~= self.frames@.take(i + 1));
            i += 1;
        }
        assert(self.frames@.take(self.frames.len() as int) =~= self.frames@);
        let mut animations: Vec<(String, Vec<usize>)> = Vec::new();
        let mut a: usize = 0;
        while a < self.animations.len()
            invariant
                a <= self.animations.len(),
                animations@.len() == a,
                forall|j: int|
                    0 <= j < a ==> (#[trigger] animations@[j]).0@ == self.animations@[j].0@
                        && animations@[j].1@ == self.animations@[j].1@,
            decreases self.animations.len() - a,
        {
            let name = self.animations[a].0.clone();
            let source = &self.animations[a].1;
            let mut indices: Vec<usize> = Vec::new();
            let mut k: usize = 0;
            while k < source.len()
                invariant
                    k <= source.len(),
                    indices@ == source@.take(k as int),
                decreases source.len() - k,
            {
                indices.push(source[k]);
                assert(source@.take(k as int).push(source@[k as int]) =~= source@.take(k + 1));
                k += 1;
            }
            assert(source@.take(source.len() as int) =~= source@);
            animations.push((name, indices));
            a += 1;
        }
        assert(table_view(animations@) =~= table_view(self.animations@));
        SpriteInfo {
            texture_filename: self.texture_filename.clone(),
            frames,
            animations,
            default_animation: self.default_animation.clone(),
        }
    }
}

impl SpriteInfo {
    /// The description made of the given parts, as [`SpriteInfo::new`] sees it.
    pub open spec fn parts_view(
        texture_filename: String,
        frames: Vec<SpriteFrame>,
        animations: Vec<(String, Vec<usize>)>,
        default_animation: String,
    ) -> SpriteInfoView {
        SpriteInfoView {
            texture_filename: texture_filename@,
            frames: frames@,
            animations: table_view(animations@),
            default_animation: default_animation@,
        }
    }

    /// Puts a sprite sheet together, and refuses parts that do not make a
    /// consistent description.
    pub fn new(
        texture_filename: String,
        frames: Vec<SpriteFrame>,
        animations: Vec<(String, Vec<usize>)>,
        default_animation: String,
    ) -> (made: Result<Self, AssetLoadError>)
        ensures
            match made {
                Ok(info) => {
                    &&& info@ == Self::parts_view(
                        texture_filename,
                        frames,
                        animations,
                        default_animation,
                    )
                    &&& info@.wf()
                },
                Err(_) => !Self::parts_view(
                    texture_filename,
                    frames,
                    animations,
                    default_animation,
                ).wf(),
            },
    {
        let ghost view = Self::parts_view(texture_filename, frames, animations, default_animation);
        let mut i: usize = 0;
        while i < animations.len()
            invariant
                i <= animations.len(),
                view == Self::parts_view(texture_filename, frames, animations, default_animation),
                forall|a: int, b: int|
                    0 <= a < b < i ==> (#[trigger] view.animations[a]).0 != (
                    #[trigger] view.animations[b]).0,
                forall|a: int| 0 <= a < i ==> #[trigger] view.animation_sound(a),
            decreases animations.len() - i,
        {
            if !indices_sound(&animations[i].1, frames.len()) {
                assert(!view.animation_sound(i as int));
                return Err(AssetLoadError);
            }
            assert(view.animation_sound(i as int));
            match find_animation(&animations, i, &animations[i].0) {
                Some(j) => {
                    assert(view.animations[j as int].0 == view.animations[i as int].0);
                    return Err(AssetLoadError);
                },
                None => {
                    assert forall|a: int| 0 <= a < i implies (#[trigger] view.animations[a]).0
                        != view.animations[i as int].0 by {
                        assert(animations@[a].0@ != animations@[i as int].0@);
                    }
                },
            }
            i += 1;
        }
        match find_animation(&animations, animations.len(), &default_animation) {
            Some(j) => {
                assert(view.animations[j as int].0 == view.default_animation);
            },
            None => {
                assert forall|j: int| 0 <= j < view.animations.len() implies (
                #[trigger] view.animations[j]).0 != view.default_animation by {
                    assert(animations@[j].0@ != default_animation@);
                }
                return Err(AssetLoadError);
            },
        }
        Ok(SpriteInfo { texture_filename, frames, animations, default_animation })
    }

    /// File that holds the sheet's texture.
    pub fn texture_filename(&self) -> (name: &String)
        ensures
            name@ == self@.texture_filename,
    {
        &self.texture_filename
    }

    /// Name of the animation a new sprite starts with.
    pub fn default_animation(&self) -> (name: &String)
        ensures
            name@ == self@.default_animation,
    {
        &self.default_animation
    }

    /// The frames of the sheet.
    pub fn frames(&self) -> (frames: &Vec<SpriteFrame>)
        ensures
            frames@ == self@.frames,
    {
        &self.frames
    }

    /// The animations of the sheet, each with its name and the frames it
    /// runs through.
    pub fn animations(&self) -> (animations: &Vec<(String, Vec<usize>)>)
        ensures
            table_view(animations@) == self@.animations,
    {
        &self.animations
    }

    /// Whether the sheet defines an animation called `anim`.
    pub fn has_animation(&self, anim: &str) -> (has: bool)
        ensures
            has == self@.has_animation(anim@),
    {
        let name = anim.to_owned();
        match find_animation(&self.animations, self.animations.len(), &name) {
            Some(i) => {
                assert(self@.animations[i as int].0 == anim@);
                true
            },
            None => {
                assert forall|j: int| 0 <= j < self@.animations.len() implies (
                #[trigger] self@.animations[j]).0 != anim@ by {
                    assert(self.animations@[j].0@ != name@);
                }
                false
            },
        }
    }

    /// The frames that the animation called `anim` runs through.
    pub fn get_animation(&self, anim: &str) -> (indices: &Vec<usize>)
        requires
            self@.names_distinct(),
            self@.has_animation(anim@),
        ensures
            indices@ == self@.animation(anim@),
    {
        let name = anim.to_owned();
        let found = find_animation(&self.animations, self.animations.len(), &name);
        proof {
            if found is None {
                let w = self@.animation_index(anim@);
                assert(self.animations@[w].0@ != name@);
            }
        }
        let i = found.unwrap();
        proof {
            self@.lemma_animation_at(i as int);
        }
        &self.animations[i].1
    }

    /// The frame that the animation called `anim` shows at position
    /// `frame_counter`.
    pub fn frame_from_counter(&self, anim: &str, frame_counter: usize) -> (frame: usize)
        requires
            self@.names_distinct(),
            self@.has_animation(anim@),
            frame_counter < self@.animation(anim@).len(),
        ensures
            frame == self@.animation(anim@)[frame_counter as int],
    {
        self.get_animation(anim)[frame_counter]
    }
}

/// What a [`Sprite`] holds, as mathematical values.
pub struct SpriteView {
    pub pos: Vec2<i32>,
    pub current_anim: Seq<char>,
    /// Position within the current animation.
    pub frame_counter: int,
    /// Time banked towards the next frame.
    pub timer: int,
    pub info: SpriteInfoView,
}

/// Frames that a sprite moves on when `delta` ticks are added to `banked`:
/// one for each frame interval the sum exceeds, strictly.
pub open spec fn frames_due(banked: int, delta: int) -> int {
    if banked + delta <= 0 {
        0
    } else {
        (banked + delta - 1) / (FRAME_INTERVAL as int)
    }
}

impl SpriteView {
    /// The sheet is consistent, the current animation exists, the frame
    /// counter is inside it, and no whole frame interval is left in the bank.
    pub open spec fn wf(self) -> bool {
        &&& self.info.wf()
        &&& self.info.has_animation(self.current_anim)
        &&& 0 <= self.frame_counter < self.info.animation(self.current_anim).len()
        &&& 0 <= self.timer <= FRAME_INTERVAL
    }

    /// The sprite a sheet starts out as: at the origin, on the first frame of
    /// the default animation, with nothing in the bank.
    pub open spec fn fresh(info: SpriteInfoView) -> SpriteView {
        SpriteView {
            pos: Vec2 { x: 0, y: 0 },
            current_anim: info.default_animation,
            frame_counter: 0,
            timer: 0,
            info,
        }
    }

    /// This sprite restarted on the animation called `anim`.
    pub open spec fn playing(self, anim: Seq<char>) -> SpriteView {
        SpriteView { current_anim: anim, frame_counter: 0, ..self }
    }

    /// This sprite after `delta` more ticks.
    pub open spec fn advanced(self, delta: int) -> SpriteView {
        let due = frames_due(self.timer, delta);
        SpriteView {
            frame_counter: (self.frame_counter + due) % (self.info.animation(
                self.current_anim,
            ).len() as int),
            timer: self.timer + delta - due * FRAME_INTERVAL,
            ..self
        }
    }

    /// The sheet frame that the sprite shows.
    pub open spec fn current_frame(self) -> SpriteFrame {
        self.info.frames[self.info.animation(self.current_anim)[self.frame_counter] as int]
    }

    /// Whether the sprite, moved by `offset`, still has `i32` coordinates.
    pub open spec fn fits_at(self, offset: Vec2<i32>) -> bool {
        &&& i32::MIN <= self.pos.x + offset.x <= i32::MAX
        &&& i32::MIN <= self.pos.y + offset.y <= i32::MAX
    }

    /// What drawing the sprite, moved by `offset`, puts on screen.
    pub open spec fn blit_at(self, offset: Vec2<i32>) -> BlitView {
        let frame = self.current_frame();
        BlitView {
            texture_filename: self.info.texture_filename,
            source: frame,
            target: SpriteFrame {
                x: (self.pos.x + offset.x) as i32,
                y: (self.pos.y + offset.y) as i32,
                width: frame.width,
                height: frame.height,
            },
        }
    }
}

/// One copy from a texture to the screen.
#[derive(Clone, Debug, PartialEq, Eq)]
pub struct Blit {
    /// File that holds the texture.
    pub texture_filename: String,
    /// Where to copy from, on the texture.
    pub source: SpriteFrame,
    /// Where to copy to, on the screen.
    pub target: SpriteFrame,
}

/// What a [`Blit`] holds, as mathematical values.
pub struct BlitView {
    pub texture_filename: Seq<char>,
    pub source: SpriteFrame,
    pub target: SpriteFrame,
}

impl View for Blit {
    type V = BlitView;

    open spec fn view(&self) -> BlitView {
        BlitView {
            texture_filename: self.texture_filename@,
            source: self.source,
            target: self.target,
        }
    }
}

/// A graphic which has a position and may have animations.
pub struct Sprite {
    pos: Vec2<i32>,
    current_anim: String,
    frame_counter: usize,
    timer: u64,
    sprite_info: SpriteInfo,
}

impl View for Sprite {
    type V = SpriteView;

    closed spec fn view(&self) -> SpriteView {
        SpriteView {
            pos: self.pos,
            current_anim: self.current_anim@,
            frame_counter: self.frame_counter as int,
            timer: self.timer as int,
            info: self.sprite_info@,
        }
    }
}

impl Clone for Sprite {
    fn clone(&self) -> (copy: Self)
        ensures
            copy@ == self@,
    {
        Sprite {
            pos: self.pos,
            current_anim: self.current_anim.clone(),
            frame_counter: self.frame_counter,
            timer: self.timer,
            sprite_info: self.sprite_info.clone(),
        }
    }
}

impl Sprite {
    /// A sprite of the given sheet, at the origin, showing the first frame of
    /// the sheet's default animation.
    pub fn new(sprite_info: SpriteInfo) -> (sprite: Self)
        requires
            sprite_info@.wf(),
        ensures
            sprite@ == SpriteView::fresh(sprite_info@),
            sprite@.wf(),
    {
        let current_anim = sprite_info.default_animation.clone();
        proof {
            sprite_info@.lemma_animation_sound(sprite_info@.default_animation);
        }
        Self { pos: Vec2::new(0, 0), frame_counter: 0, current_anim, timer: 0, sprite_info }
    }

    /// The sprite's position.
    pub fn pos(&self) -> (pos: &Vec2<i32>)
        ensures
            *pos == self@.pos,
    {
        &self.pos
    }

    /// The sprite's position, to change in place.
    pub fn mut_pos(&mut self) -> (pos: &mut Vec2<i32>)
        ensures
            *pos == old(self)@.pos,
            final(self)@ == (SpriteView { pos: *final(pos), ..old(self)@ }),
    {
        &mut self.pos
    }

    pub fn set_pos(&mut self, x: i32, y: i32)
        ensures
            final(self)@ == (SpriteView { pos: Vec2 { x, y }, ..old(self)@ }),
    {
        self.pos.set(x, y);
    }

    /// The sheet the sprite draws from.
    pub fn sprite_info(&self) -> (info: &SpriteInfo)
        ensures
            info@ == self@.info,
    {
        &self.sprite_info
    }

    /// Name of the animation that is playing.
    pub fn current_anim(&self) -> (name: &String)
        ensures
            name@ == self@.current_anim,
    {
        &self.current_anim
    }

    /// Time banked towards the next frame, in ticks.
    pub fn timer(&self) -> (timer: u64)
        ensures
            timer == self@.timer,
    {
        self.timer
    }

    /// Position within the animation that is playing.
    pub fn frame_counter(&self) -> (counter: usize)
        ensures
            counter == self@.frame_counter,
    {
        self.frame_counter
    }

    /// Restarts the sprite on the animation called `anim`, or leaves it as it
    /// is where the sheet defines no such animation.
    pub fn set_animation(&mut self, anim: String) -> (set: Result<(), UnknownAnimationError>)
        requires
            old(self)@.wf(),
        ensures
            set is Ok <==> old(self)@.info.has_animation(anim@),
            set is Ok ==> final(self)@ == old(self)@.playing(anim@),
            set is Err ==> final(self)@ == old(self)@,
            final(self)@.wf(),
    {
        if !self.sprite_info.has_animation(anim.as_str()) {
            return Err(UnknownAnimationError);
        }
        proof {
            self@.info.lemma_animation_sound(anim@);
        }
        self.frame_counter = 0;
        self.current_anim = anim;
        Ok(())
    }

    /// Lets `delta_time` ticks pass: the animation moves on by one frame for
    /// each frame interval that the banked time exceeds, and starts over
    /// after its last frame.
    pub fn update(&mut self, delta_time: u64)
        requires
            old(self)@.wf(),
        ensures
            final(self)@ == old(self)@.advanced(delta_time as int),
            final(self)@.wf(),
    {
        let total: u128 = self.timer as u128 + delta_time as u128;
        if total == 0 {
            proof {
                let len = self@.info.animation(self@.current_anim).len() as int;
                assert(self@.frame_counter % len == self@.frame_counter) by {
                    lemma_small_mod(self@.frame_counter as nat, len as nat);
                }
            }
            return;
        }
        let current_anim_len = self.sprite_info.get_animation(self.current_anim.as_str()).len();
        let due: u128 = (total - 1) / (FRAME_INTERVAL as u128);
        proof {
            lemma_fundamental_div_mod(total - 1, FRAME_INTERVAL as int);
            lemma_mod_bound(total - 1, FRAME_INTERVAL as int);
            lemma_mod_bound(self@.frame_counter + due, current_anim_len as int);
            assert(due * FRAME_INTERVAL == FRAME_INTERVAL * due) by (nonlinear_arith);
            assert(due * FRAME_INTERVAL <= total - 1);
        }
        let rest: u128 = total - due * (FRAME_INTERVAL as u128);
        let counter: u128 = (self.frame_counter as u128 + due) % (current_anim_len as u128);
        self.frame_counter = counter as usize;
        self.timer = rest as u64;
    }

    /// The sheet frame that the sprite shows.
    pub fn current_frame(&self) -> (frame: SpriteFrame)
        requires
            self@.wf(),
        ensures
            frame == self@.current_frame(),
    {
        proof {
            self@.info.lemma_animation_sound(self@.current_anim);
        }
        let current_frame_num = self.sprite_info.frame_from_counter(
            self.current_anim.as_str(),
            self.frame_counter,
        );
        self.sprite_info.frames[current_frame_num]
    }

    /// What drawing the sprite where it stands puts on screen.
    pub fn draw(&self) -> (blit: Blit)
        requires
            self@.wf(),
        ensures
            blit@ == self@.blit_at(Vec2 { x: 0, y: 0 }),
    {
        self.draw_with_offset(Vec2::new(0, 0))
    }

    /// What drawing the sprite, moved by `offset`, puts on screen: its current
    /// frame, copied to its position plus `offset`.
    pub fn draw_with_offset(&self, offset: Vec2<i32>) -> (blit: Blit)
        requires
            self@.wf(),
            self@.fits_at(offset),
        ensures
            blit@ == self@.blit_at(offset),
    {
        let current_frame = self.current_frame();
        Blit {
            texture_filename: self.sprite_info.texture_filename.clone(),
            source: current_frame,
            target: SpriteFrame {
                x: self.pos.x + offset.x,
                y: self.pos.y + offset.y,
                width: current_frame.width,
                height: current_frame.height,
            },
        }
    }
}

} // verus!
