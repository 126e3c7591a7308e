//! The playfield: a stack of rows of panels that rises pixel by pixel, takes
//! in a fresh row at the bottom with every row shift, and is lost when a row
//! with a panel in it is pushed off the top.

use crate::clock::{
    banked_after,
    law_rechunking,
    law_rise_interval_monotone,
    lemma_clock_at_rest,
    lemma_clock_in_range,
    lemma_steps_due_ordered,
    rise_interval,
    rise_interval_spec,
    steps_due,
};
use crate::panel::{
    covers_panels,
    KindSource,
    Panel,
    PanelAnimState,
    PanelSheet,
    PanelView,
    PANEL_HEIGHT,
    PANEL_WIDTH,
};
use crate::sprite::{Blit, BlitView, SpriteInfoView};
use crate::stack::{
    fatal_shift,
    illuminated,
    illuminated_slot,
    lemma_fatal_shift,
    lemma_fatal_shift_unique,
    lemma_fresh_row,
    lemma_illuminated_fresh,
    lemma_illuminated_wf,
    lemma_lost_wf,
    lemma_shifted_compose,
    lemma_shifted_fatal,
    lemma_shifted_then_lost,
    lemma_shifted_wf,
    row_is_empty,
    row_is_fresh,
    row_wf,
    rows_lost,
    rows_shifted,
    shift_is_fatal,
    stack_wf,
    RowView,
    FIELD_HEIGHT,
    FIELD_WIDTH,
    MAX_ROWS,
};
use crate::vec2::Vec2;
use arrayvec::ArrayVec;
use std::collections::VecDeque;
use vstd::arithmetic::div_mod::{
    lemma_div_is_ordered,
    lemma_div_multiples_vanish,
    lemma_fundamental_div_mod_converse,
};
use vstd::prelude::*;

verus! {

/// What a call of [`Playfield::update`] ends in.
#[derive(Clone, Copy, Debug, PartialEq, Eq)]
pub enum UpdateOutcome {
    /// The game goes on.
    Running,
    /// A row with a panel in it was pushed off the top: the game is lost.
    LossCondition,
}

/// What a [`Playfield`] holds, as mathematical values.
pub struct PlayfieldView {
    /// The rows, from the one below the screen upwards.
    pub rows: Seq<RowView>,
    /// Where the bottom left panel of the screen stands.
    pub pos: Vec2<i32>,
    /// Time banked towards the next one-pixel rise.
    pub timer: int,
    pub level: int,
    /// Pixels the stack has risen since the last row shift.
    pub stack_offset: int,
    pub stack_stopped: bool,
    pub lost: bool,
    /// The sheet that fresh panels are drawn from.
    pub sheet: SpriteInfoView,
}

impl PlayfieldView {
    /// Whether a field at (`x`, `y`) has `i32` coordinates for every slot it
    /// can draw, wherever the stack stands.
    pub open spec fn origin_fits(x: int, y: int) -> bool {
        &&& x + (FIELD_WIDTH - 1) * PANEL_WIDTH <= i32::MAX
        &&& y - (FIELD_HEIGHT - 1) * PANEL_HEIGHT - (PANEL_HEIGHT - 1) >= i32::MIN
    }

    /// The stack is well-formed, the offset is less than a panel's height,
    /// the sheet covers every panel, and the field fits on the plane.
    pub open spec fn wf(self) -> bool {
        &&& stack_wf(self.rows)
        &&& 0 <= self.stack_offset < PANEL_HEIGHT
        &&& 0 <= self.timer
        &&& self.sheet.wf()
        &&& covers_panels(self.sheet)
        &&& Self::origin_fits(self.pos.x as int, self.pos.y as int)
    }

    /// Row shifts that `steps` one-pixel rises bring about.
    pub open spec fn shifts_after(self, steps: int) -> int {
        steps_due(self.stack_offset, steps, PANEL_HEIGHT as int)
    }

    /// The offset after `steps` one-pixel rises.
    pub open spec fn offset_after(self, steps: int) -> int {
        banked_after(self.stack_offset, steps, PANEL_HEIGHT as int)
    }

    /// Whether the field survives `steps` one-pixel rises: they bring about
    /// fewer shifts than it takes to lose the stack.
    pub open spec fn survives(self, steps: int) -> bool {
        self.shifts_after(steps) < fatal_shift(self.rows)
    }

    /// Whether `after` is this field risen by `steps` pixels without a loss.
    /// The time in the bank is left open.
    pub open spec fn risen(self, after: PlayfieldView, steps: int) -> bool {
        &&& after == (PlayfieldView {
            rows: after.rows,
            stack_offset: self.offset_after(steps),
            timer: after.timer,
            ..self
        })
        &&& rows_shifted(self.rows, after.rows, self.shifts_after(steps), self.sheet)
    }

    /// Whether `after` is this field at the moment it is lost: marked lost,
    /// with the offset back at 0 and the rows that the fatal shift left.
    /// The time in the bank is left open.
    pub open spec fn lost_by(self, after: PlayfieldView) -> bool {
        &&& after == (PlayfieldView {
            rows: after.rows,
            stack_offset: 0,
            timer: after.timer,
            lost: true,
            ..self
        })
        &&& rows_lost(self.rows, after.rows, fatal_shift(self.rows) - 1, self.sheet)
    }

    /// Whether `after` and `outcome` are what one one-pixel rise makes of
    /// this field.
    pub open spec fn raised(self, after: PlayfieldView, outcome: UpdateOutcome) -> bool {
        &&& after.timer == self.timer
        &&& if self.survives(1) {
            outcome == UpdateOutcome::Running && self.risen(after, 1)
        } else {
            outcome == UpdateOutcome::LossCondition && self.lost_by(after)
        }
    }

    /// Whether `after` and `outcome` are what `delta` ticks make of this
    /// field. A lost field and a stopped one stay as they are. Otherwise the
    /// field rises by one pixel for each whole rise interval in the bank; if
    /// it survives that, what is left of the time stays in the bank, and if
    /// not, it stops at the fatal shift with an empty bank.
    pub open spec fn updated(
        self,
        after: PlayfieldView,
        delta: int,
        outcome: UpdateOutcome,
    ) -> bool {
        if self.lost {
            outcome == UpdateOutcome::LossCondition && after == self
        } else if self.stack_stopped {
            outcome == UpdateOutcome::Running && after == self
        } else {
            let interval = rise_interval_spec(self.level);
            let due = steps_due(self.timer, delta, interval);
            if self.survives(due) {
                &&& outcome == UpdateOutcome::Running
                &&& self.risen(after, due)
                &&& after.timer == banked_after(self.timer, delta, interval)
            } else {
                &&& outcome == UpdateOutcome::LossCondition
                &&& self.lost_by(after)
                &&& after.timer == 0
            }
        }
    }

    /// Where the slot in column `c` of row `r` is drawn.
    pub open spec fn slot_offset(self, r: int, c: int) -> Vec2<i32> {
        Vec2 {
            x: (self.pos.x + c * PANEL_WIDTH) as i32,
            y: (self.pos.y - r * PANEL_HEIGHT - self.stack_offset) as i32,
        }
    }

    /// What drawing the first `upto` slots of row `r` puts on screen.
    pub open spec fn row_blits(self, r: int, upto: int) -> Seq<BlitView>
        decreases upto,
    {
        if upto <= 0 {
            Seq::empty()
        } else {
            let left = self.row_blits(r, upto - 1);
            match self.rows[r][upto - 1] {
                Some(panel) => left.push(panel.sprite.blit_at(self.slot_offset(r, upto - 1))),
                None => left,
            }
        }
    }

    /// What drawing the first `upto` rows puts on screen.
    pub open spec fn blits(self, upto: int) -> Seq<BlitView>
        decreases upto,
    {
        if upto <= 0 {
            Seq::empty()
        } else {
            self.blits(upto - 1) + self.row_blits(upto - 1, FIELD_WIDTH as int)
        }
    }

    /// What drawing the field puts on screen.
    pub open spec fn drawn(self) -> Seq<BlitView> {
        self.blits(self.rows.len() as int)
    }

    /// This field with the stack stopped or let go.
    pub open spec fn with_stopped(self, stopped: bool) -> PlayfieldView {
        PlayfieldView { stack_stopped: stopped, ..self }
    }

    /// Rising in two goes is rising in one: a field risen by `first` pixels
    /// and then by `second` is the field risen by `first + second`, and it
    /// survives the whole if it survived both parts.
    pub proof fn law_rise_composes(
        self,
        between: PlayfieldView,
        after: PlayfieldView,
        first: int,
        second: int,
    )
        requires
            self.wf(),
            0 <= first,
            0 <= second,
            self.survives(first),
            self.risen(between, first),
            between.survives(second),
            between.risen(after, second),
        ensures
            self.survives(first + second),
            self.risen(after, first + second),
    {
        law_rechunking(self.stack_offset, first, second, PANEL_HEIGHT as int);
        lemma_fatal_shift(self.rows);
        lemma_clock_in_range(self.stack_offset, first, PANEL_HEIGHT as int);
        lemma_clock_in_range(between.stack_offset, second, PANEL_HEIGHT as int);
        lemma_shifted_fatal(self.rows, between.rows, self.shifts_after(first), self.sheet);
        lemma_shifted_compose(
            self.rows,
            between.rows,
            after.rows,
            self.shifts_after(first),
            between.shifts_after(second),
            self.sheet,
        );
    }

    /// A loss after a rise is a loss of the field before the rise: a field
    /// that survives `first` pixels and is lost within `second` more is lost
    /// within `first + second`, and the same is left of it.
    pub proof fn lemma_rise_then_lost(
        self,
        between: PlayfieldView,
        after: PlayfieldView,
        first: int,
        second: int,
    )
        requires
            self.wf(),
            0 <= first,
            0 <= second,
            self.survives(first),
            self.risen(between, first),
            !between.survives(second),
            between.lost_by(after),
        ensures
            !self.survives(first + second),
            self.lost_by(after),
    {
        law_rechunking(self.stack_offset, first, second, PANEL_HEIGHT as int);
        lemma_fatal_shift(self.rows);
        lemma_clock_in_range(self.stack_offset, first, PANEL_HEIGHT as int);
        lemma_shifted_fatal(self.rows, between.rows, self.shifts_after(first), self.sheet);
        lemma_fatal_shift(between.rows);
        lemma_shifted_then_lost(
            self.rows,
            between.rows,
            after.rows,
            self.shifts_after(first),
            fatal_shift(between.rows) - 1,
            self.sheet,
        );
    }

    /// Time that passes while the stack is stopped does not count: a field
    /// that is stopped, left for any time and then put back as it was is the
    /// field it was before, with the same time in the bank and the same
    /// offset. With no time at all this is stopping and letting go at once.
    pub proof fn law_pause_skips_time(
        self,
        paused: PlayfieldView,
        delta: int,
        outcome: UpdateOutcome,
    )
        requires
            !self.lost,
            self.with_stopped(true).updated(paused, delta, outcome),
        ensures
            outcome == UpdateOutcome::Running,
            paused.with_stopped(self.stack_stopped) == self,
            paused.timer == self.timer,
            paused.stack_offset == self.stack_offset,
    {
    }

    /// Feeding the clock in two calls is feeding it in one: what `first`
    /// ticks and then `second` ticks make of a field is what `first + second`
    /// ticks make of it, with the same number of one-pixel rises, the same
    /// time left in the bank and the same outcome.
    pub proof fn law_update_rechunked(
        self,
        between: PlayfieldView,
        after: PlayfieldView,
        first: int,
        second: int,
        first_outcome: UpdateOutcome,
        second_outcome: UpdateOutcome,
    )
        requires
            self.wf(),
            0 <= first,
            0 <= second,
            self.updated(between, first, first_outcome),
            between.updated(after, second, second_outcome),
        ensures
            self.updated(after, first + second, second_outcome),
    {
        if !self.lost && !self.stack_stopped {
            let interval = rise_interval_spec(self.level);
            law_rise_interval_monotone(self.level, self.level);
            law_rechunking(self.timer, first, second, interval);
            let first_due = steps_due(self.timer, first, interval);
            let whole_due = steps_due(self.timer, first + second, interval);
            lemma_clock_in_range(self.timer, first, interval);
            if self.survives(first_due) {
                let second_due = steps_due(between.timer, second, interval);
                lemma_clock_in_range(between.timer, second, interval);
                if between.survives(second_due) {
                    self.law_rise_composes(between, after, first_due, second_due);
                } else {
                    self.lemma_rise_then_lost(between, after, first_due, second_due);
                }
            } else {
                lemma_steps_due_ordered(self.timer, first, first + second, interval);
                lemma_steps_due_ordered(
                    self.stack_offset,
                    first_due,
                    whole_due,
                    PANEL_HEIGHT as int,
                );
            }
        }
    }

    /// An update leaves a well-formed field well-formed: the stack stays
    /// within its limit and the offset stays below a panel's height. While
    /// the game goes on the stack never shrinks, and a loss leaves it one row
    /// short of its limit.
    pub proof fn law_update_keeps_wf(self, after: PlayfieldView, delta: int, outcome: UpdateOutcome)
        requires
            self.wf(),
            0 <= delta,
            self.updated(after, delta, outcome),
        ensures
            after.wf(),
            after.rows.len() <= MAX_ROWS,
            0 <= after.stack_offset < PANEL_HEIGHT,
            outcome == UpdateOutcome::Running ==> self.rows.len() <= after.rows.len(),
            outcome == UpdateOutcome::LossCondition && !self.lost ==> after.rows.len() == MAX_ROWS
                - 1,
    {
        if !self.lost && !self.stack_stopped {
            let interval = rise_interval_spec(self.level);
            law_rise_interval_monotone(self.level, self.level);
            let due = steps_due(self.timer, delta, interval);
            lemma_clock_in_range(self.timer, delta, interval);
            self.law_stays_wf(after, due);
            lemma_clock_in_range(self.stack_offset, due, PANEL_HEIGHT as int);
        }
    }

    /// Every field that a rise or a loss makes of a well-formed field is
    /// well-formed: the stack stays within its limit and the offset stays
    /// below a panel's height.
    pub proof fn law_stays_wf(self, after: PlayfieldView, steps: int)
        requires
            self.wf(),
            0 <= steps,
            0 <= after.timer,
            (self.survives(steps) && self.risen(after, steps)) || self.lost_by(after),
        ensures
            after.wf(),
            after.rows.len() <= MAX_ROWS,
            0 <= after.stack_offset < PANEL_HEIGHT,
    {
        lemma_fatal_shift(self.rows);
        if self.survives(steps) && self.risen(after, steps) {
            lemma_clock_in_range(self.stack_offset, steps, PANEL_HEIGHT as int);
            lemma_shifted_wf(self.rows, after.rows, self.shifts_after(steps), self.sheet);
        } else {
            lemma_lost_wf(self.rows, after.rows, fatal_shift(self.rows) - 1, self.sheet);
        }
    }
}

/// Whether `after` is what `func` makes of the slot `before`: a panel that
/// `func` can return for the panel in it, or nothing if it is empty.
pub open spec fn slot_mapped<F: Fn(Panel) -> Panel>(
    func: F,
    before: Option<Panel>,
    after: Option<Panel>,
) -> bool {
    match (before, after) {
        (Some(panel), Some(mapped)) => call_ensures(func, (panel,), mapped),
        (None, None) => true,
        _ => false,
    }
}

/// Whether `after` is what `func` makes of the row `before`, slot by slot.
pub open spec fn row_mapped<F: Fn(Panel) -> Panel>(
    func: F,
    before: [Option<Panel>; FIELD_WIDTH],
    after: [Option<Panel>; FIELD_WIDTH],
) -> bool {
    forall|c: int| 0 <= c < FIELD_WIDTH ==> slot_mapped(func, before@[c], #[trigger] after@[c])
}

/// Whether every panel in `row` is well-formed.
pub open spec fn slots_wf(row: [Option<Panel>; FIELD_WIDTH]) -> bool {
    forall|c: int|
        0 <= c < FIELD_WIDTH ==> ((#[trigger] row@[c]) matches Some(panel) ==> panel@.wf())
}

/// A row's panels are well-formed exactly if its view is.
pub proof fn lemma_slots_wf(row: [Option<Panel>; FIELD_WIDTH])
    ensures
        slots_wf(row) == row_wf(row_view(row)),
{
    if slots_wf(row) {
        assert forall|c: int|
            0 <= c < row_view(row).len() && (#[trigger] row_view(row)[c]) is Some implies row_view(
            row,
        )[c].unwrap().wf() by {
            assert(row@[c] is Some);
        }
    }
    if row_wf(row_view(row)) {
        assert forall|c: int| 0 <= c < FIELD_WIDTH implies ((#[trigger] row@[c]) matches Some(
            panel,
        ) ==> panel@.wf()) by {
            assert(row_view(row)[c] == slot_view(row@[c]));
        }
    }
}

/// A list of copies as mathematical values.
pub open spec fn blit_views(blits: Seq<Blit>) -> Seq<BlitView> {
    Seq::new(blits.len(), |i: int| blits[i]@)
}

/// A slot as a mathematical value.
pub open spec fn slot_view(slot: Option<Panel>) -> Option<PanelView> {
    match slot {
        Some(panel) => Some(panel@),
        None => None,
    }
}

/// A row as a mathematical value.
pub open spec fn row_view(row: [Option<Panel>; FIELD_WIDTH]) -> RowView {
    Seq::new(FIELD_WIDTH as nat, |c: int| slot_view(row@[c]))
}

/// A stack of rows as a mathematical value.
pub open spec fn rows_view(rows: Seq<[Option<Panel>; FIELD_WIDTH]>) -> Seq<RowView> {
    Seq::new(rows.len(), |r: int| row_view(rows[r]))
}

/// `arrayvec::ArrayVec`, the bounded vector that a fresh row is collected
/// in. Nothing is known of what is inside it but through [`slots_held`].
#[verifier::external_type_specification]
#[verifier::external_body]
#[verifier::reject_recursive_types(T)]
pub struct ExArrayVec<T, const CAP: usize>(ArrayVec<T, CAP>);

/// The slots that an `ArrayVec` of slots holds, in order.
pub uninterp spec fn slots_held(slots: ArrayVec<Option<Panel>, FIELD_WIDTH>) -> Seq<Option<Panel>>;

/// `ArrayVec::new`: a vector that holds nothing.
#[verifier::external_body]
fn no_slots() -> (slots: ArrayVec<Option<Panel>, FIELD_WIDTH>)
    ensures
        slots_held(slots) == Seq::<Option<Panel>>::empty(),
{
    ArrayVec::new()
}

/// `ArrayVec::push`: the vector holds `slot` after what it held. The call
/// panics on a full vector, so the vector must have room.
#[verifier::external_body]
fn push_slot(slots: &mut ArrayVec<Option<Panel>, FIELD_WIDTH>, slot: Option<Panel>)
    requires
        slots_held(*old(slots)).len() < FIELD_WIDTH,
    ensures
        slots_held(*final(slots)) == slots_held(*old(slots)).push(slot),
{
    slots.push(slot)
}

/// `ArrayVec::into_inner`: the array of what a full vector holds, or the
/// vector itself if it is not full.
#[verifier::external_body]
fn slots_into_row(slots: ArrayVec<Option<Panel>, FIELD_WIDTH>) -> (row: Result<
    [Option<Panel>; FIELD_WIDTH],
    ArrayVec<Option<Panel>, FIELD_WIDTH>,
>)
    ensures
        match row {
            Ok(inner) => slots_held(slots).len() == FIELD_WIDTH && inner@ == slots_held(slots),
            Err(rest) => slots_held(slots).len() < FIELD_WIDTH && slots_held(rest) == slots_held(
                slots,
            ),
        },
{
    slots.into_inner()
}

/// Moves every panel of `row` to the normal state.
fn illuminate_row(row: &mut [Option<Panel>; FIELD_WIDTH])
    requires
        row_wf(row_view(*old(row))),
    ensures
        row_view(*final(row)) == illuminated(row_view(*old(row))),
{
    let mut c: usize = 0;
    while c < FIELD_WIDTH
        invariant
            c <= FIELD_WIDTH,
            row_wf(row_view(*old(row))),
            forall|d: int|
                0 <= d < c ==> slot_view(#[trigger] row@[d]) == illuminated_slot(
                    slot_view(old(row)@[d]),
                ),
            forall|d: int| c <= d < FIELD_WIDTH ==> (#[trigger] row@[d]) == old(row)@[d],
        decreases FIELD_WIDTH - c,
    {
        assert(row_view(*old(row))[c as int] == slot_view(old(row)@[c as int]));
        match &mut row[c] {
            Some(panel) => {
                panel.set_anim_state(PanelAnimState::Normal);
            },
            None => {},
        }
        c += 1;
    }
    assert(row_view(*row) =~= illuminated(row_view(*old(row))));
}

/// Whether `row` holds a panel.
fn row_has_panel(row: &[Option<Panel>; FIELD_WIDTH]) -> (has: bool)
    ensures
        has == !row_is_empty(row_view(*row)),
{
    let mut c: usize = 0;
    while c < FIELD_WIDTH
        invariant
            c <= FIELD_WIDTH,
            forall|d: int| 0 <= d < c ==> (#[trigger] row_view(*row)[d]) is None,
        decreases FIELD_WIDTH - c,
    {
        if row[c].is_some() {
            assert(row_view(*row)[c as int] is Some);
            return true;
        }
        assert(row_view(*row)[c as int] is None);
        c += 1;
    }
    false
}

/// The field of play.
pub struct Playfield {
    panels: VecDeque<[Option<Panel>; FIELD_WIDTH]>,
    pos: Vec2<i32>,
    timer: u64,
    level: i8,
    stack_offset: i32,
    stack_stopped: bool,
    lost: bool,
    sheet: PanelSheet,
    source: KindSource,
}

impl View for Playfield {
    type V = PlayfieldView;

    closed spec fn view(&self) -> PlayfieldView {
        PlayfieldView {
            rows: rows_view(self.panels@),
            pos: self.pos,
            timer: self.timer as int,
            level: self.level as int,
            stack_offset: self.stack_offset as int,
            stack_stopped: self.stack_stopped,
            lost: self.lost,
            sheet: self.sheet@,
        }
    }
}

impl Playfield {
    /// Whether a field at (`x`, `y`) has `i32` coordinates for every slot it
    /// can draw.
    pub fn origin_fits(x: i32, y: i32) -> (fits: bool)
        ensures
            fits == PlayfieldView::origin_fits(x as int, y as int),
    {
        let columns: i64 = FIELD_WIDTH as i64 - 1;
        let rows: i64 = FIELD_HEIGHT as i64 - 1;
        assert(columns * PANEL_WIDTH == 80 && rows * PANEL_HEIGHT == 192) by (nonlinear_arith)
            requires
                columns == 5,
                rows == 12,
                PANEL_WIDTH == 16,
                PANEL_HEIGHT == 16,
        ;
        let width: i64 = columns * (PANEL_WIDTH as i64);
        let height: i64 = rows * (PANEL_HEIGHT as i64) + (PANEL_HEIGHT as i64 - 1);
        x as i64 + width <= i32::MAX as i64 && y as i64 - height >= i32::MIN as i64
    }

    /// A field at (`x`, `y`) that draws its panels from `sheet` and their
    /// kinds from `source`. It starts with five full rows: a dark one below
    /// the screen and four lit ones above it.
    pub fn new(x: i32, y: i32, sheet: PanelSheet, source: KindSource) -> (field: Self)
        requires
            sheet.wf(),
            PlayfieldView::origin_fits(x as int, y as int),
        ensures
            field@.wf(),
            field@.pos == (Vec2 { x, y }),
            field@.timer == 0,
            field@.level == 0,
            field@.stack_offset == 0,
            !field@.stack_stopped,
            !field@.lost,
            field@.sheet == sheet@,
            field@.rows.len() == 5,
            row_is_fresh(field@.rows[0], PanelAnimState::Dark, sheet@),
            forall|r: int|
                1 <= r < 5 ==> row_is_fresh(
                    #[trigger] field@.rows[r],
                    PanelAnimState::Normal,
                    sheet@,
                ),
    {
        let mut res = Self {
            panels: VecDeque::with_capacity(FIELD_HEIGHT),
            pos: Vec2::new(x, y),
            timer: 0,
            level: 0,
            stack_offset: 0,
            stack_stopped: false,
            lost: false,
            sheet,
            source,
        };
        assert(res@.rows =~= Seq::<RowView>::empty());
        let ghost base = res@;
        let mut made: usize = 0;
        while made < 4
            invariant
                made <= 4,
                base == (PlayfieldView {
                    rows: Seq::empty(),
                    pos: Vec2 { x, y },
                    timer: 0,
                    level: 0,
                    stack_offset: 0,
                    stack_stopped: false,
                    lost: false,
                    sheet: sheet@,
                }),
                res@ == (PlayfieldView { rows: res@.rows, ..base }),
                res.sheet.wf(),
                res@.rows.len() == made,
                forall|r: int|
                    0 <= r < made ==> row_is_fresh(
                        #[trigger] res@.rows[r],
                        PanelAnimState::Normal,
                        sheet@,
                    ),
            decreases 4 - made,
        {
            let ghost before = res@.rows;
            let row = res.generate_row();
            res.panels.push_front(row);
            assert(res@.rows =~= seq![row_view(row)] + before);
            proof {
                lemma_fresh_row(row_view(row), PanelAnimState::Dark, sheet@);
                lemma_illuminated_fresh(row_view(row), sheet@);
                assert forall|r: int| 0 <= r < res@.rows.len() implies row_wf(
                    #[trigger] res@.rows[r],
                ) by {
                    if r > 0 {
                        assert(res@.rows[r] == before[r - 1]);
                        lemma_fresh_row(before[r - 1], PanelAnimState::Normal, sheet@);
                    }
                }
            }
            let ghost pushed = res@.rows;
            res.illuminate_bottom_row();
            assert forall|r: int| 0 <= r < made + 1 implies row_is_fresh(
                #[trigger] res@.rows[r],
                PanelAnimState::Normal,
                sheet@,
            ) by {
                if r > 0 {
                    assert(res@.rows[r] == pushed[r]);
                    assert(pushed[r] == before[r - 1]);
                }
            }
            made += 1;
        }
        let ghost before = res@.rows;
        let row = res.generate_row();
        res.panels.push_front(row);
        assert(res@.rows =~= seq![row_view(row)] + before);
        proof {
            lemma_fresh_row(row_view(row), PanelAnimState::Dark, sheet@);
            assert forall|r: int| 0 <= r < res@.rows.len() implies row_wf(
                #[trigger] res@.rows[r],
            ) by {
                if r > 0 {
                    assert(res@.rows[r] == before[r - 1]);
                    lemma_fresh_row(before[r - 1], PanelAnimState::Normal, sheet@);
                }
            }
            assert forall|r: int| 1 <= r < 5 implies row_is_fresh(
                #[trigger] res@.rows[r],
                PanelAnimState::Normal,
                sheet@,
            ) by {
                assert(res@.rows[r] == before[r - 1]);
            }
        }
        res
    }

    /// A field at (`x`, `y`) that starts with the given rows, the first of
    /// them below the screen, and is otherwise like a new one.
    pub fn with_rows(
        x: i32,
        y: i32,
        rows: Vec<[Option<Panel>; FIELD_WIDTH]>,
        sheet: PanelSheet,
        source: KindSource,
    ) -> (field: Self)
        requires
            sheet.wf(),
            PlayfieldView::origin_fits(x as int, y as int),
            stack_wf(rows_view(rows@)),
        ensures
            field@.wf(),
            field@ == (PlayfieldView {
                rows: rows_view(rows@),
                pos: Vec2 { x, y },
                timer: 0,
                level: 0,
                stack_offset: 0,
                stack_stopped: false,
                lost: false,
                sheet: sheet@,
            }),
    {
        let ghost all = rows@;
        let mut rows = rows;
        let mut panels: VecDeque<[Option<Panel>; FIELD_WIDTH]> = VecDeque::with_capacity(
            FIELD_HEIGHT,
        );
        while rows.len() > 0
            invariant
                rows@.len() <= all.len(),
                rows@ == all.take(rows@.len() as int),
                panels@ == all.skip(rows@.len() as int),
            decreases rows.len(),
        {
            let top = rows.pop();
            panels.push_front(top.unwrap());
            assert(panels@ =~= all.skip(rows@.len() as int));
            assert(rows@ =~= all.take(rows@.len() as int));
        }
        assert(panels@ =~= all);
        Self {
            panels,
            pos: Vec2::new(x, y),
            timer: 0,
            level: 0,
            stack_offset: 0,
            stack_stopped: false,
            lost: false,
            sheet,
            source,
        }
    }

    /// Stops the stack, or lets it rise again. Nothing else changes: the
    /// time in the bank and the offset stay as they are.
    pub fn set_stack_stopped(&mut self, stopped: bool)
        ensures
            final(self)@ == old(self)@.with_stopped(stopped),
    {
        self.stack_stopped = stopped;
    }

    /// Ticks that one one-pixel rise takes at the field's level.
    pub fn stack_raise_rate(&self) -> (interval: u64)
        ensures
            interval == rise_interval_spec(self@.level),
            interval > 0,
    {
        rise_interval(self.level)
    }

    /// A full row of new dark panels, their kinds drawn from the field's
    /// source. The field itself stays as it is.
    fn generate_row(&mut self) -> (row: [Option<Panel>; FIELD_WIDTH])
        requires
            old(self).sheet.wf(),
        ensures
            final(self)@ == old(self)@,
            final(self).panels == old(self).panels,
            final(self).sheet == old(self).sheet,
            row_is_fresh(row_view(row), PanelAnimState::Dark, old(self)@.sheet),
    {
        let mut res = no_slots();
        let mut c: usize = 0;
        while c < FIELD_WIDTH
            invariant
                c <= FIELD_WIDTH,
                self@ == old(self)@,
                self.panels == old(self).panels,
                self.sheet == old(self).sheet,
                self.sheet.wf(),
                slots_held(res).len() == c,
                forall|d: int|
                    0 <= d < c ==> (#[trigger] slots_held(res)[d]) is Some && slots_held(
                        res,
                    )[d].unwrap()@ == PanelView::fresh(
                        slots_held(res)[d].unwrap()@.kind,
                        PanelAnimState::Dark,
                        self@.sheet,
                    ),
            decreases FIELD_WIDTH - c,
        {
            let mut panel = Panel::new_with_random_kind(&mut self.source, &self.sheet);
            panel.set_anim_state(PanelAnimState::Dark);
            push_slot(&mut res, Some(panel));
            c += 1;
        }
        match slots_into_row(res) {
            Ok(arr) => {
                assert forall|d: int| 0 <= d < row_view(arr).len() implies (#[trigger] row_view(
                    arr,
                )[d]) is Some && row_view(arr)[d].unwrap() == PanelView::fresh(
                    row_view(arr)[d].unwrap().kind,
                    PanelAnimState::Dark,
                    self@.sheet,
                ) by {
                    assert(slots_held(res)[d] is Some);
                }
                arr
            },
            Err(_) => vstd::pervasive::unreached(),
        }
    }

    /// Changes the bottom row from dark panels to light panels.
    fn illuminate_bottom_row(&mut self)
        requires
            stack_wf(old(self)@.rows),
        ensures
            final(self)@ == (PlayfieldView { rows: final(self)@.rows, ..old(self)@ }),
            final(self).sheet == old(self).sheet,
            final(self)@.rows.len() == old(self)@.rows.len(),
            old(self)@.rows.len() > 0 ==> final(self)@.rows[0] == illuminated(old(self)@.rows[0]),
            forall|r: int|
                1 <= r < old(self)@.rows.len() ==> #[trigger] final(self)@.rows[r] == old(
                    self,
                )@.rows[r],
    {
        let ghost before = self.panels@;
        match self.panels.pop_front() {
            Some(mut bottom_row) => {
                assert(row_wf(old(self)@.rows[0]));
                assert(row_view(bottom_row) == old(self)@.rows[0]);
                illuminate_row(&mut bottom_row);
                self.panels.push_front(bottom_row);
                assert forall|r: int| 1 <= r < old(self)@.rows.len() implies #[trigger] self@.rows[r]
                    == old(self)@.rows[r] by {
                    assert(self.panels@[r] == before[r]);
                }
            },
            None => {
                assert(self.panels@ =~= before);
            },
        }
    }

    /// Raises the stack by one pixel. When that completes a panel's height,
    /// the rows shift: the bottom row lights up, the topmost row leaves if
    /// the stack is full, and a fresh dark row comes in underneath. If the
    /// row that leaves holds a panel the field is lost, and no row comes in.
    pub fn raise_stack_one_pixel(&mut self) -> (outcome: UpdateOutcome)
        requires
            old(self)@.wf(),
            !old(self)@.lost,
        ensures
            old(self)@.raised(final(self)@, outcome),
            final(self)@.wf(),
    {
        let ghost start = self@;
        proof {
            lemma_fatal_shift(start.rows);
        }
        self.stack_offset += 1;
        if self.stack_offset >= PANEL_HEIGHT {
            self.stack_offset = 0;
            self.illuminate_bottom_row();
            let ghost lit = self@.rows;
            proof {
                if start.rows.len() > 0 {
                    lemma_illuminated_wf(start.rows[0]);
                }
                assert forall|r: int| 0 <= r < lit.len() implies row_wf(#[trigger] lit[r]) by {
                    if r > 0 {
                        assert(lit[r] == start.rows[r]);
                    }
                }
            }
            while self.panels.len() >= FIELD_HEIGHT - 1
                invariant
                    start == old(self)@,
                    start.wf(),
                    !start.lost,
                    start.stack_offset == PANEL_HEIGHT - 1,
                    self@ == (PlayfieldView { rows: self@.rows, stack_offset: 0, ..start }),
                    self.sheet == old(self).sheet,
                    self@.rows.len() <= MAX_ROWS,
                    self@.rows.len() <= lit.len(),
                    lit.len() == start.rows.len(),
                    lit.len() <= MAX_ROWS,
                    self@.rows =~= lit.take(self@.rows.len() as int),
                    self@.rows.len() < lit.len() ==> !shift_is_fatal(start.rows, 1)
                        && self@.rows.len() == MAX_ROWS - 1,
                    lit.len() > 0 ==> lit[0] == illuminated(start.rows[0]),
                    forall|r: int| 1 <= r < lit.len() ==> #[trigger] lit[r] == start.rows[r],
                decreases self.panels.len(),
            {
                let ghost full = self.panels@;
                let row = self.panels.pop_back();
                assert(self@.rows =~= lit.take(self@.rows.len() as int));
                if let Some(row) = row {
                    assert(row_view(row) == lit[MAX_ROWS - 1]) by {
                        assert(rows_view(full)[MAX_ROWS - 1] == row_view(row));
                    }
                    assert(lit[MAX_ROWS - 1] == start.rows[MAX_ROWS - 1]);
                    if row_has_panel(&row) {
                        self.lost = true;
                        proof {
                            assert(shift_is_fatal(start.rows, 1));
                            lemma_fatal_shift_unique(start.rows, 1);
                            assert(start.shifts_after(1) == 1);
                            assert(rows_lost(start.rows, self@.rows, 0, start.sheet));
                            lemma_lost_wf(start.rows, self@.rows, 0, start.sheet);
                        }
                        return UpdateOutcome::LossCondition;
                    }
                }
            }
            let ghost trimmed = self@.rows;
            let row = self.generate_row();
            self.panels.push_front(row);
            proof {
                assert(self@.rows =~= seq![row_view(row)] + trimmed);
                assert(!shift_is_fatal(start.rows, 1));
                assert(fatal_shift(start.rows) > 1);
                assert(start.shifts_after(1) == 1);
                assert(start.offset_after(1) == 0);
                assert forall|i: int| 1 < i < 1 + trimmed.len() implies #[trigger] self@.rows[i]
                    == start.rows[i - 1] by {
                    assert(self@.rows[i] == trimmed[i - 1]);
                    assert(trimmed[i - 1] == lit[i - 1]);
                }
                if trimmed.len() >= 1 {
                    assert(self@.rows[1] == trimmed[0]);
                    assert(trimmed[0] == lit[0]);
                }
                assert(rows_shifted(start.rows, self@.rows, 1, start.sheet));
                lemma_shifted_wf(start.rows, self@.rows, 1, start.sheet);
            }
        } else {
            proof {
                assert(start.shifts_after(1) == 0);
                assert(start.offset_after(1) == start.stack_offset + 1);
            }
        }
        UpdateOutcome::Running
    }

    /// Lets `delta_time` ticks pass. A lost field reports its loss again and
    /// a stopped field does nothing. Otherwise the time goes to the bank, and
    /// the stack rises by one pixel for each whole rise interval in it, until
    /// less than an interval is left or the field is lost.
    pub fn update(&mut self, delta_time: u64) -> (outcome: UpdateOutcome)
        requires
            old(self)@.wf(),
        ensures
            old(self)@.updated(final(self)@, delta_time as int, outcome),
            final(self)@.wf(),
    {
        if self.lost {
            return UpdateOutcome::LossCondition;
        }
        if self.stack_stopped {
            return UpdateOutcome::Running;
        }
        let ghost start = self@;
        let current_raise_rate = self.stack_raise_rate();
        let ghost total = self.timer as int + delta_time as int;
        let ghost due = steps_due(start.timer, delta_time as int, current_raise_rate as int);
        let mut banked: u128 = self.timer as u128 + delta_time as u128;
        let ghost mut steps: int = 0;
        proof {
            lemma_fatal_shift(start.rows);
            lemma_clock_at_rest(start.stack_offset, PANEL_HEIGHT as int);
        }
        while banked >= current_raise_rate as u128
            invariant
                0 < current_raise_rate,
                current_raise_rate == rise_interval_spec(start.level),
                start.wf(),
                !start.lost,
                !start.stack_stopped,
                start == old(self)@,
                total == start.timer + delta_time,
                due == steps_due(start.timer, delta_time as int, current_raise_rate as int),
                0 <= steps,
                banked + steps * current_raise_rate == total,
                start.survives(steps),
                start.risen(self@, steps),
                self@.timer == start.timer,
                self@.wf(),
            decreases banked,
        {
            banked -= current_raise_rate as u128;
            let ghost between = self@;
            let raised = self.raise_stack_one_pixel();
            proof {
                assert((steps + 1) * current_raise_rate == steps * current_raise_rate
                    + current_raise_rate) by (nonlinear_arith);
            }
            match raised {
                UpdateOutcome::LossCondition => {
                    self.timer = 0;
                    proof {
                        start.lemma_rise_then_lost(between, self@, steps, 1);
                        let interval = current_raise_rate as int;
                        assert(steps + 1 <= due) by {
                            assert((steps + 1) * interval <= total);
                            lemma_div_is_ordered((steps + 1) * interval, total, interval);
                            lemma_div_multiples_vanish(steps + 1, interval);
                        }
                        lemma_steps_due_ordered(
                            start.stack_offset,
                            steps + 1,
                            due,
                            PANEL_HEIGHT as int,
                        );
                    }
                    return UpdateOutcome::LossCondition;
                },
                UpdateOutcome::Running => {
                    proof {
                        start.law_rise_composes(between, self@, steps, 1);
                        steps = steps + 1;
                    }
                },
            }
        }
        proof {
            lemma_fundamental_div_mod_converse(
                total,
                current_raise_rate as int,
                steps,
                banked as int,
            );
        }
        self.timer = banked as u64;
        UpdateOutcome::Running
    }

    /// The slot in column `c` of row `r`.
    pub closed spec fn slot(&self, r: int, c: int) -> Option<Panel> {
        self.panels@[r]@[c]
    }

    /// The field's view shows each slot by its view.
    pub proof fn lemma_slot_view(&self, r: int, c: int)
        requires
            0 <= r < self@.rows.len(),
            0 <= c < FIELD_WIDTH,
        ensures
            self@.rows[r][c] == slot_view(self.slot(r, c)),
            self@.rows[r].len() == FIELD_WIDTH,
    {
    }

    /// Maps a function over all panels of the field: every panel is replaced
    /// by what `func` makes of it, and empty slots stay empty.
    pub fn unlazy_map<F: Fn(Panel) -> Panel>(&mut self, func: F)
        requires
            old(self)@.wf(),
            forall|panel: Panel| panel@.wf() ==> #[trigger] call_requires(func, (panel,)),
            forall|panel: Panel, mapped: Panel|
                panel@.wf() && #[trigger] call_ensures(func, (panel,), mapped) ==> mapped@.wf(),
        ensures
            final(self)@ == (PlayfieldView { rows: final(self)@.rows, ..old(self)@ }),
            final(self)@.wf(),
            final(self)@.rows.len() == old(self)@.rows.len(),
            forall|r: int, c: int|
                0 <= r < old(self)@.rows.len() && 0 <= c < FIELD_WIDTH ==> slot_mapped(
                    func,
                    #[trigger] old(self).slot(r, c),
                    final(self).slot(r, c),
                ),
    {
        let ghost before = self.panels@;
        let count = self.panels.len();
        proof {
            assert forall|i: int| 0 <= i < count implies slots_wf(#[trigger] before[i]) by {
                assert(row_wf(self@.rows[i]));
                lemma_slots_wf(before[i]);
            }
        }
        let mut r: usize = 0;
        while r < count
            invariant
                r <= count,
                count == before.len(),
                count <= MAX_ROWS,
                before == old(self).panels@,
                self.panels@.len() == count,
                self@ == (PlayfieldView { rows: self@.rows, ..old(self)@ }),
                old(self)@.wf(),
                forall|panel: Panel| panel@.wf() ==> #[trigger] call_requires(func, (panel,)),
                forall|panel: Panel, mapped: Panel|
                    panel@.wf() && #[trigger] call_ensures(func, (panel,), mapped)
                        ==> mapped@.wf(),
                forall|i: int| 0 <= i < count ==> slots_wf(#[trigger] before[i]),
                forall|i: int| 0 <= i < count - r ==> #[trigger] self.panels@[i] == before[i + r],
                forall|i: int|
                    count - r <= i < count ==> slots_wf(#[trigger] self.panels@[i]) && row_mapped(
                        func,
                        before[i - (count - r)],
                        self.panels@[i],
                    ),
            decreases count - r,
        {
            let ghost rotating = self.panels@;
            let mut row = self.panels.pop_front().unwrap();
            let ghost taken_row = row;
            assert(taken_row == before[r as int]);
            let mut c: usize = 0;
            while c < FIELD_WIDTH
                invariant
                    c <= FIELD_WIDTH,
                    slots_wf(taken_row),
                    forall|panel: Panel| panel@.wf() ==> #[trigger] call_requires(func, (panel,)),
                    forall|panel: Panel, mapped: Panel|
                        panel@.wf() && #[trigger] call_ensures(func, (panel,), mapped)
                            ==> mapped@.wf(),
                    forall|d: int|
                        0 <= d < c ==> slot_mapped(func, taken_row@[d], #[trigger] row@[d]) && (
                        row@[d] matches Some(panel) ==> panel@.wf()),
                    forall|d: int| c <= d < FIELD_WIDTH ==> #[trigger] row@[d] == taken_row@[d],
                decreases FIELD_WIDTH - c,
            {
                let mut taken: Option<Panel> = None;
                core::mem::swap(&mut row[c], &mut taken);
                if let Some(panel) = taken {
                    assert(taken_row@[c as int] == Some(panel));
                    let mapped = func(panel);
                    row[c] = Some(mapped);
                }
                c += 1;
            }
            self.panels.push_back(row);
            proof {
                assert forall|i: int| 0 <= i < count - (r + 1) implies #[trigger] self.panels@[i]
                    == before[i + (r + 1)] by {
                    assert(self.panels@[i] == rotating[i + 1]);
                }
                assert forall|i: int| count - (r + 1) <= i < count implies slots_wf(
                    #[trigger] self.panels@[i],
                ) && row_mapped(func, before[i - (count - (r + 1))], self.panels@[i]) by {
                    if i < count - 1 {
                        assert(self.panels@[i] == rotating[i + 1]);
                    }
                }
            }
            r += 1;
        }
        proof {
            assert forall|i: int| 0 <= i < self@.rows.len() implies row_wf(
                #[trigger] self@.rows[i],
            ) by {
                assert(slots_wf(self.panels@[i]));
                lemma_slots_wf(self.panels@[i]);
            }
            assert forall|i: int, c: int|
                0 <= i < old(self)@.rows.len() && 0 <= c < FIELD_WIDTH implies slot_mapped(
                func,
                #[trigger] old(self).slot(i, c),
                self.slot(i, c),
            ) by {
                assert(row_mapped(func, before[i], self.panels@[i]));
            }
        }
    }

    /// What drawing the field puts on screen: one copy for each panel, row by
    /// row from the bottom and from left to right within a row. The slot in
    /// column `c` of row `r` is drawn `c` panel widths to the right of the
    /// field's position and `r` panel heights plus the offset above it.
    pub fn draw(&self) -> (blits: Vec<Blit>)
        requires
            self@.wf(),
        ensures
            blit_views(blits@) == self@.drawn(),
    {
        let mut blits: Vec<Blit> = Vec::new();
        let mut y: usize = 0;
        assert(blit_views(blits@) =~= self@.blits(0));
        while y < self.panels.len()
            invariant
                self@.wf(),
                y <= self.panels.len(),
                self.panels.len() == self@.rows.len(),
                blit_views(blits@) == self@.blits(y as int),
            decreases self.panels.len() - y,
        {
            let ghost below = blit_views(blits@);
            let row = &self.panels[y];
            let mut x: usize = 0;
            assert(below + self@.row_blits(y as int, 0) =~= below);
            while x < FIELD_WIDTH
                invariant
                    self@.wf(),
                    y < self.panels.len(),
                    self.panels.len() == self@.rows.len(),
                    *row == self.panels@[y as int],
                    x <= FIELD_WIDTH,
                    blit_views(blits@) == below + self@.row_blits(y as int, x as int),
                decreases FIELD_WIDTH - x,
            {
                let ghost before = blit_views(blits@);
                assert(self@.rows[y as int][x as int] == slot_view(row@[x as int]));
                assert(row_wf(self@.rows[y as int]));
                if let Some(panel) = &row[x] {
                    let panel_x = (x as i32) * PANEL_WIDTH;
                    let panel_y = (y as i32) * PANEL_HEIGHT;
                    let offset = self.pos + Vec2::from((panel_x, -panel_y - self.stack_offset));
                    assert(offset == self@.slot_offset(y as int, x as int));
                    let blit = panel.sprite().draw_with_offset(offset);
                    blits.push(blit);
                    assert(blit_views(blits@) =~= before.push(blit@));
                    assert(below + self@.row_blits(y as int, x as int + 1) =~= before.push(blit@));
                } else {
                    assert(below + self@.row_blits(y as int, x as int + 1) =~= before);
                }
                x += 1;
            }
            y += 1;
        }
        blits
    }

    /// Number of rows in the stack.
    pub fn row_count(&self) -> (count: usize)
        ensures
            count == self@.rows.len(),
    {
        self.panels.len()
    }

    /// The panel in column `column` of row `row`, rows counted from the
    /// bottom, if there is such a slot and it holds a panel.
    pub fn panel(&self, row: usize, column: usize) -> (panel: Option<&Panel>)
        ensures
            match panel {
                Some(found) => row < self@.rows.len() && column < FIELD_WIDTH
                    && self@.rows[row as int][column as int] == Some(found@),
                None => row >= self@.rows.len() || column >= FIELD_WIDTH
                    || self@.rows[row as int][column as int] is None,
            },
    {
        if row >= self.panels.len() || column >= FIELD_WIDTH {
            return None;
        }
        let slots = &self.panels[row];
        assert(self@.rows[row as int][column as int] == slot_view(slots@[column as int]));
        slots[column].as_ref()
    }

    /// Where the bottom left panel of the screen stands.
    pub fn pos(&self) -> (pos: Vec2<i32>)
        ensures
            pos == self@.pos,
    {
        self.pos
    }

    /// Time banked towards the next one-pixel rise, in ticks.
    pub fn timer(&self) -> (timer: u64)
        ensures
            timer == self@.timer,
    {
        self.timer
    }

    /// The level, which sets the pace of the rise.
    pub fn level(&self) -> (level: i8)
        ensures
            level == self@.level,
    {
        self.level
    }

    /// Sets the level. Nothing else changes.
    pub fn set_level(&mut self, level: i8)
        ensures
            final(self)@ == (PlayfieldView { level: level as int, ..old(self)@ }),
    {
        self.level = level;
    }

    /// Pixels the stack has risen since the last row shift.
    pub fn stack_offset(&self) -> (offset: i32)
        ensures
            offset == self@.stack_offset,
    {
        self.stack_offset
    }

    /// Whether the stack is stopped.
    pub fn is_stack_stopped(&self) -> (stopped: bool)
        ensures
            stopped == self@.stack_stopped,
    {
        self.stack_stopped
    }

    /// Whether the field is lost.
    pub fn is_lost(&self) -> (lost: bool)
        ensures
            lost == self@.lost,
    {
        self.lost
    }
}

} // verus!
