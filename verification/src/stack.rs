//! The stack of rows as a mathematical value: what a row shift does to it,
//! and at which shift it is lost.
//!
//! Rows are counted from the bottom: row 0 is the row below the screen, the
//! last row is the topmost. A shift lights up row 0, takes the topmost row
//! away if the stack is full, and puts a fresh dark row underneath. The stack
//! is lost at the first shift that takes away a row with a panel in it.

use crate::panel::{covers_panels, PanelAnimState, PanelView};
use crate::sprite::SpriteInfoView;
use vstd::prelude::*;

verus! {

/// Panels in a row.
pub const FIELD_WIDTH: usize = 6;

/// Rows of the field: twelve on screen and one below it.
pub const FIELD_HEIGHT: usize = 13;

/// Rows the stack holds at most between two shifts.
pub const MAX_ROWS: usize = 12;

/// A row, slot by slot from the left.
pub type RowView = Seq<Option<PanelView>>;

/// Whether no slot of `row` holds a panel.
pub open spec fn row_is_empty(row: RowView) -> bool {
    forall|c: int| 0 <= c < row.len() ==> (#[trigger] row[c]) is None
}

/// Whether `row` has the width of the field and every panel in it is
/// well-formed.
pub open spec fn row_wf(row: RowView) -> bool {
    &&& row.len() == FIELD_WIDTH
    &&& forall|c: int| 0 <= c < row.len() && (#[trigger] row[c]) is Some ==> row[c].unwrap().wf()
}

/// Whether `row` is full of new panels in `state`, drawn from `sheet`.
pub open spec fn row_is_fresh(row: RowView, state: PanelAnimState, sheet: SpriteInfoView) -> bool {
    &&& row.len() == FIELD_WIDTH
    &&& forall|c: int|
        0 <= c < row.len() ==> (#[trigger] row[c]) is Some && row[c].unwrap() == PanelView::fresh(
            row[c].unwrap().kind,
            state,
            sheet,
        )
}

/// A slot with its panel, if it has one, moved to the normal state.
pub open spec fn illuminated_slot(slot: Option<PanelView>) -> Option<PanelView> {
    match slot {
        Some(panel) => Some(panel.with_state(PanelAnimState::Normal)),
        None => None,
    }
}

/// `row` with every panel moved to the normal state.
pub open spec fn illuminated(row: RowView) -> RowView {
    Seq::new(row.len(), |c: int| illuminated_slot(row[c]))
}

/// Whether the stack is within its limit and every row of it is well-formed.
pub open spec fn stack_wf(rows: Seq<RowView>) -> bool {
    &&& rows.len() <= MAX_ROWS
    &&& forall|r: int| 0 <= r < rows.len() ==> row_wf(#[trigger] rows[r])
}

/// Rows of a stack of `len` rows that are still there after `shifts` shifts.
pub open spec fn rows_kept(len: int, shifts: int) -> int {
    if len <= MAX_ROWS - shifts {
        len
    } else {
        MAX_ROWS - shifts
    }
}

/// Whether `after` is what `shifts` shifts without a loss make of `before`:
/// a fresh dark row at the bottom, fresh lit rows above it, then the rows of
/// `before` that are still there, the first of them lit.
pub open spec fn rows_shifted(
    before: Seq<RowView>,
    after: Seq<RowView>,
    shifts: int,
    sheet: SpriteInfoView,
) -> bool {
    if shifts <= 0 {
        after == before
    } else {
        let kept = rows_kept(before.len() as int, shifts);
        &&& after.len() == shifts + kept
        &&& row_is_fresh(after[0], PanelAnimState::Dark, sheet)
        &&& forall|i: int|
            1 <= i < shifts ==> row_is_fresh(#[trigger] after[i], PanelAnimState::Normal, sheet)
        &&& kept >= 1 ==> after[shifts] == illuminated(before[0])
        &&& forall|i: int| shifts < i < shifts + kept ==> #[trigger] after[i] == before[i - shifts]
    }
}

/// Whether `after` is what is left of `before` when the shift after `prior`
/// shifts is the one that loses the stack: the fresh rows of the earlier
/// shifts, all lit, then the rows of `before` below the one that was taken
/// away, the first of them lit. No row is put underneath.
pub open spec fn rows_lost(
    before: Seq<RowView>,
    after: Seq<RowView>,
    prior: int,
    sheet: SpriteInfoView,
) -> bool {
    &&& after.len() == MAX_ROWS - 1
    &&& forall|i: int|
        0 <= i < prior && i < after.len() ==> row_is_fresh(
            #[trigger] after[i],
            PanelAnimState::Normal,
            sheet,
        )
    &&& prior < after.len() ==> after[prior] == illuminated(before[0])
    &&& forall|i: int| prior < i < after.len() ==> #[trigger] after[i] == before[i - prior]
}

/// Whether the shift numbered `shift`, counted from 1, loses the stack: it
/// takes a row away, and that row holds a panel. The row taken away is row
/// `MAX_ROWS - shift` of the stack as it is now, or, after the last of those,
/// one of the fresh rows, which are full.
pub open spec fn shift_is_fatal(rows: Seq<RowView>, shift: int) -> bool {
    &&& rows.len() + shift > MAX_ROWS
    &&& (shift > MAX_ROWS || !row_is_empty(rows[MAX_ROWS - shift]))
}

/// The first fatal shift that is numbered `shift` or higher.
pub open spec fn fatal_shift_from(rows: Seq<RowView>, shift: int) -> int
    decreases MAX_ROWS + 1 - shift,
{
    if shift > MAX_ROWS || shift_is_fatal(rows, shift) {
        shift
    } else {
        fatal_shift_from(rows, shift + 1)
    }
}

/// The number of the shift that loses the stack, counted from 1.
pub open spec fn fatal_shift(rows: Seq<RowView>) -> int {
    fatal_shift_from(rows, 1)
}

/// Lighting a row up keeps its width and the slots that hold a panel.
pub proof fn lemma_illuminated_empty(row: RowView)
    ensures
        row_is_empty(illuminated(row)) == row_is_empty(row),
{
    if row_is_empty(row) {
        assert forall|c: int| 0 <= c < illuminated(row).len() implies (#[trigger] illuminated(
            row,
        )[c]) is None by {
            assert(row[c] is None);
        }
    }
    if row_is_empty(illuminated(row)) {
        assert forall|c: int| 0 <= c < row.len() implies (#[trigger] row[c]) is None by {
            assert(illuminated(row)[c] is None);
        }
    }
}

/// Lighting a well-formed row up leaves it well-formed.
pub proof fn lemma_illuminated_wf(row: RowView)
    requires
        row_wf(row),
    ensures
        row_wf(illuminated(row)),
{
    let lit = illuminated(row);
    assert forall|c: int| 0 <= c < lit.len() && (#[trigger] lit[c]) is Some implies lit[c].unwrap().wf(
    ) by {
        assert(row[c] is Some);
        row[c].unwrap().lemma_with_state_wf(PanelAnimState::Normal);
    }
}

/// Lighting a fresh dark row up gives a fresh lit row.
pub proof fn lemma_illuminated_fresh(row: RowView, sheet: SpriteInfoView)
    requires
        row_is_fresh(row, PanelAnimState::Dark, sheet),
    ensures
        row_is_fresh(illuminated(row), PanelAnimState::Normal, sheet),
{
    assert forall|c: int| 0 <= c < illuminated(row).len() implies (#[trigger] illuminated(
        row,
    )[c]) is Some && illuminated(row)[c].unwrap() == PanelView::fresh(
        illuminated(row)[c].unwrap().kind,
        PanelAnimState::Normal,
        sheet,
    ) by {
        assert(row[c] is Some);
    }
}

/// A fresh row holds panels, and all of them are well-formed.
pub proof fn lemma_fresh_row(row: RowView, state: PanelAnimState, sheet: SpriteInfoView)
    requires
        row_is_fresh(row, state, sheet),
        sheet.wf(),
        covers_panels(sheet),
    ensures
        !row_is_empty(row),
        row_wf(row),
{
    assert(row[0] is Some);
    assert forall|c: int| 0 <= c < row.len() && (#[trigger] row[c]) is Some implies row[c].unwrap().wf(
    ) by {
        let panel = row[c].unwrap();
        let name = crate::panel::animation_name_spec(panel.kind, state);
        assert(sheet.has_animation(name));
        sheet.lemma_animation_sound(name);
    }
}

/// The fatal shift found from `shift` on is fatal, no earlier one from
/// `shift` on is, and it lies between `shift` and the shift after the stack
/// has been replaced entirely.
pub proof fn lemma_fatal_shift_from(rows: Seq<RowView>, shift: int)
    requires
        rows.len() <= MAX_ROWS,
        1 <= shift <= MAX_ROWS + 1,
    ensures
        shift <= fatal_shift_from(rows, shift) <= MAX_ROWS + 1,
        shift_is_fatal(rows, fatal_shift_from(rows, shift)),
        forall|s: int| shift <= s < fatal_shift_from(rows, shift) ==> !shift_is_fatal(rows, s),
    decreases MAX_ROWS + 1 - shift,
{
    if shift > MAX_ROWS || shift_is_fatal(rows, shift) {
    } else {
        lemma_fatal_shift_from(rows, shift + 1);
    }
}

/// The fatal shift is the first shift that is fatal.
pub proof fn lemma_fatal_shift(rows: Seq<RowView>)
    requires
        rows.len() <= MAX_ROWS,
    ensures
        1 <= fatal_shift(rows) <= MAX_ROWS + 1,
        shift_is_fatal(rows, fatal_shift(rows)),
        forall|s: int| 1 <= s < fatal_shift(rows) ==> !shift_is_fatal(rows, s),
{
    lemma_fatal_shift_from(rows, 1);
}

/// A shift that is fatal, with no fatal shift before it, is the fatal shift.
pub proof fn lemma_fatal_shift_unique(rows: Seq<RowView>, shift: int)
    requires
        rows.len() <= MAX_ROWS,
        1 <= shift,
        shift_is_fatal(rows, shift),
        forall|s: int| 1 <= s < shift ==> !shift_is_fatal(rows, s),
    ensures
        fatal_shift(rows) == shift,
{
    lemma_fatal_shift(rows);
}

/// Seen from the stack that `shifts` shifts have made, each later shift is
/// fatal exactly if it was fatal seen from the stack before them.
pub proof fn lemma_shifted_fatal_at(
    before: Seq<RowView>,
    after: Seq<RowView>,
    shifts: int,
    shift: int,
    sheet: SpriteInfoView,
)
    requires
        before.len() <= MAX_ROWS,
        sheet.wf(),
        covers_panels(sheet),
        rows_shifted(before, after, shifts, sheet),
        1 <= shifts,
        1 <= shift,
        shifts + shift <= MAX_ROWS + 1,
    ensures
        shift_is_fatal(after, shift) == shift_is_fatal(before, shifts + shift),
{
    let kept = rows_kept(before.len() as int, shifts);
    if shifts + shift == MAX_ROWS + 1 {
        let top = after[shifts - 1];
        if shifts == 1 {
            lemma_fresh_row(top, PanelAnimState::Dark, sheet);
        } else {
            lemma_fresh_row(top, PanelAnimState::Normal, sheet);
        }
    } else if before.len() + shifts + shift > MAX_ROWS {
        let m = MAX_ROWS - shift - shifts;
        if m == 0 {
            lemma_illuminated_empty(before[0]);
        } else {
            assert(after[shifts + m] == before[m]);
        }
    }
}

/// Shifts already made count towards the fatal shift: the stack they have
/// made is lost that many shifts sooner.
pub proof fn lemma_shifted_fatal(
    before: Seq<RowView>,
    after: Seq<RowView>,
    shifts: int,
    sheet: SpriteInfoView,
)
    requires
        before.len() <= MAX_ROWS,
        sheet.wf(),
        covers_panels(sheet),
        rows_shifted(before, after, shifts, sheet),
        0 <= shifts < fatal_shift(before),
    ensures
        after.len() <= MAX_ROWS,
        fatal_shift(after) == fatal_shift(before) - shifts,
{
    lemma_fatal_shift(before);
    if shifts > 0 {
        let fatal = fatal_shift(before);
        lemma_shifted_fatal_at(before, after, shifts, fatal - shifts, sheet);
        assert forall|s: int| 1 <= s < fatal - shifts implies !shift_is_fatal(after, s) by {
            lemma_shifted_fatal_at(before, after, shifts, s, sheet);
        }
        lemma_fatal_shift_unique(after, fatal - shifts);
    }
}

/// Shifts add up: what `second` shifts make of what `first` shifts made is
/// what `first + second` shifts make.
pub proof fn lemma_shifted_compose(
    before: Seq<RowView>,
    between: Seq<RowView>,
    after: Seq<RowView>,
    first: int,
    second: int,
    sheet: SpriteInfoView,
)
    requires
        before.len() <= MAX_ROWS,
        0 <= first,
        0 <= second,
        first + second <= MAX_ROWS,
        rows_shifted(before, between, first, sheet),
        rows_shifted(between, after, second, sheet),
    ensures
        rows_shifted(before, after, first + second, sheet),
{
    if first > 0 && second > 0 {
        let shifts = first + second;
        let kept = rows_kept(before.len() as int, shifts);
        assert(after[second] == illuminated(between[0]));
        lemma_illuminated_fresh(between[0], sheet);
        assert forall|i: int| 1 <= i < shifts implies row_is_fresh(
            #[trigger] after[i],
            PanelAnimState::Normal,
            sheet,
        ) by {
            if i > second {
                assert(after[i] == between[i - second]);
            }
        }
        if kept >= 1 {
            assert(after[shifts] == between[first]);
        }
        assert forall|i: int| shifts < i < shifts + kept implies #[trigger] after[i] == before[i
            - shifts] by {
            assert(after[i] == between[i - second]);
        }
    }
}

/// A loss after earlier shifts is a loss of the stack before them: what is
/// left counts the earlier shifts among those before the fatal one.
pub proof fn lemma_shifted_then_lost(
    before: Seq<RowView>,
    between: Seq<RowView>,
    after: Seq<RowView>,
    first: int,
    prior: int,
    sheet: SpriteInfoView,
)
    requires
        before.len() <= MAX_ROWS,
        0 <= first,
        0 <= prior,
        first + prior <= MAX_ROWS,
        rows_shifted(before, between, first, sheet),
        between.len() + prior + 1 > MAX_ROWS,
        rows_lost(between, after, prior, sheet),
    ensures
        rows_lost(before, after, first + prior, sheet),
{
    if first > 0 {
        let total = first + prior;
        if prior < after.len() {
            lemma_illuminated_fresh(between[0], sheet);
        }
        assert forall|i: int| 0 <= i < total && i < after.len() implies row_is_fresh(
            #[trigger] after[i],
            PanelAnimState::Normal,
            sheet,
        ) by {
            if i > prior {
                assert(after[i] == between[i - prior]);
            }
        }
        if total < after.len() {
            assert(after[total] == between[first]);
        }
        assert forall|i: int| total < i < after.len() implies #[trigger] after[i] == before[i
            - total] by {
            assert(after[i] == between[i - prior]);
        }
    }
}

/// Shifts without a loss leave a well-formed stack well-formed.
pub proof fn lemma_shifted_wf(
    before: Seq<RowView>,
    after: Seq<RowView>,
    shifts: int,
    sheet: SpriteInfoView,
)
    requires
        stack_wf(before),
        sheet.wf(),
        covers_panels(sheet),
        0 <= shifts <= MAX_ROWS,
        rows_shifted(before, after, shifts, sheet),
    ensures
        stack_wf(after),
{
    if shifts > 0 {
        assert forall|r: int| 0 <= r < after.len() implies row_wf(#[trigger] after[r]) by {
            if r == 0 {
                lemma_fresh_row(after[r], PanelAnimState::Dark, sheet);
            } else if r < shifts {
                lemma_fresh_row(after[r], PanelAnimState::Normal, sheet);
            } else if r == shifts {
                lemma_illuminated_wf(before[0]);
            } else {
                assert(after[r] == before[r - shifts]);
            }
        }
    }
}

/// What a loss leaves of a well-formed stack is well-formed.
pub proof fn lemma_lost_wf(
    before: Seq<RowView>,
    after: Seq<RowView>,
    prior: int,
    sheet: SpriteInfoView,
)
    requires
        stack_wf(before),
        sheet.wf(),
        covers_panels(sheet),
        0 <= prior,
        before.len() + prior + 1 > MAX_ROWS,
        rows_lost(before, after, prior, sheet),
    ensures
        stack_wf(after),
{
    assert forall|r: int| 0 <= r < after.len() implies row_wf(#[trigger] after[r]) by {
        if r < prior {
            lemma_fresh_row(after[r], PanelAnimState::Normal, sheet);
        } else if r == prior {
            lemma_illuminated_wf(before[0]);
        } else {
            assert(after[r] == before[r - prior]);
        }
    }
}


} // verus!
