//! The range that each axis of a controller was seen to cover.

use crate::fixed_point::{
    clamp, div_round, int_option, lemma_round_div_exact, magnitude, round_div, SCALE, WIDE_SCALE,
};
use crate::search::{first_position, lemma_first_position_found, lemma_first_position_none};
use crate::text::str_equal;
use crate::views::{lemma_seq_view_push, option_view, seq_view};
use vstd::prelude::*;

verus! {

/// The range of one axis.
#[derive(Debug, PartialEq, Eq)]
pub struct ControllerCalibrationData {
    pub id: String,
    pub min: i32,
    pub max: i32,
    pub deadzone: Option<i32>,
    pub idle: i32,
    pub invert: Option<bool>,
}

/// What a [`ControllerCalibrationData`] holds.
pub struct CalibrationDataModel {
    pub id: Seq<char>,
    pub min: int,
    pub max: int,
    pub deadzone: Option<int>,
    pub idle: int,
    pub invert: Option<bool>,
}

/// The smaller of two numbers.
pub open spec fn lower(a: int, b: int) -> int {
    if a <= b {
        a
    } else {
        b
    }
}

/// The larger of two numbers.
pub open spec fn upper(a: int, b: int) -> int {
    if a >= b {
        a
    } else {
        b
    }
}

impl CalibrationDataModel {
    /// An axis of which nothing was seen yet: it covers zero to one, rests
    /// at zero, has no dead zone and is not inverted.
    pub open spec fn unseen(id: Seq<char>) -> CalibrationDataModel {
        CalibrationDataModel {
            id,
            min: 0,
            max: SCALE as int,
            deadzone: Some(0),
            idle: 0,
            invert: Some(false),
        }
    }

    /// The range after the axis was seen at the raw position `value`: the
    /// range is widened to hold it, and the resting point is lowered to
    /// it.
    pub open spec fn observed(self, value: int) -> CalibrationDataModel {
        CalibrationDataModel {
            id: self.id,
            min: lower(self.min, value * SCALE),
            max: upper(self.max, value * SCALE),
            deadzone: self.deadzone,
            idle: lower(self.idle, value * SCALE),
            invert: self.invert,
        }
    }
}

/// The raw position at which an axis without calibration reads one.
pub const RAW_AXIS_LIMIT: i16 = 32_767;

/// The reading of an axis without calibration at the raw position `raw`:
/// the position as a share of [`RAW_AXIS_LIMIT`], held to the range from
/// minus one to one.
pub open spec fn uncalibrated_reading(raw: int) -> int {
    clamp(round_div(raw * SCALE, RAW_AXIS_LIMIT as int), -SCALE, SCALE as int)
}

impl CalibrationDataModel {
    /// How far the raw position `raw` lies from the resting point.
    pub open spec fn offset(self, raw: int) -> int {
        raw * SCALE - self.idle
    }

    /// How far the bound on the side of the raw position `raw` lies from
    /// the resting point.
    pub open spec fn span(self, raw: int) -> int {
        if self.offset(raw) < 0 {
            self.idle - self.min
        } else {
            self.max - self.idle
        }
    }

    /// Whether the raw position `raw` reads as zero: it lies within the
    /// dead zone about the resting point, or on a side of the resting point
    /// that the range does not cover.
    pub open spec fn is_at_rest(self, raw: int) -> bool {
        ||| magnitude(self.offset(raw)) <= match self.deadzone {
            Some(deadzone) => deadzone,
            None => 0,
        }
        ||| self.span(raw) <= 0
    }

    /// The reading of the axis at the raw position `raw`: zero at rest,
    /// else the distance from the resting point as a share of the distance
    /// of the bound on that side, held to the range from minus one to one;
    /// with the opposite sign where the axis is inverted.
    pub open spec fn reading(self, raw: int) -> int {
        let share = if self.is_at_rest(raw) {
            0
        } else {
            clamp(round_div(self.offset(raw) * SCALE, self.span(raw)), -SCALE, SCALE as int)
        };
        if self.invert == Some(true) {
            -share
        } else {
            share
        }
    }
}

/// Every reading lies in the range from minus one to one; the resting
/// point reads zero, and on a range that covers both sides of the resting
/// point the bounds read minus one and one.
pub proof fn lemma_reading_in_range(data: CalibrationDataModel, raw: int)
    ensures
        -SCALE <= data.reading(raw) <= SCALE,
        -SCALE <= uncalibrated_reading(raw) <= SCALE,
        data.offset(raw) == 0 && (data.deadzone is None || data.deadzone->0 >= 0)
            ==> data.reading(raw) == 0,
        !data.is_at_rest(raw) && data.invert != Some(true) && data.idle < data.max && raw * SCALE
            == data.max ==> data.reading(raw) == SCALE,
        !data.is_at_rest(raw) && data.invert != Some(true) && data.min < data.idle && raw * SCALE
            == data.min ==> data.reading(raw) == -SCALE,
{
    if !data.is_at_rest(raw) {
        lemma_round_div_exact(SCALE as int, data.span(raw));
        lemma_round_div_exact(-SCALE, data.span(raw));
    }
}

impl View for ControllerCalibrationData {
    type V = CalibrationDataModel;

    open spec fn view(&self) -> CalibrationDataModel {
        CalibrationDataModel {
            id: self.id@,
            min: self.min as int,
            max: self.max as int,
            deadzone: int_option(self.deadzone),
            idle: self.idle as int,
            invert: self.invert,
        }
    }
}

impl Clone for ControllerCalibrationData {
    fn clone(&self) -> (copy: Self)
        ensures
            copy@ == self@,
    {
        ControllerCalibrationData {
            id: self.id.clone(),
            min: self.min,
            max: self.max,
            deadzone: self.deadzone,
            idle: self.idle,
            invert: self.invert,
        }
    }
}

impl ControllerCalibrationData {
    /// An axis of which nothing was seen yet.
    pub fn unseen(id: &str) -> (data: ControllerCalibrationData)
        ensures
            data@ == CalibrationDataModel::unseen(id@),
    {
        ControllerCalibrationData {
            id: String::from_str(id),
            min: 0,
            max: SCALE,
            deadzone: Some(0),
            idle: 0,
            invert: Some(false),
        }
    }

    /// The reading of the axis at the raw position `raw`.
    pub fn reading(&self, raw: i16) -> (reading: i32)
        ensures
            reading == self@.reading(raw as int),
    {
        let offset: i128 = raw as i128 * WIDE_SCALE - self.idle as i128;
        let span: i128 = if offset < 0 {
            self.idle as i128 - self.min as i128
        } else {
            self.max as i128 - self.idle as i128
        };
        let deadzone: i128 = match self.deadzone {
            Some(deadzone) => deadzone as i128,
            None => 0,
        };
        let distance: i128 = if offset < 0 {
            -offset
        } else {
            offset
        };
        let share: i32 = if distance <= deadzone || span <= 0 {
            0
        } else {
            let quotient = div_round(offset * WIDE_SCALE, span);
            if quotient < -WIDE_SCALE {
                -SCALE
            } else if quotient > WIDE_SCALE {
                SCALE
            } else {
                quotient as i32
            }
        };
        match self.invert {
            Some(true) => -share,
            _ => share,
        }
    }

    /// Takes note of the raw position `value` of the axis.
    pub fn observe(&mut self, value: i16)
        ensures
            final(self)@ == old(self)@.observed(value as int),
    {
        let position: i32 = value as i32 * SCALE;
        if position < self.min {
            self.min = position;
        }
        if position < self.idle {
            self.idle = position;
        }
        if position > self.max {
            self.max = position;
        }
    }
}

/// The ranges of the axes of one controller.
#[derive(Debug, PartialEq, Eq)]
pub struct ControllerCalibration {
    pub id: String,
    pub data: Vec<ControllerCalibrationData>,
}

/// What a [`ControllerCalibration`] holds.
pub struct CalibrationModel {
    pub id: Seq<char>,
    pub data: Seq<CalibrationDataModel>,
}

/// The position of the first range of the axis `id`, if there is one.
pub open spec fn axis_position(data: Seq<CalibrationDataModel>, id: Seq<char>) -> Option<int> {
    first_position(data, |range: CalibrationDataModel| range.id == id)
}

impl CalibrationModel {
    /// The calibration after the axis `id` was seen at the raw position
    /// `value`: the range of the axis takes note of it; an axis that had no
    /// range gets one, which comes last.
    pub open spec fn observed(self, id: Seq<char>, value: int) -> CalibrationModel {
        CalibrationModel {
            id: self.id,
            data: match axis_position(self.data, id) {
                Some(i) => self.data.update(i, self.data[i].observed(value)),
                None => self.data.push(CalibrationDataModel::unseen(id).observed(value)),
            },
        }
    }
}

impl View for ControllerCalibration {
    type V = CalibrationModel;

    open spec fn view(&self) -> CalibrationModel {
        CalibrationModel { id: self.id@, data: seq_view(self.data@) }
    }
}

impl Clone for ControllerCalibration {
    fn clone(&self) -> (copy: Self)
        ensures
            copy@ == self@,
    {
        let data = self.data.clone();
        assert(seq_view(data@) =~= seq_view(self.data@));
        ControllerCalibration { id: self.id.clone(), data }
    }
}

/// The reading of an axis without calibration at the raw position `raw`.
pub fn uncalibrated_axis_reading(raw: i16) -> (reading: i32)
    ensures
        reading == uncalibrated_reading(raw as int),
{
    let quotient = div_round(raw as i128 * WIDE_SCALE, RAW_AXIS_LIMIT as i128);
    if quotient < -WIDE_SCALE {
        -SCALE
    } else if quotient > WIDE_SCALE {
        SCALE
    } else {
        quotient as i32
    }
}

impl CalibrationModel {
    /// The first range of the axis `id`.
    pub open spec fn find(self, id: Seq<char>) -> Option<CalibrationDataModel> {
        match axis_position(self.data, id) {
            Some(i) => Some(self.data[i]),
            None => None,
        }
    }

    /// The reading of the axis `id` at the raw position `raw`: by the range
    /// of the axis where it has one, else without calibration.
    pub open spec fn reading(self, id: Seq<char>, raw: int) -> int {
        match self.find(id) {
            Some(range) => range.reading(raw),
            None => uncalibrated_reading(raw),
        }
    }
}

impl ControllerCalibration {
    /// The first range of the axis `id`.
    pub fn find(&self, id: &str) -> (found: Option<&ControllerCalibrationData>)
        ensures
            option_view(found) == self@.find(id@),
    {
        match self.position(id) {
            Some(i) => Some(&self.data[i]),
            None => None,
        }
    }

    /// The reading of the axis `id` at the raw position `raw`.
    pub fn reading(&self, id: &str, raw: i16) -> (reading: i32)
        ensures
            reading == self@.reading(id@, raw as int),
    {
        match self.find(id) {
            Some(range) => range.reading(raw),
            None => uncalibrated_axis_reading(raw),
        }
    }

    /// Where the range of an axis stands.
    fn position(&self, id: &str) -> (found: Option<usize>)
        ensures
            match found {
                Some(i) => axis_position(self@.data, id@) == Some(i as int) && i < self.data.len(),
                None => axis_position(self@.data, id@) is None,
            },
    {
        let ghost wanted = |range: CalibrationDataModel| range.id == id@;
        let mut i: usize = 0;
        while i < self.data.len()
            invariant
                i <= self.data.len(),
                wanted == |range: CalibrationDataModel| range.id == id@,
                forall|j: int| 0 <= j < i ==> !wanted(#[trigger] self@.data[j]),
            decreases self.data.len() - i,
        {
            if str_equal(self.data[i].id.as_str(), id) {
                proof {
                    lemma_first_position_found(self@.data, wanted, i as int);
                }
                return Some(i);
            }
            i += 1;
        }
        proof {
            lemma_first_position_none(self@.data, wanted);
        }
        None
    }

    /// Takes note of the raw position `value` of the axis `id`.
    pub fn observe_axis(&mut self, id: &str, value: i16)
        ensures
            final(self)@ == old(self)@.observed(id@, value as int),
    {
        match self.position(id) {
            Some(i) => {
                let mut range = self.data[i].clone();
                range.observe(value);
                self.data.set(i, range);
                assert(seq_view(self.data@) =~= old(self)@.data.update(
                    i as int,
                    old(self)@.data[i as int].observed(value as int),
                ));
            },
            None => {
                let mut range = ControllerCalibrationData::unseen(id);
                range.observe(value);
                proof {
                    lemma_seq_view_push(self.data@, range);
                }
                self.data.push(range);
            },
        }
    }
}

} // verus!
