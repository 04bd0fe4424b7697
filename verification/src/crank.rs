//! The crankshaft wheel: a toothed wheel with a gap of missing teeth.
//!
//! The wheel gives a square wave with one high and one low half per tooth. Once
//! per revolution, over the width of the missing teeth, the signal is held at
//! one level: this gap is the angular reference of the engine.

use crate::level::Level;
use vstd::prelude::*;

verus! {

/// Samples in one crankshaft revolution (360 degrees in tenths of a degree).
pub const REV_LEN: usize = 3600;

/// Type of crankshaft wheel.
#[derive(Clone, Copy, Debug)]
pub enum CrkType {
    /// 30 teeth, 1 missing, gap level is low
    Crk30m1,
    /// 30 teeth, 2 missing, gap level is low
    Crk30m2,
    /// 60 teeth, 1 missing, gap level is low
    Crk60m1,
    /// 60 teeth, 2 missing, gap level is low
    Crk60m2,
    /// 120 teeth, 1 missing, gap level is low
    Crk120m1,
    /// 120 teeth, 2 missing, gap level is low
    Crk120m2,
    /// 30 teeth, 1 missing, gap level is high
    Crk30m1Inv,
    /// 30 teeth, 2 missing, gap level is high
    Crk30m2Inv,
    /// 60 teeth, 1 missing, gap level is high
    Crk60m1Inv,
    /// 60 teeth, 2 missing, gap level is high
    Crk60m2Inv,
    /// 120 teeth, 1 missing, gap level is high
    Crk120m1Inv,
    /// 120 teeth, 2 missing, gap level is high
    Crk120m2Inv,
}

impl CrkType {
    /// Number of tooth positions around the wheel, the missing ones included.
    pub open spec fn tooth_count(self) -> int {
        match self {
            CrkType::Crk30m1 | CrkType::Crk30m2 | CrkType::Crk30m1Inv | CrkType::Crk30m2Inv => 30,
            CrkType::Crk60m1 | CrkType::Crk60m2 | CrkType::Crk60m1Inv | CrkType::Crk60m2Inv => 60,
            CrkType::Crk120m1
            | CrkType::Crk120m2
            | CrkType::Crk120m1Inv
            | CrkType::Crk120m2Inv => 120,
        }
    }

    /// Number of consecutive teeth left out to form the gap.
    pub open spec fn missing_teeth(self) -> int {
        match self {
            CrkType::Crk30m1
            | CrkType::Crk30m1Inv
            | CrkType::Crk60m1
            | CrkType::Crk60m1Inv
            | CrkType::Crk120m1
            | CrkType::Crk120m1Inv => 1,
            CrkType::Crk30m2
            | CrkType::Crk30m2Inv
            | CrkType::Crk60m2
            | CrkType::Crk60m2Inv
            | CrkType::Crk120m2
            | CrkType::Crk120m2Inv => 2,
        }
    }

    /// Whether the wheel starts a revolution low and holds its gap high.
    pub open spec fn is_inverted(self) -> bool {
        match self {
            CrkType::Crk30m1
            | CrkType::Crk30m2
            | CrkType::Crk60m1
            | CrkType::Crk60m2
            | CrkType::Crk120m1
            | CrkType::Crk120m2 => false,
            CrkType::Crk30m1Inv
            | CrkType::Crk30m2Inv
            | CrkType::Crk60m1Inv
            | CrkType::Crk60m2Inv
            | CrkType::Crk120m1Inv
            | CrkType::Crk120m2Inv => true,
        }
    }

    /// Width of one tooth, in tenths of a degree.
    pub open spec fn tooth_angle(self) -> int {
        REV_LEN as int / self.tooth_count()
    }

    /// Width of the high or the low half of one tooth.
    pub open spec fn half_tooth(self) -> int {
        self.tooth_angle() / 2
    }

    /// Width of the gap.
    pub open spec fn gap_span(self) -> int {
        self.missing_teeth() * self.tooth_angle()
    }

    /// Level at the start of a cycle.
    pub open spec fn start_level(self) -> Level {
        if self.is_inverted() {
            Level::Low
        } else {
            Level::High
        }
    }

    /// Whether angle `a` lies in the gap at the end of its revolution.
    pub open spec fn in_gap(self, a: int) -> bool {
        a % (REV_LEN as int) >= REV_LEN as int - self.gap_span()
    }

    /// Whether the crank state is updated when the scan passes angle `a`.
    pub open spec fn is_boundary(self, a: int) -> bool {
        a != 0 && a % self.half_tooth() == 0
    }

    /// The level after the scan has passed angle `a` with level `level`.
    ///
    /// On a half-tooth boundary inside the gap the level is forced to the
    /// complement of the start level; on any other boundary it toggles.
    pub open spec fn step(self, a: int, level: Level) -> Level {
        if self.is_boundary(a) {
            if self.in_gap(a) {
                self.start_level().flipped()
            } else {
                level.flipped()
            }
        } else {
            level
        }
    }

    /// Crank level of sample `a`.
    ///
    /// A sample shows the state reached after every earlier angle has been
    /// passed, so what is decided at angle `a - 1` is first seen in sample `a`:
    /// the complement of the start level while `a - 1` lies in the gap, and
    /// otherwise the start level toggled once per half tooth since the start of
    /// the revolution.
    pub open spec fn level_at(self, a: int) -> Level {
        if a <= 0 {
            self.start_level()
        } else if self.in_gap(a - 1) {
            self.start_level().flipped()
        } else {
            self.start_level().toggled(((a - 1) % (REV_LEN as int)) / self.half_tooth())
        }
    }

    /// Returns the number of teeth for the current wheel
    pub fn nr_of_teeth(&self) -> (n: usize)
        ensures
            n == self.tooth_count(),
    {
        match *self {
            CrkType::Crk30m1 | CrkType::Crk30m2 | CrkType::Crk30m1Inv | CrkType::Crk30m2Inv => 30,
            CrkType::Crk60m1 | CrkType::Crk60m2 | CrkType::Crk60m1Inv | CrkType::Crk60m2Inv => 60,
            CrkType::Crk120m1
            | CrkType::Crk120m2
            | CrkType::Crk120m1Inv
            | CrkType::Crk120m2Inv => 120,
        }
    }

    /// Returns the number of missing teeth for the current wheel
    pub fn nr_of_missing_teeth(&self) -> (n: usize)
        ensures
            n == self.missing_teeth(),
    {
        match *self {
            CrkType::Crk30m1
            | CrkType::Crk30m1Inv
            | CrkType::Crk60m1
            | CrkType::Crk60m1Inv
            | CrkType::Crk120m1
            | CrkType::Crk120m1Inv => 1,
            CrkType::Crk30m2
            | CrkType::Crk30m2Inv
            | CrkType::Crk60m2
            | CrkType::Crk60m2Inv
            | CrkType::Crk120m2
            | CrkType::Crk120m2Inv => 2,
        }
    }

    /// Returns the tooth size in tenths of a degree
    pub fn angle_per_tooth(&self) -> (t: usize)
        ensures
            t == self.tooth_angle(),
            t * self.tooth_count() == REV_LEN,
            t % 2 == 0,
            t > 0,
    {
        REV_LEN / self.nr_of_teeth()
    }

    /// Returns first level seen when starting a rotation from angle 0
    pub fn first_level(&self) -> (l: Level)
        ensures
            l == self.start_level(),
            l == self.level_at(0),
    {
        match *self {
            CrkType::Crk30m1
            | CrkType::Crk30m2
            | CrkType::Crk60m1
            | CrkType::Crk60m2
            | CrkType::Crk120m1
            | CrkType::Crk120m2 => Level::High,
            CrkType::Crk30m1Inv
            | CrkType::Crk30m2Inv
            | CrkType::Crk60m1Inv
            | CrkType::Crk60m2Inv
            | CrkType::Crk120m1Inv
            | CrkType::Crk120m2Inv => Level::Low,
        }
    }
}

/// The level of each sample follows from the level of the one before it by the
/// update made at the angle in between.
pub proof fn lemma_level_step(crk: CrkType, a: int)
    requires
        0 <= a,
    ensures
        crk.level_at(a + 1) == crk.step(a, crk.level_at(a)),
{
    let h = crk.half_tooth();
    let g = crk.gap_span();
    assert(h == 15 || h == 30 || h == 60);
    assert(g == 2 * h || g == 4 * h);
    if h == 15 {
        lemma_level_step_for(crk, a, 15);
    } else if h == 30 {
        lemma_level_step_for(crk, a, 30);
    } else {
        lemma_level_step_for(crk, a, 60);
    }
}

proof fn lemma_level_step_for(crk: CrkType, a: int, h: int)
    requires
        0 <= a,
        h == crk.half_tooth(),
        h == 15 || h == 30 || h == 60,
    ensures
        crk.level_at(a + 1) == crk.step(a, crk.level_at(a)),
{
    let g = crk.gap_span();
    let r = a % 3600;
    assert(g == 2 * h || g == 4 * h);
    if a == 0 {
        assert(0int / h == 0);
    } else {
        let p = (a - 1) % 3600;
        if r == 0 {
            assert(p == 3599);
            assert(a % h == 0);
            assert(r / h == 0);
        } else {
            assert(p == r - 1);
            if a % h == 0 {
                assert(r % h == 0);
                assert(p / h == r / h - 1);
            } else {
                assert(r % h != 0);
                assert(p / h == r / h);
            }
        }
    }
}

/// Between two half-tooth boundaries the crank level does not change.
pub proof fn lemma_level_constant_off_boundary(crk: CrkType, a: int)
    requires
        0 <= a,
        !crk.is_boundary(a),
    ensures
        crk.level_at(a + 1) == crk.level_at(a),
{
    lemma_level_step(crk, a);
}

/// Throughout the gap the crank level is the complement of the start level,
/// however many half-tooth boundaries the gap spans: every sample of the gap
/// shows it, and so does the sample that follows the gap.
pub proof fn lemma_gap_is_held(crk: CrkType, a: int)
    requires
        0 <= a,
        crk.in_gap(a) || (0 < a && crk.in_gap(a - 1)),
    ensures
        crk.level_at(a) == crk.start_level().flipped(),
{
    let h = crk.half_tooth();
    let g = crk.gap_span();
    assert(h == 15 || h == 30 || h == 60);
    assert(g == 2 * h || g == 4 * h);
    if !crk.in_gap(a - 1) {
        let p = (a - 1) % 3600;
        assert(p == 3600 - g - 1);
        if h == 15 {
            assert(p / 15 % 2 == 1);
        } else if h == 30 {
            assert(p / 30 % 2 == 1);
        } else {
            assert(p / 60 % 2 == 1);
        }
    }
}

/// The gap is the last `gap_span` angles of each revolution.
pub proof fn lemma_gap_window(crk: CrkType, a: int)
    requires
        0 <= a,
    ensures
        crk.in_gap(a) <==> REV_LEN - crk.gap_span() <= a % (REV_LEN as int) < REV_LEN,
        0 < crk.gap_span() < REV_LEN,
        crk.gap_span() % crk.half_tooth() == 0,
        (REV_LEN - crk.gap_span()) % crk.half_tooth() == 0,
{
    let h = crk.half_tooth();
    assert(h == 15 || h == 30 || h == 60);
    assert(crk.gap_span() == 2 * h || crk.gap_span() == 4 * h);
}

/// Outside the gap the crank level toggles once per half tooth: two samples
/// half a tooth apart, neither of them in the gap, have opposite levels. The
/// first sample of the cycle is left out: it shows the start level, which
/// stays until the first boundary has been passed.
pub proof fn lemma_toggles_each_half_tooth(crk: CrkType, a: int)
    requires
        0 < a,
        !crk.in_gap(a),
        !crk.in_gap(a + crk.half_tooth()),
    ensures
        crk.level_at(a + crk.half_tooth()) == crk.level_at(a).flipped(),
{
    let h = crk.half_tooth();
    assert(h == 15 || h == 30 || h == 60);
    assert(crk.gap_span() == 2 * h || crk.gap_span() == 4 * h);
    if h == 15 {
        lemma_toggles_for(crk, a, 15);
    } else if h == 30 {
        lemma_toggles_for(crk, a, 30);
    } else {
        lemma_toggles_for(crk, a, 60);
    }
}

proof fn lemma_toggles_for(crk: CrkType, a: int, h: int)
    requires
        0 < a,
        h == crk.half_tooth(),
        h == 15 || h == 30 || h == 60,
        !crk.in_gap(a),
        !crk.in_gap(a + h),
    ensures
        crk.level_at(a + h) == crk.level_at(a).flipped(),
{
    let g = crk.gap_span();
    assert(g == 2 * h || g == 4 * h);
    lemma_half_tooth_apart(h, g, a);
    let before = ((a - 1) % 3600) / h;
    let after = ((a - 1 + h) % 3600) / h;
    assert(!crk.in_gap(a + h - 1));
    assert(crk.level_at(a + h) == crk.start_level().toggled(after));
    if crk.in_gap(a - 1) {
        assert(after == 0);
    } else {
        assert(after == before + 1);
        assert(crk.level_at(a) == crk.start_level().toggled(before));
    }
}

/// Where two angles half a tooth apart both lie before the gap, the angles
/// just before them lie in consecutive half teeth, or the first of these lies
/// in the gap of the revolution before and the second in the first half tooth.
proof fn lemma_half_tooth_apart(h: int, g: int, a: int)
    requires
        h == 15 || h == 30 || h == 60,
        g == 2 * h || g == 4 * h,
        0 < a,
        a % 3600 < 3600 - g,
        (a + h) % 3600 < 3600 - g,
    ensures
        (a + h - 1) % 3600 < 3600 - g,
        (a - 1) % 3600 >= 3600 - g ==> ((a - 1 + h) % 3600) / h == 0,
        (a - 1) % 3600 < 3600 - g ==> ((a - 1 + h) % 3600) / h == ((a - 1) % 3600) / h + 1,
{
    let r = a % 3600;
    let p = (a - 1) % 3600;
    if h == 15 {
        let q = (a - 1 + 15) % 3600;
        assert((a + 15) % 3600 == r + 15);
        if r == 0 {
            assert(p == 3599);
            assert(q == 14);
            assert(q / 15 == 0);
        } else {
            assert(p == r - 1);
            assert(q == p + 15);
            assert(q / 15 == p / 15 + 1);
        }
    } else if h == 30 {
        let q = (a - 1 + 30) % 3600;
        assert((a + 30) % 3600 == r + 30);
        if r == 0 {
            assert(p == 3599);
            assert(q == 29);
            assert(q / 30 == 0);
        } else {
            assert(p == r - 1);
            assert(q == p + 30);
            assert(q / 30 == p / 30 + 1);
        }
    } else {
        let q = (a - 1 + 60) % 3600;
        assert((a + 60) % 3600 == r + 60);
        if r == 0 {
            assert(p == 3599);
            assert(q == 59);
            assert(q / 60 == 0);
        } else {
            assert(p == r - 1);
            assert(q == p + 60);
            assert(q / 60 == p / 60 + 1);
        }
    }
}

/// The two revolutions of a cycle show the same crank signal: from the second
/// sample on, a sample and the one a revolution later have the same level.
pub proof fn lemma_revolutions_alike(crk: CrkType, a: int)
    requires
        0 < a,
    ensures
        crk.level_at(a + REV_LEN) == crk.level_at(a),
{
    assert((a - 1 + 3600) % 3600 == (a - 1) % 3600);
}

} // verus!
