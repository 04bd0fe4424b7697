//! The engine configuration and the generation of its pulse train.

use crate::cam::{
    edges_split, lemma_edges_below_count, lemma_edges_split_next, lemma_edges_split_start, Cam,
    CYCLE_LEN, MAX_CAM_EDGES,
};
use crate::crank::{lemma_level_step, CrkType, REV_LEN};
use crate::error::CfgError;
use crate::level::Level;
use crate::word::{level_of, tdc_mask, with_level, PulseWord, CAM_MASK, CRK_MASK, TDC_SLOTS};
use vstd::prelude::*;

verus! {

/// Number of cylinders for the current engine, helps to calculate TDC positions
#[derive(Clone, Copy, Debug)]
pub enum CylNr {
    /// Engine with 4 cylinders
    Cyl4,
    /// Engine with 6 cylinders
    Cyl6,
}

impl CylNr {
    /// The number of cylinders.
    pub open spec fn count(self) -> int {
        match self {
            CylNr::Cyl4 => 4,
            CylNr::Cyl6 => 6,
        }
    }

    /// The engine with `n` cylinders. Engines of four and of six cylinders are
    /// supported; any other count is refused.
    pub fn from_count(n: usize) -> (r: Result<CylNr, CfgError>)
        ensures
            n == 4 ==> r == Ok::<CylNr, CfgError>(CylNr::Cyl4),
            n == 6 ==> r == Ok::<CylNr, CfgError>(CylNr::Cyl6),
            n != 4 && n != 6 ==> r == Err::<CylNr, CfgError>(CfgError::InvalidCylinderCount),
    {
        if n == 4 {
            Ok(CylNr::Cyl4)
        } else if n == 6 {
            Ok(CylNr::Cyl6)
        } else {
            Err(CfgError::InvalidCylinderCount)
        }
    }

    /// Enum conversion into real cylinder number
    pub fn val(&self) -> (n: usize)
        ensures
            n == self.count(),
    {
        match *self {
            CylNr::Cyl4 => 4,
            CylNr::Cyl6 => 6,
        }
    }
}

/// Engine configuration
#[derive(Clone, Copy, Debug)]
pub struct EngCfg {
    /// Camshaft wheel configuration
    pub cam: Cam,
    /// Crankshaft type configuration
    pub crk: CrkType,
    /// Angle from reference (crank gap) to first Top-Dead-Center (TDC), in
    /// tenths of a degree
    pub ref_to_tdc0: i16,
    /// Number of cylinders, used for TDC generation
    pub nr_of_cyl: CylNr,
}

impl EngCfg {
    /// The camshaft wheel is well formed and the first top dead center is an
    /// angle of the cycle.
    pub open spec fn wf(self) -> bool {
        &&& self.cam.wf()
        &&& 0 <= self.ref_to_tdc0 < CYCLE_LEN
    }

    /// The fault of this configuration, if it has one: camshaft edges that are
    /// not strictly ascending angles of the cycle, or else a first top dead
    /// center that is no angle of the cycle.
    pub open spec fn fault(self) -> Option<CfgError> {
        if !self.cam.wf() {
            Some(CfgError::NonMonotonicCamEdges)
        } else if !(0 <= self.ref_to_tdc0 < CYCLE_LEN) {
            Some(CfgError::TdcOutOfRange)
        } else {
            None
        }
    }

    /// Checks this configuration, and names its fault if it has one.
    pub fn validate(&self) -> (r: Result<(), CfgError>)
        ensures
            r is Ok <==> self.wf(),
            match r {
                Ok(_) => self.fault() is None,
                Err(e) => self.fault() == Some(e),
            },
    {
        if !self.cam.is_valid() {
            Err(CfgError::NonMonotonicCamEdges)
        } else if self.ref_to_tdc0 < 0 || self.ref_to_tdc0 >= CYCLE_LEN as i16 {
            Err(CfgError::TdcOutOfRange)
        } else {
            Ok(())
        }
    }

    /// Builds a configuration from its parts, or names the fault of what they
    /// would make.
    pub fn new(cam: Cam, crk: CrkType, ref_to_tdc0: i16, nr_of_cyl: CylNr) -> (r: Result<
        EngCfg,
        CfgError,
    >)
        ensures
            r is Ok <==> (EngCfg { cam, crk, ref_to_tdc0, nr_of_cyl }).fault() is None,
            match r {
                Ok(cfg) => {
                    &&& cfg.wf()
                    &&& cfg.cam == cam
                    &&& cfg.crk == crk
                    &&& cfg.ref_to_tdc0 == ref_to_tdc0
                    &&& cfg.nr_of_cyl == nr_of_cyl
                },
                Err(e) => (EngCfg { cam, crk, ref_to_tdc0, nr_of_cyl }).fault() == Some(e),
            },
    {
        let cfg = EngCfg { cam, crk, ref_to_tdc0, nr_of_cyl };
        match cfg.validate() {
            Ok(_) => Ok(cfg),
            Err(e) => Err(e),
        }
    }

    /// Angle between the top dead centers of two consecutive cylinders.
    pub open spec fn tdc_interval(self) -> int {
        CYCLE_LEN as int / self.nr_of_cyl.count()
    }

    /// Angle of the top dead center of cylinder `cyl`, wrapped into the cycle.
    pub open spec fn tdc_pos(self, cyl: int) -> int {
        (self.ref_to_tdc0 + cyl * self.tdc_interval()) % (CYCLE_LEN as int)
    }

    /// Whether sample `a` carries the top-dead-center marker of cylinder `cyl`.
    pub open spec fn tdc_at(self, a: int, cyl: int) -> bool {
        0 <= cyl < self.nr_of_cyl.count() && a == self.tdc_pos(cyl)
    }

    /// The markers of the cycle, each as the pair of its sample and its
    /// cylinder.
    pub open spec fn tdc_marks(self) -> Set<(int, int)> {
        Set::new(|m: (int, int)| self.tdc_at(m.0, m.1))
    }

    /// `bits` with the markers of the cylinders below `upto` added where sample
    /// `a` carries them.
    pub open spec fn with_tdc(self, bits: u32, a: int, upto: int) -> u32
        decreases upto,
    {
        if upto <= 0 {
            bits
        } else {
            let below = self.with_tdc(bits, a, upto - 1);
            if self.tdc_at(a, upto - 1) {
                with_level(below, tdc_mask(upto - 1), Level::High)
            } else {
                below
            }
        }
    }

    /// `bits` with the camshaft and crankshaft bits of sample `a` written.
    pub open spec fn with_wheels(self, bits: u32, a: int) -> u32 {
        with_level(
            with_level(bits, CAM_MASK, self.cam.level_at(a)),
            CRK_MASK,
            self.crk.level_at(a),
        )
    }

    /// What sample `a` holds after generation when it held `bits` before: the
    /// camshaft and crankshaft bits are overwritten, the top-dead-center
    /// markers of this sample are added, and every other bit is kept.
    pub open spec fn pulse_bits(self, bits: u32, a: int) -> u32 {
        self.with_tdc(self.with_wheels(bits, a), a, self.nr_of_cyl.count())
    }

    /// Whether `after` is the pulse train of this engine written over `before`.
    pub open spec fn is_pulse_train<T: PulseWord>(self, before: Seq<T>, after: Seq<T>) -> bool {
        &&& before.len() == CYCLE_LEN
        &&& after.len() == CYCLE_LEN
        &&& forall|a: int|
            0 <= a < CYCLE_LEN ==> (#[trigger] after[a]).bits() == self.pulse_bits(
                before[a].bits(),
                a,
            )
    }

    /// Checks this configuration and, if it has no fault, writes its pulse
    /// train into `pt`. A configuration with a fault leaves `pt` as it was.
    pub fn generate<T: PulseWord>(&self, pt: &mut [T; 7200]) -> (r: Result<(), CfgError>)
        ensures
            match r {
                Ok(_) => self.fault() is None && self.is_pulse_train(old(pt)@, final(pt)@),
                Err(e) => self.fault() == Some(e) && final(pt)@ == old(pt)@,
            },
    {
        match self.validate() {
            Ok(_) => {
                self.gen_pulse_train(pt);
                Ok(())
            },
            Err(e) => Err(e),
        }
    }

    /// Writes the pulse train of this engine into `pt`.
    ///
    /// Sample `a` of `pt` stands for angle `a` of the cycle. Its camshaft and
    /// crankshaft bits are overwritten with the levels of the two wheels at
    /// that angle; the marker of each cylinder is set in the sample of its top
    /// dead center. Markers that `pt` already held stay set.
    pub fn gen_pulse_train<T: PulseWord>(&self, pt: &mut [T; 7200])
        requires
            self.wf(),
        ensures
            self.is_pulse_train(old(pt)@, final(pt)@),
            forall|a: int|
                0 <= a < CYCLE_LEN ==> level_of((#[trigger] final(pt)@[a]).bits(), CAM_MASK)
                    == self.cam.level_at(a),
            forall|a: int|
                0 <= a < CYCLE_LEN ==> level_of((#[trigger] final(pt)@[a]).bits(), CRK_MASK)
                    == self.crk.level_at(a),
            forall|a: int, cyl: int|
                0 <= a < CYCLE_LEN && 0 <= cyl < TDC_SLOTS ==> (level_of(
                    (#[trigger] final(pt)@[a]).bits(),
                    #[trigger] tdc_mask(cyl),
                ) == Level::High <==> level_of(old(pt)@[a].bits(), tdc_mask(cyl)) == Level::High
                    || self.tdc_at(a, cyl)),
    {
        let mut idx_cam_edges: usize = 0;
        let mut cam_lvl = self.cam.first_level;

        let crk_tooth_angle = self.crk.angle_per_tooth();
        let half_tooth: usize = crk_tooth_angle / 2;
        let angle_missing_teeth: usize = self.crk.nr_of_missing_teeth() * crk_tooth_angle;
        let mut crk_lvl = self.crk.first_level();

        proof {
            lemma_edges_split_start(self.cam.ev_angles@);
            lemma_edges_below_count(self.cam.ev_angles@, 0, 0);
        }

        let mut angle: usize = 0;
        while angle < CYCLE_LEN
            invariant
                self.wf(),
                angle <= CYCLE_LEN,
                half_tooth == self.crk.half_tooth(),
                half_tooth > 0,
                angle_missing_teeth == self.crk.gap_span(),
                angle_missing_teeth <= REV_LEN,
                idx_cam_edges <= MAX_CAM_EDGES,
                edges_split(self.cam.ev_angles@, angle as int, idx_cam_edges as int),
                cam_lvl == self.cam.level_at(angle as int),
                crk_lvl == self.crk.level_at(angle as int),
                forall|a: int|
                    0 <= a < angle ==> (#[trigger] pt@[a]).bits() == self.with_wheels(
                        old(pt)@[a].bits(),
                        a,
                    ),
                forall|a: int| angle <= a < CYCLE_LEN ==> #[trigger] pt@[a] == old(pt)@[a],
            decreases CYCLE_LEN - angle,
        {
            proof {
                lemma_edges_below_count(self.cam.ev_angles@, angle as int, idx_cam_edges as int);
                lemma_edges_split_next(self.cam.ev_angles@, angle as int, idx_cam_edges as int);
            }
            let mut val = pt[angle];
            val.set_cam(cam_lvl);
            if idx_cam_edges < MAX_CAM_EDGES {
                if self.cam.ev_angles[idx_cam_edges] == angle as i16 {
                    cam_lvl = core::ops::Not::not(cam_lvl);
                    idx_cam_edges += 1;
                }
            }
            proof {
                lemma_edges_below_count(self.cam.ev_angles@, angle + 1, idx_cam_edges as int);
            }

            val.set_crk(crk_lvl);
            if angle % half_tooth == 0 && angle != 0 {
                if (angle % REV_LEN) >= REV_LEN - angle_missing_teeth {
                    crk_lvl = core::ops::Not::not(self.crk.first_level());
                } else {
                    crk_lvl = core::ops::Not::not(crk_lvl);
                }
            }
            proof {
                lemma_level_step(self.crk, angle as int);
            }
            pt[angle] = val;
            angle += 1;
        }

        let nr_of_cyl = self.nr_of_cyl.val();
        let tdc_to_tdc: usize = CYCLE_LEN / nr_of_cyl;
        let mut cyl: usize = 0;
        while cyl < nr_of_cyl
            invariant
                self.wf(),
                cyl <= nr_of_cyl,
                nr_of_cyl == self.nr_of_cyl.count(),
                tdc_to_tdc == self.tdc_interval(),
                tdc_to_tdc * nr_of_cyl == CYCLE_LEN,
                forall|a: int|
                    0 <= a < CYCLE_LEN ==> (#[trigger] pt@[a]).bits() == self.with_tdc(
                        self.with_wheels(old(pt)@[a].bits(), a),
                        a,
                        cyl as int,
                    ),
            decreases nr_of_cyl - cyl,
        {
            assert(cyl * tdc_to_tdc < CYCLE_LEN) by (nonlinear_arith)
                requires
                    cyl < nr_of_cyl,
                    tdc_to_tdc * nr_of_cyl == CYCLE_LEN,
            ;
            let pos: usize = (self.ref_to_tdc0 as usize + cyl * tdc_to_tdc) % CYCLE_LEN;
            let mut val = pt[pos];
            val.set_tdc(cyl, Level::High);
            pt[pos] = val;
            cyl += 1;
        }

        proof {
            assert forall|a: int| 0 <= a < CYCLE_LEN implies level_of(
                (#[trigger] pt@[a]).bits(),
                CAM_MASK,
            ) == self.cam.level_at(a) && level_of(pt@[a].bits(), CRK_MASK) == self.crk.level_at(
                a,
            ) by {
                lemma_pulse_cam(*self, old(pt)@[a].bits(), a);
                lemma_pulse_crk(*self, old(pt)@[a].bits(), a);
            }
            assert forall|a: int, cyl: int|
                0 <= a < CYCLE_LEN && 0 <= cyl < TDC_SLOTS implies (level_of(
                (#[trigger] pt@[a]).bits(),
                #[trigger] tdc_mask(cyl),
            ) == Level::High <==> level_of(old(pt)@[a].bits(), tdc_mask(cyl)) == Level::High
                || self.tdc_at(a, cyl)) by {
                lemma_pulse_tdc(*self, old(pt)@[a].bits(), a, cyl);
            }
        }
    }
}

/// Mask of the bits that no signal uses.
pub const SPARE_MASK: u32 = 0xFFFF_FF00;

/// Driving the bits under one signal's mask leaves every other signal, and the
/// spare bits, as they were.
proof fn lemma_with_level_elsewhere(bits: u32, mask: u32, level: Level, other: u32)
    requires
        mask & other == 0,
    ensures
        with_level(bits, mask, level) & other == bits & other,
{
    assert((bits | mask) & other == bits & other) by (bit_vector)
        requires
            mask & other == 0,
    ;
    assert((bits & !mask) & other == bits & other) by (bit_vector)
        requires
            mask & other == 0,
    ;
}

/// Driving a single bit makes that bit show the level driven.
proof fn lemma_with_level_here(bits: u32, mask: u32, level: Level)
    requires
        mask != 0,
    ensures
        level_of(with_level(bits, mask, level), mask) == level,
{
    assert((bits | mask) & mask != 0) by (bit_vector)
        requires
            mask != 0,
    ;
    assert((bits & !mask) & mask == 0) by (bit_vector);
}

/// The masks of the signals are single bits apart from each other and from the
/// spare bits.
proof fn lemma_masks_disjoint(j: int, k: int)
    requires
        0 <= j < TDC_SLOTS,
        0 <= k < TDC_SLOTS,
    ensures
        tdc_mask(j) != 0,
        tdc_mask(j) & CAM_MASK == 0,
        tdc_mask(j) & CRK_MASK == 0,
        tdc_mask(j) & SPARE_MASK == 0,
        CAM_MASK & CRK_MASK == 0,
        CRK_MASK & CAM_MASK == 0,
        CAM_MASK & SPARE_MASK == 0,
        CRK_MASK & SPARE_MASK == 0,
        j != k ==> tdc_mask(j) & tdc_mask(k) == 0,
{
    let m = tdc_mask(j);
    let n = tdc_mask(k);
    assert(m == 4 || m == 8 || m == 16 || m == 32 || m == 64 || m == 128);
    assert(m & 1 == 0 && m & 2 == 0 && m & 0xFFFF_FF00 == 0) by (bit_vector)
        requires
            m == 4 || m == 8 || m == 16 || m == 32 || m == 64 || m == 128,
    ;
    assert(1u32 & 2u32 == 0 && 2u32 & 1u32 == 0 && 1u32 & 0xFFFF_FF00u32 == 0 && 2u32
        & 0xFFFF_FF00u32 == 0) by (bit_vector);
    if j != k {
        assert(m != n);
        assert(m & n == 0) by (bit_vector)
            requires
                m == 4 || m == 8 || m == 16 || m == 32 || m == 64 || m == 128,
                n == 4 || n == 8 || n == 16 || n == 32 || n == 64 || n == 128,
                m != n,
        ;
    }
}

/// Adding markers changes neither wheel bit nor a spare bit, and sets the
/// marker bits of exactly the cylinders below `upto` whose top dead center is
/// at this sample.
proof fn lemma_with_tdc(cfg: EngCfg, bits: u32, a: int, upto: int)
    requires
        0 <= upto <= TDC_SLOTS,
    ensures
        cfg.with_tdc(bits, a, upto) & CAM_MASK == bits & CAM_MASK,
        cfg.with_tdc(bits, a, upto) & CRK_MASK == bits & CRK_MASK,
        cfg.with_tdc(bits, a, upto) & SPARE_MASK == bits & SPARE_MASK,
        forall|k: int|
            0 <= k < TDC_SLOTS ==> (#[trigger] level_of(
                cfg.with_tdc(bits, a, upto),
                tdc_mask(k),
            ) == Level::High <==> level_of(bits, tdc_mask(k)) == Level::High || (k < upto
                && cfg.tdc_at(a, k))),
    decreases upto,
{
    if upto > 0 {
        let j = upto - 1;
        let below = cfg.with_tdc(bits, a, j);
        lemma_with_tdc(cfg, bits, a, j);
        lemma_masks_disjoint(j, j);
        if cfg.tdc_at(a, j) {
            let m = tdc_mask(j);
            lemma_with_level_elsewhere(below, m, Level::High, CAM_MASK);
            lemma_with_level_elsewhere(below, m, Level::High, CRK_MASK);
            lemma_with_level_elsewhere(below, m, Level::High, SPARE_MASK);
            lemma_with_level_here(below, m, Level::High);
            assert forall|k: int| 0 <= k < TDC_SLOTS implies (#[trigger] level_of(
                cfg.with_tdc(bits, a, upto),
                tdc_mask(k),
            ) == Level::High <==> level_of(bits, tdc_mask(k)) == Level::High || (k < upto
                && cfg.tdc_at(a, k))) by {
                assert(level_of(below, tdc_mask(k)) == Level::High <==> level_of(
                    bits,
                    tdc_mask(k),
                ) == Level::High || (k < j && cfg.tdc_at(a, k)));
                if k != j {
                    lemma_masks_disjoint(j, k);
                    lemma_with_level_elsewhere(below, m, Level::High, tdc_mask(k));
                }
            }
        } else {
            assert forall|k: int| 0 <= k < TDC_SLOTS implies (#[trigger] level_of(
                cfg.with_tdc(bits, a, upto),
                tdc_mask(k),
            ) == Level::High <==> level_of(bits, tdc_mask(k)) == Level::High || (k < upto
                && cfg.tdc_at(a, k))) by {
                assert(level_of(below, tdc_mask(k)) == Level::High <==> level_of(
                    bits,
                    tdc_mask(k),
                ) == Level::High || (k < j && cfg.tdc_at(a, k)));
            }
        }
    }
}

/// After generation the camshaft bit of sample `a` shows the camshaft level at
/// `a`, whatever the sample held before.
pub proof fn lemma_pulse_cam(cfg: EngCfg, bits: u32, a: int)
    ensures
        level_of(cfg.pulse_bits(bits, a), CAM_MASK) == cfg.cam.level_at(a),
{
    let with_cam = with_level(bits, CAM_MASK, cfg.cam.level_at(a));
    lemma_masks_disjoint(0, 0);
    lemma_with_level_here(bits, CAM_MASK, cfg.cam.level_at(a));
    lemma_with_level_elsewhere(with_cam, CRK_MASK, cfg.crk.level_at(a), CAM_MASK);
    lemma_with_tdc(cfg, cfg.with_wheels(bits, a), a, cfg.nr_of_cyl.count());
}

/// After generation the crankshaft bit of sample `a` shows the crankshaft
/// level at `a`, whatever the sample held before.
pub proof fn lemma_pulse_crk(cfg: EngCfg, bits: u32, a: int)
    ensures
        level_of(cfg.pulse_bits(bits, a), CRK_MASK) == cfg.crk.level_at(a),
{
    let with_cam = with_level(bits, CAM_MASK, cfg.cam.level_at(a));
    lemma_with_level_here(with_cam, CRK_MASK, cfg.crk.level_at(a));
    lemma_with_tdc(cfg, cfg.with_wheels(bits, a), a, cfg.nr_of_cyl.count());
}

/// After generation the marker of cylinder `cyl` is set in sample `a` if and
/// only if it was set before or `a` is the top dead center of that cylinder.
pub proof fn lemma_pulse_tdc(cfg: EngCfg, bits: u32, a: int, cyl: int)
    requires
        0 <= cyl < TDC_SLOTS,
    ensures
        level_of(cfg.pulse_bits(bits, a), tdc_mask(cyl)) == Level::High <==> level_of(
            bits,
            tdc_mask(cyl),
        ) == Level::High || cfg.tdc_at(a, cyl),
{
    let with_cam = with_level(bits, CAM_MASK, cfg.cam.level_at(a));
    let wheels = cfg.with_wheels(bits, a);
    lemma_masks_disjoint(cyl, cyl);
    assert(CAM_MASK & tdc_mask(cyl) == 0 && CRK_MASK & tdc_mask(cyl) == 0) by {
        let m = tdc_mask(cyl);
        assert(1u32 & m == 0 && 2u32 & m == 0) by (bit_vector)
            requires
                m == 4 || m == 8 || m == 16 || m == 32 || m == 64 || m == 128,
        ;
    }
    lemma_with_level_elsewhere(bits, CAM_MASK, cfg.cam.level_at(a), tdc_mask(cyl));
    lemma_with_level_elsewhere(with_cam, CRK_MASK, cfg.crk.level_at(a), tdc_mask(cyl));
    lemma_with_tdc(cfg, wheels, a, cfg.nr_of_cyl.count());
    assert(level_of(cfg.with_tdc(wheels, a, cfg.nr_of_cyl.count()), tdc_mask(cyl))
        == Level::High <==> level_of(wheels, tdc_mask(cyl)) == Level::High || (cyl
        < cfg.nr_of_cyl.count() && cfg.tdc_at(a, cyl)));
}

/// Generation keeps every bit of a sample that stands for no signal.
pub proof fn lemma_pulse_keeps_spare_bits(cfg: EngCfg, bits: u32, a: int)
    ensures
        cfg.pulse_bits(bits, a) & SPARE_MASK == bits & SPARE_MASK,
{
    let with_cam = with_level(bits, CAM_MASK, cfg.cam.level_at(a));
    lemma_masks_disjoint(0, 0);
    lemma_with_level_elsewhere(bits, CAM_MASK, cfg.cam.level_at(a), SPARE_MASK);
    lemma_with_level_elsewhere(with_cam, CRK_MASK, cfg.crk.level_at(a), SPARE_MASK);
    lemma_with_tdc(cfg, cfg.with_wheels(bits, a), a, cfg.nr_of_cyl.count());
}

/// The top dead centers are evenly spaced angles of the cycle: each lies in
/// the cycle, one interval after the one before it, wrapping at the end.
pub proof fn lemma_tdc_evenly_spaced(cfg: EngCfg, cyl: int)
    requires
        cfg.wf(),
        0 <= cyl,
    ensures
        0 <= cfg.tdc_pos(cyl) < CYCLE_LEN,
        cfg.tdc_pos(0) == cfg.ref_to_tdc0,
        cfg.tdc_pos(cyl + 1) == (cfg.tdc_pos(cyl) + cfg.tdc_interval()) % (CYCLE_LEN as int),
        cfg.tdc_interval() * cfg.nr_of_cyl.count() == CYCLE_LEN,
{
    let step = cfg.tdc_interval();
    assert(step == 1800 || step == 1200);
    assert(cyl * step >= 0) by (nonlinear_arith)
        requires
            cyl >= 0,
            step > 0,
    ;
    assert((cyl + 1) * step == cyl * step + step) by (nonlinear_arith);
    let x = cfg.ref_to_tdc0 + cyl * step;
    assert((x + step) % 7200 == (x % 7200 + step) % 7200);
}

/// The marker of a cylinder is one sample wide: it stands at the top dead
/// center of that cylinder and nowhere else.
pub proof fn lemma_tdc_one_sample(cfg: EngCfg, cyl: int, a: int)
    requires
        0 <= cyl < cfg.nr_of_cyl.count(),
    ensures
        cfg.tdc_at(a, cyl) <==> a == cfg.tdc_pos(cyl),
        !cfg.tdc_at(cfg.tdc_pos(cyl) - 1, cyl),
        !cfg.tdc_at(cfg.tdc_pos(cyl) + 1, cyl),
{
}

/// No sample carries the markers of two cylinders.
pub proof fn lemma_tdc_apart(cfg: EngCfg, a: int, j: int, k: int)
    requires
        cfg.wf(),
        cfg.tdc_at(a, j),
        cfg.tdc_at(a, k),
    ensures
        j == k,
{
    let step = cfg.tdc_interval();
    assert(step == 1800 || step == 1200);
    if j < k {
        lemma_tdc_offsets_differ(cfg.ref_to_tdc0 as int, step, cfg.nr_of_cyl.count(), j, k);
    } else if k < j {
        lemma_tdc_offsets_differ(cfg.ref_to_tdc0 as int, step, cfg.nr_of_cyl.count(), k, j);
    }
}

/// Two angles less than a cycle apart differ after wrapping.
proof fn lemma_tdc_offsets_differ(base: int, step: int, n: int, j: int, k: int)
    requires
        0 <= base,
        0 < step,
        step * n == CYCLE_LEN,
        0 <= j < k < n,
    ensures
        (base + j * step) % (CYCLE_LEN as int) != (base + k * step) % (CYCLE_LEN as int),
{
    let x = base + j * step;
    let d = (k - j) * step;
    assert(0 < d < 7200) by (nonlinear_arith)
        requires
            0 <= j < k < n,
            0 < step,
            step * n == 7200,
            d == (k - j) * step,
    ;
    assert(j * step >= 0) by (nonlinear_arith)
        requires
            0 <= j,
            0 < step,
    ;
    assert(base + k * step == x + d) by (nonlinear_arith)
        requires
            x == base + j * step,
            d == (k - j) * step,
    ;
    assert((x + d) % 7200 != x % 7200);
}

/// The markers of the cylinders below `upto`.
spec fn tdc_marks_below(cfg: EngCfg, upto: int) -> Set<(int, int)> {
    Set::new(|m: (int, int)| cfg.tdc_at(m.0, m.1) && m.1 < upto)
}

proof fn lemma_tdc_marks_below(cfg: EngCfg, upto: int)
    requires
        0 <= upto <= cfg.nr_of_cyl.count(),
    ensures
        tdc_marks_below(cfg, upto).finite(),
        tdc_marks_below(cfg, upto).len() == upto,
    decreases upto,
{
    if upto == 0 {
        assert(tdc_marks_below(cfg, 0) =~= Set::<(int, int)>::empty());
    } else {
        let j = upto - 1;
        lemma_tdc_marks_below(cfg, j);
        let mark = (cfg.tdc_pos(j), j);
        assert(tdc_marks_below(cfg, upto) =~= tdc_marks_below(cfg, j).insert(mark));
    }
}

/// A cycle holds exactly as many markers as the engine has cylinders.
pub proof fn lemma_tdc_count(cfg: EngCfg)
    ensures
        cfg.tdc_marks().finite(),
        cfg.tdc_marks().len() == cfg.nr_of_cyl.count(),
{
    let n = cfg.nr_of_cyl.count();
    lemma_tdc_marks_below(cfg, n);
    assert(cfg.tdc_marks() =~= tdc_marks_below(cfg, n));
}

/// Generation is a function of the configuration and of what the buffer held:
/// two pulse trains of one engine written over buffers with the same contents
/// are the same.
pub proof fn lemma_pulse_train_unique<T: PulseWord>(
    cfg: EngCfg,
    before1: Seq<T>,
    after1: Seq<T>,
    before2: Seq<T>,
    after2: Seq<T>,
)
    requires
        cfg.is_pulse_train(before1, after1),
        cfg.is_pulse_train(before2, after2),
        forall|a: int| 0 <= a < CYCLE_LEN ==> before1[a].bits() == before2[a].bits(),
    ensures
        after1 == after2,
{
    assert forall|a: int| 0 <= a < CYCLE_LEN implies after1[a] == after2[a] by {
        assert(after1[a].bits() == cfg.pulse_bits(before1[a].bits(), a));
        assert(after2[a].bits() == cfg.pulse_bits(before2[a].bits(), a));
        T::lemma_bits_injective(after1[a], after2[a]);
    }
    assert(after1 =~= after2);
}

} // verus!
