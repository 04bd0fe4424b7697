use engcfg::cam::Cam;
use engcfg::crank::CrkType;
use engcfg::engine::{CylNr, EngCfg};
use engcfg::level::Level;
use engcfg::table::cfgs;
use engcfg::word::PulseWord;

const WHEELS: [CrkType; 12] = [
    CrkType::Crk30m1,
    CrkType::Crk30m2,
    CrkType::Crk60m1,
    CrkType::Crk60m2,
    CrkType::Crk120m1,
    CrkType::Crk120m2,
    CrkType::Crk30m1Inv,
    CrkType::Crk30m2Inv,
    CrkType::Crk60m1Inv,
    CrkType::Crk60m2Inv,
    CrkType::Crk120m1Inv,
    CrkType::Crk120m2Inv,
];

fn engine(crk: CrkType, ref_to_tdc0: i16, nr_of_cyl: CylNr, edges: &[i16]) -> EngCfg {
    let cam = match Cam::new(Level::Low, edges) {
        Ok(cam) => cam,
        Err(e) => panic!("cam refused: {e:?}"),
    };
    match EngCfg::new(cam, crk, ref_to_tdc0, nr_of_cyl) {
        Ok(cfg) => cfg,
        Err(e) => panic!("engine refused: {e:?}"),
    }
}

/// A step-by-step scan of the cycle, kept apart from the library.
fn scan(cfg: &EngCfg) -> Vec<u8> {
    let mut out = vec![0u8; 7200];
    let mut cam = cfg.cam.first_level == Level::High;
    let mut idx = 0usize;
    let tooth = cfg.crk.angle_per_tooth();
    let gap = cfg.crk.nr_of_missing_teeth() * tooth;
    let first = cfg.crk.first_level() == Level::High;
    let mut crk = first;
    for angle in 0..7200usize {
        out[angle] = (cam as u8) | ((crk as u8) << 1);
        if idx < 20 && cfg.cam.ev_angles[idx] as i32 == angle as i32 {
            cam = !cam;
            idx += 1;
        }
        if angle != 0 && angle % (tooth / 2) == 0 {
            if angle % 3600 >= 3600 - gap {
                crk = !first;
            } else {
                crk = !crk;
            }
        }
    }
    let n = cfg.nr_of_cyl.val();
    for cyl in 0..n {
        let pos = (cfg.ref_to_tdc0 as usize + cyl * (7200 / n)) % 7200;
        out[pos] |= 4 << cyl;
    }
    out
}

#[test]
fn matches_a_step_by_step_scan_for_every_wheel() {
    for crk in WHEELS {
        for (nr, reference) in [(CylNr::Cyl4, 0i16), (CylNr::Cyl6, 658), (CylNr::Cyl4, 7199)] {
            let cfg = engine(crk, reference, nr, &[0, 15, 30, 3600, 7199]);
            let mut pls = [0u8; 7200];
            cfg.gen_pulse_train(&mut pls);
            assert_eq!(pls.to_vec(), scan(&cfg));
        }
    }
}

#[test]
fn matches_a_step_by_step_scan_for_the_reference_engine() {
    let cfg = &cfgs()[0];
    let mut pls = [0u8; 7200];
    cfg.gen_pulse_train(&mut pls);
    assert_eq!(pls.to_vec(), scan(cfg));
}

#[test]
fn every_sample_is_overwritten() {
    let cfg = &cfgs()[0];
    let mut zeroed = [0u8; 7200];
    let mut dirty = [0x03u8; 7200];
    cfg.gen_pulse_train(&mut zeroed);
    cfg.gen_pulse_train(&mut dirty);
    assert_eq!(zeroed.to_vec(), dirty.to_vec());
}

#[test]
fn markers_already_set_stay_set() {
    let cfg = &cfgs()[0];
    let mut zeroed = [0u8; 7200];
    let mut marked = [0x40u8; 7200];
    cfg.gen_pulse_train(&mut zeroed);
    cfg.gen_pulse_train(&mut marked);
    for angle in 0..7200 {
        assert_eq!(marked[angle], zeroed[angle] | 0x40, "angle {angle}");
    }
}

#[test]
fn cam_level_follows_the_parity_of_edges_passed() {
    let cfg = &cfgs()[0];
    let mut pls = [0u8; 7200];
    cfg.gen_pulse_train(&mut pls);
    for angle in 0..7200usize {
        let before = cfg.cam.ev_angles.iter().filter(|e| (**e as usize) < angle).count();
        let expected = if before % 2 == 0 { Level::High } else { Level::Low };
        assert_eq!(pls[angle].get_cam(), expected, "angle {angle}");
        if !cfg.cam.ev_angles.contains(&(angle as i16)) {
            let up_to = cfg.cam.ev_angles.iter().filter(|e| (**e as usize) <= angle).count();
            assert_eq!(up_to, before);
        }
    }
}

#[test]
fn cam_with_no_edge_stays_at_its_first_level() {
    let cfg = engine(CrkType::Crk60m2, 0, CylNr::Cyl4, &[]);
    let mut pls = [0u8; 7200];
    cfg.gen_pulse_train(&mut pls);
    for angle in 0..7200 {
        assert_eq!(pls[angle].get_cam(), Level::Low);
    }
}

#[test]
fn cam_edge_at_the_last_angle_is_never_seen() {
    let cfg = engine(CrkType::Crk60m2, 0, CylNr::Cyl4, &[7199]);
    let mut pls = [0u8; 7200];
    cfg.gen_pulse_train(&mut pls);
    for angle in 0..7200 {
        assert_eq!(pls[angle].get_cam(), Level::Low);
    }
}

#[test]
fn cam_edge_at_angle_zero_shows_in_sample_one() {
    let cfg = engine(CrkType::Crk60m2, 0, CylNr::Cyl4, &[0]);
    let mut pls = [0u8; 7200];
    cfg.gen_pulse_train(&mut pls);
    assert_eq!(pls[0].get_cam(), Level::Low);
    for angle in 1..7200 {
        assert_eq!(pls[angle].get_cam(), Level::High);
    }
}

#[test]
fn crank_toggles_each_half_tooth_and_holds_the_gap() {
    for crk in WHEELS {
        let cfg = engine(crk, 0, CylNr::Cyl4, &[]);
        let mut pls = [0u8; 7200];
        cfg.gen_pulse_train(&mut pls);
        let half = crk.angle_per_tooth() / 2;
        let gap = crk.nr_of_missing_teeth() * crk.angle_per_tooth();
        let first = crk.first_level();
        let in_gap = |angle: usize| angle % 3600 >= 3600 - gap;
        assert_eq!(pls[0].get_crk(), first);
        for sample in 1..7200usize {
            if in_gap(sample) || in_gap(sample - 1) {
                assert_eq!(pls[sample].get_crk(), !first, "sample {sample}");
            } else {
                let slot = ((sample - 1) % 3600) / half;
                let expected = if slot % 2 == 0 { first } else { !first };
                assert_eq!(pls[sample].get_crk(), expected, "sample {sample}");
            }
            if sample + half < 7200 && !in_gap(sample) && !in_gap(sample + half) {
                assert_eq!(
                    pls[sample + half].get_crk(),
                    !pls[sample].get_crk(),
                    "sample {sample}"
                );
            }
            if sample % half != 0 && sample + 1 < 7200 {
                assert_eq!(pls[sample + 1].get_crk(), pls[sample].get_crk());
            }
        }
    }
}

#[test]
fn crank_start_level_lasts_one_sample_longer() {
    for crk in WHEELS {
        let cfg = engine(crk, 0, CylNr::Cyl4, &[]);
        let mut pls = [0u8; 7200];
        cfg.gen_pulse_train(&mut pls);
        let half = crk.angle_per_tooth() / 2;
        let first = crk.first_level();
        for sample in 0..=half {
            assert_eq!(pls[sample].get_crk(), first, "sample {sample}");
        }
        assert_eq!(pls[half + 1].get_crk(), !first);
    }
}

#[test]
fn crank_pattern_repeats_in_the_second_revolution() {
    for crk in WHEELS {
        let cfg = engine(crk, 0, CylNr::Cyl4, &[]);
        let mut pls = [0u8; 7200];
        cfg.gen_pulse_train(&mut pls);
        for sample in 1..3600usize {
            assert_eq!(pls[sample].get_crk(), pls[sample + 3600].get_crk(), "sample {sample}");
        }
    }
}

#[test]
fn exactly_one_marker_per_cylinder() {
    for (nr, n) in [(CylNr::Cyl4, 4usize), (CylNr::Cyl6, 6usize)] {
        for reference in [0i16, 1, 658, 1199, 1200, 1799, 1800, 5400, 6000, 6658, 7199] {
            let cfg = engine(CrkType::Crk60m2Inv, reference, nr, &[]);
            let mut pls = [0u8; 7200];
            cfg.gen_pulse_train(&mut pls);
            let mut total = 0;
            for angle in 0..7200usize {
                for cyl in 0..6usize {
                    let expected =
                        cyl < n && angle == (reference as usize + cyl * (7200 / n)) % 7200;
                    assert_eq!(pls[angle].get_tdc(cyl) == Level::High, expected);
                    if expected {
                        total += 1;
                    }
                }
            }
            assert_eq!(total, n);
        }
    }
}

#[test]
fn markers_wrap_at_the_end_of_the_cycle() {
    let cfg = engine(CrkType::Crk60m2Inv, 6658, CylNr::Cyl6, &[]);
    let mut pls = [0u8; 7200];
    cfg.gen_pulse_train(&mut pls);
    assert_eq!(pls[6658] & 0xFC, 0x04);
    assert_eq!(pls[658] & 0xFC, 0x08);
    assert_eq!(pls[1858] & 0xFC, 0x10);
    assert_eq!(pls[3058] & 0xFC, 0x20);
    assert_eq!(pls[4258] & 0xFC, 0x40);
    assert_eq!(pls[5458] & 0xFC, 0x80);

    let cfg = engine(CrkType::Crk60m2Inv, 7199, CylNr::Cyl4, &[]);
    let mut pls = [0u8; 7200];
    cfg.gen_pulse_train(&mut pls);
    assert_eq!(pls[7199] & 0xFC, 0x04);
    assert_eq!(pls[1799] & 0xFC, 0x08);
    assert_eq!(pls[3599] & 0xFC, 0x10);
    assert_eq!(pls[5399] & 0xFC, 0x20);
    assert_eq!(pls[0] & 0xFC, 0x00);
}

#[test]
fn generation_is_repeatable() {
    let cfg = &cfgs()[0];
    let mut first = [0u8; 7200];
    let mut second = [0u8; 7200];
    cfg.gen_pulse_train(&mut first);
    cfg.gen_pulse_train(&mut second);
    assert_eq!(first.to_vec(), second.to_vec());
    cfg.gen_pulse_train(&mut second);
    assert_eq!(first.to_vec(), second.to_vec());
}

#[test]
fn wider_samples_hold_the_same_bits() {
    let cfg = &cfgs()[0];
    let mut narrow = [0u8; 7200];
    let mut middle = [0xAB00u16; 7200];
    let mut wide = [0xDEAD_BE00u32; 7200];
    cfg.gen_pulse_train(&mut narrow);
    cfg.gen_pulse_train(&mut middle);
    cfg.gen_pulse_train(&mut wide);
    for angle in 0..7200 {
        assert_eq!(middle[angle], 0xAB00 | narrow[angle] as u16);
        assert_eq!(wide[angle], 0xDEAD_BE00 | narrow[angle] as u32);
    }
}
