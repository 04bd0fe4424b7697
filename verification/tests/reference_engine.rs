use engcfg::level::Level;
use engcfg::table::cfgs;
use engcfg::word::PulseWord;

fn generated() -> [u8; 7200] {
    let mut pls = [0u8; 7200];
    cfgs()[0].gen_pulse_train(&mut pls);
    pls
}

#[test]
fn tdc_test() {
    let cases: [(usize, usize, bool); 18] = [
        (657, 0, false),
        (658, 0, true),
        (659, 0, false),
        (1857, 1, false),
        (1858, 1, true),
        (1859, 1, false),
        (3057, 2, false),
        (3058, 2, true),
        (3059, 2, false),
        (4257, 3, false),
        (4258, 3, true),
        (4259, 3, false),
        (5457, 4, false),
        (5458, 4, true),
        (5459, 4, false),
        (6657, 5, false),
        (6658, 5, true),
        (6659, 5, false),
    ];
    let pls = generated();
    for (angle, tdc, expected) in cases {
        assert_eq!(expected, pls[angle] & (1 << (tdc + 2)) != 0, "angle {angle} tdc {tdc}");
        assert_eq!(expected, pls[angle].get_tdc(tdc) == Level::High);
    }
}

#[test]
fn cam_test() {
    let cases: [(usize, bool); 25] = [
        (0, true),
        (1, true),
        (290, false),
        (388, false),
        (390, true),
        (1190, false),
        (1288, false),
        (1290, true),
        (1490, false),
        (1590, true),
        (2090, false),
        (2190, true),
        (2690, false),
        (2790, true),
        (3890, false),
        (3990, true),
        (5090, false),
        (5190, true),
        (5690, false),
        (5790, true),
        (6290, false),
        (6390, true),
        (6590, false),
        (6690, true),
        (7199, true),
    ];
    let pls = generated();
    for (angle, expected) in cases {
        assert_eq!(expected, pls[angle] & 1 != 0, "angle {angle}");
        assert_eq!(expected, pls[angle].get_cam() == Level::High);
    }
}

#[test]
fn crk_gap_test() {
    let cases: [(usize, bool); 8] = [
        (3449, false),
        (3481, true),
        (3599, true),
        (3601, false),
        (7049, false),
        (7081, true),
        (7199, true),
        (0, false),
    ];
    let pls = generated();
    for (angle, expected) in cases {
        assert_eq!(expected, pls[angle] & 2 != 0, "angle {angle}");
        assert_eq!(expected, pls[angle].get_crk() == Level::High);
    }
}

#[test]
fn cam_edge_shows_one_sample_later() {
    let pls = generated();
    assert_eq!(pls[288] & 1, 1);
    assert_eq!(pls[289] & 1, 1);
    assert_eq!(pls[290] & 1, 0);
    assert_eq!(pls[389] & 1, 0);
    assert_eq!(pls[390] & 1, 1);
}

#[test]
fn crank_gap_shows_one_sample_after_its_first_angle() {
    let pls = generated();
    // The gap of this wheel covers the angles 3480..3600 of each revolution.
    assert_eq!(pls[3450] & 2, 0);
    assert_eq!(pls[3451] & 2, 2);
    assert_eq!(pls[3480] & 2, 2);
    for angle in 3481..=3600 {
        assert_eq!(pls[angle] & 2, 2, "angle {angle}");
    }
    assert_eq!(pls[3601] & 2, 0);
    for angle in 7081..7200 {
        assert_eq!(pls[angle] & 2, 2, "angle {angle}");
    }
}

#[test]
fn reference_table_entry() {
    let table = cfgs();
    let cfg = &table[0];
    assert_eq!(cfg.ref_to_tdc0, 658);
    assert_eq!(cfg.nr_of_cyl.val(), 6);
    assert_eq!(cfg.crk.nr_of_teeth(), 60);
    assert_eq!(cfg.crk.nr_of_missing_teeth(), 2);
    assert_eq!(cfg.crk.first_level(), Level::Low);
    assert_eq!(cfg.cam.first_level, Level::High);
    assert_eq!(cfg.cam.ev_angles[0], 289);
    assert_eq!(cfg.cam.ev_angles[19], 6689);
    assert!(cfg.cam.is_valid());
    assert_eq!(cfg.validate(), Ok(()));
}

#[test]
fn exact_words_of_the_reference_engine() {
    let pls = generated();
    // cam high, crank low, no marker
    assert_eq!(pls[0], 0b0000_0001);
    // cam high, crank high (first half tooth passed at 30), no marker
    assert_eq!(pls[31], 0b0000_0011);
    // cam low after the edge at 289, crank low, marker of cylinder 0 at 658
    assert_eq!(pls[658] & 0b1111_1100, 0b0000_0100);
    assert_eq!(pls[1858] & 0b1111_1100, 0b0000_1000);
    assert_eq!(pls[3058] & 0b1111_1100, 0b0001_0000);
    assert_eq!(pls[4258] & 0b1111_1100, 0b0010_0000);
    assert_eq!(pls[5458] & 0b1111_1100, 0b0100_0000);
    assert_eq!(pls[6658] & 0b1111_1100, 0b1000_0000);
}
