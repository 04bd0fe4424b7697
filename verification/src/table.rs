//! The engines that come with the library.

use crate::cam::Cam;
use crate::crank::CrkType;
use crate::engine::{CylNr, EngCfg};
use crate::level::Level;
use vstd::prelude::*;

verus! {

/// The edge angles of the camshaft wheel of the six-cylinder engine.
pub open spec fn six_cyl_cam_edges() -> Seq<i16> {
    seq![
        289i16,
        389i16,
        1189i16,
        1289i16,
        1489i16,
        1589i16,
        2089i16,
        2189i16,
        2689i16,
        2789i16,
        3889i16,
        3989i16,
        5089i16,
        5189i16,
        5689i16,
        5789i16,
        6289i16,
        6389i16,
        6589i16,
        6689i16,
    ]
}

/// The table of known engines. Its one entry is a six-cylinder engine with an
/// inverted crankshaft wheel of 60 teeth, 2 of them missing.
pub fn cfgs() -> (table: [EngCfg; 1])
    ensures
        table@[0].wf(),
        table@[0].cam.first_level == Level::High,
        table@[0].cam.ev_angles@ == six_cyl_cam_edges(),
        table@[0].crk == CrkType::Crk60m2Inv,
        table@[0].ref_to_tdc0 == 658,
        table@[0].nr_of_cyl == CylNr::Cyl6,
{
    let ev_angles: [i16; 20] = [
        289,
        389,
        1189,
        1289,
        1489,
        1589,
        2089,
        2189,
        2689,
        2789,
        3889,
        3989,
        5089,
        5189,
        5689,
        5789,
        6289,
        6389,
        6589,
        6689,
    ];
    proof {
        assert(ev_angles@ =~= six_cyl_cam_edges());
    }
    [
        EngCfg {
            cam: Cam { first_level: Level::High, ev_angles },
            crk: CrkType::Crk60m2Inv,
            ref_to_tdc0: 658,
            nr_of_cyl: CylNr::Cyl6,
        },
    ]
}

} // verus!
