//! Small named starting patterns, each a rectangle of cells stored row by row.

use vstd::prelude::*;
use crate::simulation::payload_valid;

verus! {

/// A rectangle of cells, row by row, one byte 0 or 1 per cell.
pub struct Pattern {
    pub data: Vec<u8>,
    pub width: u32,
    pub height: u32,
}

impl Pattern {
    pub open spec fn wf(&self) -> bool {
        payload_valid(self.data@, self.width as int, self.height as int)
    }
}

/// The blinker: a vertical bar of three, period 2.
pub fn get_blinker() -> (p: Pattern)
    ensures
        p.wf(),
        p.width == 3,
        p.height == 3,
        p.data@ == seq![0u8, 1, 0, 0, 1, 0, 0, 1, 0],
{
    let p = Pattern { data: vec![0, 1, 0, 0, 1, 0, 0, 1, 0], width: 3, height: 3 };
    assert(p.data@ =~= seq![0u8, 1, 0, 0, 1, 0, 0, 1, 0]);
    p
}

/// The loaf: a still life.
pub fn get_loaf() -> (p: Pattern)
    ensures
        p.wf(),
        p.width == 4,
        p.height == 4,
        p.data@ == seq![
            0u8, 1, 1, 0,
            1, 0, 0, 1,
            0, 1, 0, 1,
            0, 0, 1, 0,
        ],
{
    let data: Vec<u8> = vec![
        0, 1, 1, 0,
        1, 0, 0, 1,
        0, 1, 0, 1,
        0, 0, 1, 0,
    ];
    let p = Pattern { data, width: 4, height: 4 };
    assert(p.data@ =~= seq![
        0u8, 1, 1, 0,
        1, 0, 0, 1,
        0, 1, 0, 1,
        0, 0, 1, 0,
    ]);
    p
}

/// The toad: an oscillator of period 2.
pub fn get_toad() -> (p: Pattern)
    ensures
        p.wf(),
        p.width == 4,
        p.height == 4,
        p.data@ == seq![
            0u8, 0, 1, 0,
            1, 0, 0, 1,
            1, 0, 0, 1,
            0, 1, 0, 0,
        ],
{
    let data: Vec<u8> = vec![
        0, 0, 1, 0,
        1, 0, 0, 1,
        1, 0, 0, 1,
        0, 1, 0, 0,
    ];
    let p = Pattern { data, width: 4, height: 4 };
    assert(p.data@ =~= seq![
        0u8, 0, 1, 0,
        1, 0, 0, 1,
        1, 0, 0, 1,
        0, 1, 0, 0,
    ]);
    p
}

/// The light-weight spaceship.
pub fn get_light_weight_spaceship() -> (p: Pattern)
    ensures
        p.wf(),
        p.width == 5,
        p.height == 4,
        p.data@ == seq![
            0u8, 1, 1, 1, 1,
            1, 0, 0, 0, 1,
            0, 0, 0, 0, 1,
            1, 0, 0, 1, 0,
        ],
{
    let data: Vec<u8> = vec![
        0, 1, 1, 1, 1,
        1, 0, 0, 0, 1,
        0, 0, 0, 0, 1,
        1, 0, 0, 1, 0,
    ];
    let p = Pattern { data, width: 5, height: 4 };
    assert(p.data@ =~= seq![
        0u8, 1, 1, 1, 1,
        1, 0, 0, 0, 1,
        0, 0, 0, 0, 1,
        1, 0, 0, 1, 0,
    ]);
    p
}

/// The middle-weight spaceship.
pub fn get_middle_weight_spaceship() -> (p: Pattern)
    ensures
        p.wf(),
        p.width == 6,
        p.height == 5,
        p.data@ == seq![
            0u8, 0, 1, 0, 0, 0,
            1, 0, 0, 0, 1, 0,
            0, 0, 0, 0, 0, 1,
            1, 0, 0, 0, 0, 1,
            0, 1, 1, 1, 1, 1,
        ],
{
    let data: Vec<u8> = vec![
        0, 0, 1, 0, 0, 0,
        1, 0, 0, 0, 1, 0,
        0, 0, 0, 0, 0, 1,
        1, 0, 0, 0, 0, 1,
        0, 1, 1, 1, 1, 1,
    ];
    let p = Pattern { data, width: 6, height: 5 };
    assert(p.data@ =~= seq![
        0u8, 0, 1, 0, 0, 0,
        1, 0, 0, 0, 1, 0,
        0, 0, 0, 0, 0, 1,
        1, 0, 0, 0, 0, 1,
        0, 1, 1, 1, 1, 1,
    ]);
    p
}

/// The heavy-weight spaceship.
pub fn get_heavy_weight_spaceship() -> (p: Pattern)
    ensures
        p.wf(),
        p.width == 7,
        p.height == 5,
        p.data@ == seq![
            0u8, 0, 1, 1, 0, 0, 0,
            1, 0, 0, 0, 0, 1, 0,
            0, 0, 0, 0, 0, 0, 1,
            1, 0, 0, 0, 0, 0, 1,
            0, 1, 1, 1, 1, 1, 1,
        ],
{
    let data: Vec<u8> = vec![
        0, 0, 1, 1, 0, 0, 0,
        1, 0, 0, 0, 0, 1, 0,
        0, 0, 0, 0, 0, 0, 1,
        1, 0, 0, 0, 0, 0, 1,
        0, 1, 1, 1, 1, 1, 1,
    ];
    let p = Pattern { data, width: 7, height: 5 };
    assert(p.data@ =~= seq![
        0u8, 0, 1, 1, 0, 0, 0,
        1, 0, 0, 0, 0, 1, 0,
        0, 0, 0, 0, 0, 0, 1,
        1, 0, 0, 0, 0, 0, 1,
        0, 1, 1, 1, 1, 1, 1,
    ]);
    p
}

/// The penta-decathlon: an oscillator of period 15.
pub fn get_penta_decathlon() -> (p: Pattern)
    ensures
        p.wf(),
        p.width == 9,
        p.height == 10,
        p.data@ == seq![
            0u8, 0, 0, 1, 1, 1, 0, 0, 0,
            0, 0, 1, 0, 0, 0, 1, 0, 0,
            0, 1, 0, 0, 0, 0, 0, 1, 0,
            0, 0, 0, 0, 0, 0, 0, 0, 0,
            1, 0, 0, 0, 0, 0, 0, 0, 1,
            1, 0, 0, 0, 0, 0, 0, 0, 1,
            0, 0, 0, 0, 0, 0, 0, 0, 0,
            0, 1, 0, 0, 0, 0, 0, 1, 0,
            0, 0, 1, 0, 0, 0, 1, 0, 0,
            0, 0, 0, 1, 1, 1, 0, 0, 0,
        ],
{
    let data: Vec<u8> = vec![
        0, 0, 0, 1, 1, 1, 0, 0, 0,
        0, 0, 1, 0, 0, 0, 1, 0, 0,
        0, 1, 0, 0, 0, 0, 0, 1, 0,
        0, 0, 0, 0, 0, 0, 0, 0, 0,
        1, 0, 0, 0, 0, 0, 0, 0, 1,
        1, 0, 0, 0, 0, 0, 0, 0, 1,
        0, 0, 0, 0, 0, 0, 0, 0, 0,
        0, 1, 0, 0, 0, 0, 0, 1, 0,
        0, 0, 1, 0, 0, 0, 1, 0, 0,
        0, 0, 0, 1, 1, 1, 0, 0, 0,
    ];
    let p = Pattern { data, width: 9, height: 10 };
    assert(p.data@ =~= seq![
        0u8, 0, 0, 1, 1, 1, 0, 0, 0,
        0, 0, 1, 0, 0, 0, 1, 0, 0,
        0, 1, 0, 0, 0, 0, 0, 1, 0,
        0, 0, 0, 0, 0, 0, 0, 0, 0,
        1, 0, 0, 0, 0, 0, 0, 0, 1,
        1, 0, 0, 0, 0, 0, 0, 0, 1,
        0, 0, 0, 0, 0, 0, 0, 0, 0,
        0, 1, 0, 0, 0, 0, 0, 1, 0,
        0, 0, 1, 0, 0, 0, 1, 0, 0,
        0, 0, 0, 1, 1, 1, 0, 0, 0,
    ]);
    p
}

} // verus!
