//! The kinds of creatures that walk the overworld and the directions and
//! animation modes of their sprites.

use vstd::prelude::*;

verus! {

#[derive(Clone, Copy, PartialEq, Eq, Debug, Structural)]
pub enum Direction {
    Down,
    Up,
    Left,
    Right,
}

#[derive(Clone, Copy, PartialEq, Eq, Debug, Structural)]
pub enum Animation {
    Running,
    Idle,
}

#[derive(Clone, Copy, PartialEq, Eq, Debug, Structural)]
pub enum Kind {
    Player,
    Zombie,
    Mummy,
    Beetle,
    Sphinx,
    Guardiao,
    Sentinela,
    Necroguardiao,
}

} // verus!
