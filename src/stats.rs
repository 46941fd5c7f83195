use vstd::prelude::*;

verus! {

/// Stats are `i32` values that saturate at the bounds of the type.
pub open spec fn clamp(x: int) -> int {
    if x < i32::MIN {
        i32::MIN as int
    } else if x > i32::MAX {
        i32::MAX as int
    } else {
        x
    }
}

/// The damage that an attack deals through a defense: never below zero.
pub open spec fn damage(attack: int, defense: int) -> int {
    if attack > defense {
        attack - defense
    } else {
        0
    }
}

pub fn add_stat(a: i32, b: i32) -> (r: i32)
    ensures
        r == clamp(a + b),
{
    let s: i64 = a as i64 + b as i64;
    if s < i32::MIN as i64 {
        i32::MIN
    } else if s > i32::MAX as i64 {
        i32::MAX
    } else {
        s as i32
    }
}

pub fn add_stat3(a: i32, b: i32, c: i32) -> (r: i32)
    ensures
        r == clamp(a + b + c),
{
    let s: i64 = a as i64 + b as i64 + c as i64;
    if s < i32::MIN as i64 {
        i32::MIN
    } else if s > i32::MAX as i64 {
        i32::MAX
    } else {
        s as i32
    }
}

/// `health` less the damage that `attack` deals through `defense`.
pub fn take_damage(health: i32, attack: i32, defense: i32) -> (r: i32)
    ensures
        r == clamp(health - damage(attack as int, defense as int)),
{
    let a: i64 = attack as i64;
    let d: i64 = defense as i64;
    let hit: i64 = if a > d {
        a - d
    } else {
        0
    };
    let s: i64 = health as i64 - hit;
    if s < i32::MIN as i64 {
        i32::MIN
    } else {
        s as i32
    }
}

} // verus!
