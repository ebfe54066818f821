use vstd::prelude::*;
use crate::registry::Position;

verus! {

/// The player's speed, in thousandths of a field unit per millisecond
/// (100 field units per second).
pub const SPEED: i64 = 100;

/// Which movement directions are held on this tick. Each is on when any key
/// bound to it is held; opposite directions may both be on.
#[derive(Clone, Copy, Debug, PartialEq, Eq, Structural)]
pub struct HeldKeys {
    pub up: bool,
    pub down: bool,
    pub left: bool,
    pub right: bool,
}

/// +1, -1 or 0 along one axis: each held direction counts, so opposite
/// directions cancel.
pub open spec fn axis(plus: bool, minus: bool) -> int {
    (if plus { 1int } else { 0int }) - (if minus { 1int } else { 0int })
}

/// Where the player's x lands after `delta` milliseconds with `keys` held.
pub open spec fn moved_x(p: Position, keys: HeldKeys, delta: nat) -> int {
    p.x + axis(keys.right, keys.left) * SPEED * delta
}

/// Where the player's y lands after `delta` milliseconds with `keys` held.
pub open spec fn moved_y(p: Position, keys: HeldKeys, delta: nat) -> int {
    p.y + axis(keys.up, keys.down) * SPEED * delta
}

/// Whether the move lands within the range of the coordinates.
pub open spec fn motion_fits_spec(p: Position, keys: HeldKeys, delta: nat) -> bool {
    &&& i64::MIN <= moved_x(p, keys, delta) <= i64::MAX
    &&& i64::MIN <= moved_y(p, keys, delta) <= i64::MAX
}

fn axis_step(plus: bool, minus: bool, step: i128) -> (r: i128)
    requires
        0 <= step <= u64::MAX * 100,
    ensures
        r == axis(plus, minus) * step,
        -step <= r <= step,
{
    if plus && !minus {
        assert(axis(plus, minus) == 1);
        assert(axis(plus, minus) * step == step) by (nonlinear_arith)
            requires
                axis(plus, minus) == 1,
        ;
        step
    } else if minus && !plus {
        assert(axis(plus, minus) == -1);
        assert(axis(plus, minus) * step == -step) by (nonlinear_arith)
            requires
                axis(plus, minus) == -1,
        ;
        -step
    } else {
        assert(axis(plus, minus) == 0);
        assert(axis(plus, minus) * step == 0) by (nonlinear_arith)
            requires
                axis(plus, minus) == 0,
        ;
        0
    }
}

/// Whether moving from `p` with `keys` held for `delta_ms` stays within the
/// range of the coordinates.
pub fn motion_fits(p: Position, keys: HeldKeys, delta_ms: u64) -> (r: bool)
    ensures
        r == motion_fits_spec(p, keys, delta_ms as nat),
{
    assert(0 <= delta_ms * 100 <= u64::MAX * 100) by (nonlinear_arith)
        requires
            0 <= delta_ms <= u64::MAX,
    ;
    let step: i128 = (delta_ms as i128) * (SPEED as i128);
    let x = p.x as i128 + axis_step(keys.right, keys.left, step);
    let y = p.y as i128 + axis_step(keys.up, keys.down, step);
    proof {
        assert(axis(keys.right, keys.left) * step == axis(keys.right, keys.left) * SPEED * delta_ms)
            by (nonlinear_arith)
            requires step == delta_ms * SPEED;
        assert(axis(keys.up, keys.down) * step == axis(keys.up, keys.down) * SPEED * delta_ms)
            by (nonlinear_arith)
            requires step == delta_ms * SPEED;
    }
    i64::MIN as i128 <= x && x <= i64::MAX as i128 && i64::MIN as i128 <= y && y
        <= i64::MAX as i128
}

/// Moves `p` by the held directions at `SPEED` for `delta_ms`; there is no
/// boundary, the player may leave the visible field.
pub fn move_position(p: Position, keys: HeldKeys, delta_ms: u64) -> (r: Position)
    requires
        motion_fits_spec(p, keys, delta_ms as nat),
    ensures
        r.x == moved_x(p, keys, delta_ms as nat),
        r.y == moved_y(p, keys, delta_ms as nat),
{
    assert(0 <= delta_ms * 100 <= u64::MAX * 100) by (nonlinear_arith)
        requires
            0 <= delta_ms <= u64::MAX,
    ;
    let step: i128 = (delta_ms as i128) * (SPEED as i128);
    let x = p.x as i128 + axis_step(keys.right, keys.left, step);
    let y = p.y as i128 + axis_step(keys.up, keys.down, step);
    proof {
        assert(axis(keys.right, keys.left) * step == axis(keys.right, keys.left) * SPEED * delta_ms)
            by (nonlinear_arith)
            requires step == delta_ms * SPEED;
        assert(axis(keys.up, keys.down) * step == axis(keys.up, keys.down) * SPEED * delta_ms)
            by (nonlinear_arith)
            requires step == delta_ms * SPEED;
    }
    Position { x: x as i64, y: y as i64 }
}

} // verus!
