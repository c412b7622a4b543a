//! Movement keys.

use vstd::prelude::*;

use crate::packets::{unit_single, PlayerInput, Single};

verus! {

/// Which of the movement keys are held.
#[derive(Debug, Clone, Copy, PartialEq, Eq, Structural)]
pub struct MoveKeys {
    pub arrow_left: bool,
    pub key_a: bool,
    pub arrow_right: bool,
    pub key_d: bool,
    pub arrow_up: bool,
    pub key_w: bool,
    pub arrow_down: bool,
    pub key_s: bool,
}

/// How far an axis is pushed by the keys of its two ends.
pub open spec fn axis(positive: bool, negative: bool) -> int {
    (if positive {
        1int
    } else {
        0
    }) - (if negative {
        1int
    } else {
        0
    })
}

/// How far right the keys push.
pub open spec fn axis_x(keys: MoveKeys) -> int {
    axis(keys.arrow_right || keys.key_d, keys.arrow_left || keys.key_a)
}

/// How far up the keys push.
pub open spec fn axis_y(keys: MoveKeys) -> int {
    axis(keys.arrow_up || keys.key_w, keys.arrow_down || keys.key_s)
}

/// The input to send for the held keys. Only sent when a key is held that is
/// not offset by its opposite: avoids spamming zero-input datagrams.
pub fn send_input(keys: MoveKeys) -> (res: Option<PlayerInput>)
    ensures
        (match res {
            Some(input) => (axis_x(keys) != 0 || axis_y(keys) != 0) && input == (PlayerInput {
                dx: unit_single(axis_x(keys)),
                dy: unit_single(axis_y(keys)),
            }),
            None => axis_x(keys) == 0 && axis_y(keys) == 0,
        }),
{
    let mut dx: i8 = 0;
    let mut dy: i8 = 0;
    if keys.arrow_left || keys.key_a {
        dx = dx - 1;
    }
    if keys.arrow_right || keys.key_d {
        dx = dx + 1;
    }
    if keys.arrow_up || keys.key_w {
        dy = dy + 1;
    }
    if keys.arrow_down || keys.key_s {
        dy = dy - 1;
    }
    if dx == 0 && dy == 0 {
        return None;
    }
    Some(PlayerInput { dx: Single::unit(dx), dy: Single::unit(dy) })
}

/// Each axis goes where the keys push it: right or up if only such a key is held,
/// left or down if only one of those is, and nowhere otherwise. Either of the two
/// keys of a direction is enough.
pub proof fn law_keys_push(keys: MoveKeys)
    ensures
        ({
            let left = keys.arrow_left || keys.key_a;
            let right = keys.arrow_right || keys.key_d;
            let up = keys.arrow_up || keys.key_w;
            let down = keys.arrow_down || keys.key_s;
            &&& right && !left ==> axis_x(keys) == 1
            &&& left && !right ==> axis_x(keys) == -1
            &&& left == right ==> axis_x(keys) == 0
            &&& up && !down ==> axis_y(keys) == 1
            &&& down && !up ==> axis_y(keys) == -1
            &&& up == down ==> axis_y(keys) == 0
        }),
{
}

/// Opposite keys held together are as good as none: with all four directions
/// held nothing is sent, and a direction is offset by its opposite alone.
pub proof fn law_opposite_keys_cancel(keys: MoveKeys)
    ensures
        (keys.arrow_left || keys.key_a) && (keys.arrow_right || keys.key_d) ==> axis_x(keys) == 0,
        (keys.arrow_up || keys.key_w) && (keys.arrow_down || keys.key_s) ==> axis_y(keys) == 0,
        -1 <= axis_x(keys) <= 1,
        -1 <= axis_y(keys) <= 1,
{
}

} // verus!
