//! Volume arithmetic: from a sink's range and current state and a requested
//! action to a command payload or a status summary.
use vstd::prelude::*;
use vstd::arithmetic::div_mod::{
    lemma_div_is_ordered, lemma_fundamental_div_mod, lemma_fundamental_div_mod_converse,
};
use crate::text::copy_levels;

verus! {

/// Fixed-point scale: a volume of `SCALE` units is `1.0`, and a percentage of
/// `SCALE` units is one percent.
pub const SCALE: i64 = 1_000_000;

/// The declared range of a node's channel volumes.
#[derive(Clone, Copy, Debug, PartialEq, Eq, Structural)]
pub struct VolumeRange {
    pub default: i64,
    pub min: i64,
    pub max: i64,
}

/// The live volume state of a node.
pub struct VolumeState {
    pub volume: i64,
    pub mute: bool,
    pub channel_volumes: Vec<i64>,
}

pub struct VolumeStateView {
    pub volume: i64,
    pub mute: bool,
    pub channel_volumes: Seq<i64>,
}

impl View for VolumeState {
    type V = VolumeStateView;

    open spec fn view(&self) -> VolumeStateView {
        VolumeStateView {
            volume: self.volume,
            mute: self.mute,
            channel_volumes: self.channel_volumes@,
        }
    }
}

impl VolumeState {
    /// A copy of this state.
    pub fn duplicate(&self) -> (r: VolumeState)
        ensures
            r@ == self@,
    {
        VolumeState {
            volume: self.volume,
            mute: self.mute,
            channel_volumes: copy_levels(&self.channel_volumes),
        }
    }
}

/// A requested change.
#[derive(Clone, Copy, Debug, PartialEq, Eq, Structural)]
pub enum Action {
    MuteOn,
    MuteOff,
    MuteToggle,
    /// Change every channel by a signed percentage of the range, in
    /// millionths of a percent.
    ChangeBy(i64),
}

/// What the control command is given: `volume` and `channel_volumes` are left
/// out of the encoding when `None`.
pub struct CommandPayload {
    pub mute: bool,
    pub volume: Option<i64>,
    pub channel_volumes: Option<Vec<i64>>,
}

pub struct CommandPayloadView {
    pub mute: bool,
    pub volume: Option<i64>,
    pub channel_volumes: Option<Seq<i64>>,
}

impl View for CommandPayload {
    type V = CommandPayloadView;

    open spec fn view(&self) -> CommandPayloadView {
        CommandPayloadView {
            mute: self.mute,
            volume: self.volume,
            channel_volumes: match self.channel_volumes {
                Some(v) => Some(v@),
                None => None,
            },
        }
    }
}

/// The status summary of a sink.
#[derive(Clone, Copy, Debug, PartialEq, Eq, Structural)]
pub enum StatusView {
    Muted,
    /// The first channel's volume as a whole percentage of the range span.
    Level(i128),
}

/// Integer division rounded toward zero.
pub open spec fn div_toward_zero(a: int, d: int) -> int {
    if a >= 0 {
        a / d
    } else {
        -((-a) / d)
    }
}

pub open spec fn clamp(x: int, lo: int, hi: int) -> int {
    if x < lo {
        lo
    } else if x > hi {
        hi
    } else {
        x
    }
}

/// The change of a channel for `percent` millionths of a percent of the span.
pub open spec fn increment(percent: int, range: VolumeRange) -> int {
    div_toward_zero(percent * (range.max - range.min), 100 * SCALE)
}

/// The new volume of a channel at `old` after a change by `percent`.
pub open spec fn changed_level(old: int, percent: int, range: VolumeRange) -> int {
    clamp(old + increment(percent, range), range.min as int, range.max as int)
}

pub open spec fn changed_levels(levels: Seq<i64>, percent: int, range: VolumeRange) -> Seq<i64> {
    levels.map_values(|v: i64| changed_level(v as int, percent, range) as i64)
}

/// The payload that `action` asks for, given the current state.
pub open spec fn payload_for(
    range: VolumeRange,
    state: VolumeStateView,
    action: Action,
) -> CommandPayloadView {
    match action {
        Action::MuteOn => CommandPayloadView { mute: true, volume: None, channel_volumes: None },
        Action::MuteOff => CommandPayloadView { mute: false, volume: None, channel_volumes: None },
        Action::MuteToggle => CommandPayloadView {
            mute: !state.mute,
            volume: None,
            channel_volumes: None,
        },
        Action::ChangeBy(p) => CommandPayloadView {
            mute: false,
            volume: None,
            channel_volumes: Some(changed_levels(state.channel_volumes, p as int, range)),
        },
    }
}

/// `a / d` rounded to the nearest integer, ties to the even one.
pub open spec fn round_ratio(a: int, d: int) -> int {
    let q = a / d;
    let r = a % d;
    if 2 * r > d {
        q + 1
    } else if 2 * r < d {
        q
    } else if q % 2 == 0 {
        q
    } else {
        q + 1
    }
}

/// The status of a sink: the mute indicator, or the first channel's volume
/// relative to the span (the minimum is not subtracted), as a whole percentage.
pub open spec fn status_of(range: VolumeRange, state: VolumeStateView) -> StatusView {
    if state.mute {
        StatusView::Muted
    } else {
        StatusView::Level(
            round_ratio(state.channel_volumes[0] * 100, range.max - range.min) as i128,
        )
    }
}

/// The change of a channel for `percent`, rounded toward zero.
fn increment_of(percent: i64, range: VolumeRange) -> (r: i128)
    requires
        range.min <= range.max,
    ensures
        r == increment(percent as int, range),
        -0x1_0000_0000_0000_0000_0000_0000_0000 <= r <= 0x1_0000_0000_0000_0000_0000_0000_0000,
{
    let span: i128 = range.max as i128 - range.min as i128;
    assert(0 <= span < 0x1_0000_0000_0000_0000);
    assert(-0x8000_0000_0000_0000 <= percent <= 0x7fff_ffff_ffff_ffff);
    assert(-0x8000_0000_0000_0000_0000_0000_0000_0000 <= (percent as int) * span
        <= 0x8000_0000_0000_0000_0000_0000_0000_0000) by (nonlinear_arith)
        requires
            0 <= span < 0x1_0000_0000_0000_0000,
            -0x8000_0000_0000_0000 <= percent <= 0x7fff_ffff_ffff_ffff,
    ;
    let d: u128 = 100 * (SCALE as u128);
    if percent >= 0 {
        assert(0 <= (percent as int) * span) by (nonlinear_arith)
            requires
                0 <= span,
                0 <= percent,
        ;
        let prod: u128 = (percent as u128) * (span as u128);
        proof {
            lemma_div_is_ordered(prod as int, 0x8000_0000_0000_0000_0000_0000_0000_0000, d as int);
        }
        (prod / d) as i128
    } else {
        assert((percent as int) * span <= 0) by (nonlinear_arith)
            requires
                0 <= span,
                percent < 0,
        ;
        let m: u128 = (-(percent as i128)) as u128;
        assert(m * span == -((percent as int) * span)) by (nonlinear_arith)
            requires
                m == -(percent as int),
        ;
        let prod: u128 = m * (span as u128);
        proof {
            lemma_div_is_ordered(prod as int, 0x8000_0000_0000_0000_0000_0000_0000_0000, d as int);
        }
        -((prod / d) as i128)
    }
}

/// The new volume of one channel, kept within the range.
pub fn change_level(old: i64, percent: i64, range: VolumeRange) -> (r: i64)
    requires
        range.min <= range.max,
    ensures
        r == changed_level(old as int, percent as int, range),
{
    let v: i128 = old as i128 + increment_of(percent, range);
    if v < range.min as i128 {
        range.min
    } else if v > range.max as i128 {
        range.max
    } else {
        v as i64
    }
}

/// The payload that carries out `action` on a sink in state `state`.
///
/// A change by a percentage always sends `mute: false`, whatever the current
/// mute flag: a change while muted unmutes.
pub fn apply_action(range: VolumeRange, state: &VolumeState, action: Action) -> (r: CommandPayload)
    requires
        range.min <= range.max,
    ensures
        r@ == payload_for(range, state@, action),
        r.volume is None,
        action == Action::MuteOn ==> r.mute && r.channel_volumes is None,
        action == Action::MuteOff ==> !r.mute && r.channel_volumes is None,
        action == Action::MuteToggle ==> r.mute == !state.mute && r.channel_volumes is None,
{
    match action {
        Action::MuteOn => CommandPayload { mute: true, volume: None, channel_volumes: None },
        Action::MuteOff => CommandPayload { mute: false, volume: None, channel_volumes: None },
        Action::MuteToggle => CommandPayload {
            mute: !state.mute,
            volume: None,
            channel_volumes: None,
        },
        Action::ChangeBy(p) => {
            let levels = &state.channel_volumes;
            let mut out: Vec<i64> = Vec::with_capacity(levels.len());
            let mut i: usize = 0;
            while i < levels.len()
                invariant
                    range.min <= range.max,
                    i <= levels@.len(),
                    out@ =~= changed_levels(levels@, p as int, range).take(i as int),
                decreases levels@.len() - i,
            {
                let n = change_level(levels[i], p, range);
                out.push(n);
                i = i + 1;
            }
            assert(out@ =~= changed_levels(levels@, p as int, range));
            CommandPayload { mute: false, volume: None, channel_volumes: Some(out) }
        },
    }
}

/// The status summary of a sink.
pub fn status(range: VolumeRange, state: &VolumeState) -> (r: StatusView)
    requires
        range.min < range.max,
        state.channel_volumes@.len() > 0,
    ensures
        r == status_of(range, state@),
{
    if state.mute {
        return StatusView::Muted;
    }
    let a: i128 = state.channel_volumes[0] as i128 * 100;
    let d: i128 = range.max as i128 - range.min as i128;
    let du: u128 = d as u128;
    let q: i128;
    let rem: i128;
    if a >= 0 {
        let au: u128 = a as u128;
        q = (au / du) as i128;
        rem = (au % du) as i128;
        proof {
            lemma_fundamental_div_mod(a as int, d as int);
            assert(q * d == d * q) by (nonlinear_arith);
            lemma_fundamental_div_mod_converse(a as int, d as int, q as int, rem as int);
        }
    } else {
        let mu: u128 = (-a) as u128;
        let q0: u128 = mu / du;
        let r0: u128 = mu % du;
        proof {
            lemma_fundamental_div_mod(mu as int, du as int);
            assert(q0 * du == du * q0) by (nonlinear_arith);
        }
        if r0 == 0 {
            q = -(q0 as i128);
            rem = 0;
        } else {
            q = -(q0 as i128) - 1;
            rem = d - (r0 as i128);
        }
        proof {
            assert(a == (q as int) * d + rem) by (nonlinear_arith)
                requires
                    -a == q0 * d + r0,
                    r0 == 0 ==> q == -q0 && rem == 0,
                    r0 != 0 ==> q == -q0 - 1 && rem == d - r0,
            ;
            lemma_fundamental_div_mod_converse(a as int, d as int, q as int, rem as int);
        }
    }
    let level: i128 = if 2 * rem > d {
        q + 1
    } else if 2 * rem < d {
        q
    } else if q % 2 == 0 {
        q
    } else {
        q + 1
    };
    StatusView::Level(level)
}

} // verus!
