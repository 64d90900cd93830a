use vstd::prelude::*;
use crate::protocol::{
    SWRESET, SLPOUT, INVOFF, INVON, DISPON, MADCTL, COLMOD, FRMCTR2, GCTRL, VCOMS, LCMCTRL, VDVVRHEN, VRHS,
    VDVS, PWCTRL1, FRCTRL2, GMCTRP1, GMCTRN1,
};

verus! {

/// A digital line the driver drives besides the serial bus.
#[derive(PartialEq, Eq, Structural, Clone, Copy, Debug)]
pub enum Line {
    Reset,
    DataCommand,
    Backlight,
}

/// One step of a bring-up or shutdown sequence.
#[derive(PartialEq, Eq, Structural, Clone, Copy, Debug)]
pub enum Action {
    /// Drive a line high (`true`) or low.
    Drive(Line, bool),
    /// Send one command byte.
    Command(u8),
    /// Send one parameter byte.
    Data(u8),
    /// Hold for this many milliseconds before the next step.
    Wait(u32),
}

/// A command followed by its parameter bytes, one step each.
pub open spec fn cmd_steps(c: u8, params: Seq<u8>) -> Seq<Action> {
    seq![Action::Command(c)] + params.map_values(|d: u8| Action::Data(d))
}

/// The reset pulse: high, low, high, with 10 ms holds; nothing without a reset line.
pub open spec fn reset_script(has_reset: bool) -> Seq<Action> {
    if has_reset {
        seq![Action::Drive(Line::Reset, true), Action::Wait(10), Action::Drive(Line::Reset, false), Action::Wait(10),
             Action::Drive(Line::Reset, true), Action::Wait(10)]
    } else {
        seq![]
    }
}

/// The register settings written after the software reset, in order.
pub open spec fn settings_script() -> Seq<Action> {
    cmd_steps(MADCTL, seq![0x70u8])
        + cmd_steps(FRMCTR2, seq![0x0Cu8, 0x0C, 0x00, 0x33, 0x33])
        + cmd_steps(COLMOD, seq![0x05u8])
        + cmd_steps(GCTRL, seq![0x35u8])
        + cmd_steps(VCOMS, seq![0x13u8])
        + cmd_steps(LCMCTRL, seq![0x2Cu8])
        + cmd_steps(VDVVRHEN, seq![0x01u8])
        + cmd_steps(VRHS, seq![0x0Bu8])
        + cmd_steps(VDVS, seq![0x20u8])
        + cmd_steps(PWCTRL1, seq![0xA4u8, 0xA1])
        + cmd_steps(FRCTRL2, seq![0x0Fu8])
        + cmd_steps(GMCTRP1, seq![0x00u8, 0x03, 0x07, 0x08, 0x07, 0x15, 0x2A, 0x44, 0x42, 0x0A, 0x17, 0x18, 0x25, 0x27])
        + cmd_steps(GMCTRN1, seq![0x00u8, 0x03, 0x08, 0x07, 0x07, 0x23, 0x2A, 0x43, 0x42, 0x09, 0x18, 0x17, 0x25, 0x27])
}

/// The whole bring-up: reset pulse, software reset with a 150 ms settle, the
/// register settings, inversion on or off, sleep-out and display-on.
pub open spec fn init_script(has_reset: bool, invert: bool) -> Seq<Action> {
    reset_script(has_reset)
        + seq![Action::Command(SWRESET), Action::Wait(150)]
        + settings_script()
        + seq![Action::Command(if invert { INVON } else { INVOFF }), Action::Command(SLPOUT), Action::Command(DISPON)]
}

/// The shutdown: reset high, data/command low, a 1 ms hold, backlight high;
/// nothing without a reset line.
pub open spec fn cleanup_script(has_reset: bool) -> Seq<Action> {
    if has_reset {
        seq![Action::Drive(Line::Reset, true), Action::Drive(Line::DataCommand, false), Action::Wait(1),
             Action::Drive(Line::Backlight, true)]
    } else {
        seq![]
    }
}

/// Appends a command and its parameters.
fn push_cmd(v: &mut Vec<Action>, c: u8, params: &[u8])
    ensures
        final(v)@ == old(v)@ + cmd_steps(c, params@),
{
    let ghost start = v@;
    v.push(Action::Command(c));
    let mut i: usize = 0;
    while i < params.len()
        invariant
            i <= params@.len(),
            v@ == start + cmd_steps(c, params@.take(i as int)),
        decreases params@.len() - i,
    {
        v.push(Action::Data(params[i]));
        proof {
            assert(cmd_steps(c, params@.take(i + 1)) =~= cmd_steps(c, params@.take(i as int)).push(Action::Data(params@[i as int])));
        }
        i = i + 1;
    }
    assert(params@.take(params@.len() as int) =~= params@);
}

/// The reset pulse as steps.
pub fn reset_steps(has_reset: bool) -> (r: Vec<Action>)
    ensures
        r@ == reset_script(has_reset),
{
    let mut v: Vec<Action> = Vec::new();
    if has_reset {
        v.push(Action::Drive(Line::Reset, true));
        v.push(Action::Wait(10));
        v.push(Action::Drive(Line::Reset, false));
        v.push(Action::Wait(10));
        v.push(Action::Drive(Line::Reset, true));
        v.push(Action::Wait(10));
    }
    assert(v@ =~= reset_script(has_reset));
    v
}

/// The register settings as steps.
fn settings_steps(v: &mut Vec<Action>)
    ensures
        final(v)@ == old(v)@ + settings_script(),
{
    let ghost start = v@;
    let p0 = [0x70u8];
    let p1 = [0x0Cu8, 0x0C, 0x00, 0x33, 0x33];
    let p2 = [0x05u8];
    let p3 = [0x35u8];
    let p4 = [0x13u8];
    let p5 = [0x2Cu8];
    let p6 = [0x01u8];
    let p7 = [0x0Bu8];
    let p8 = [0x20u8];
    let p9 = [0xA4u8, 0xA1];
    let p10 = [0x0Fu8];
    let p11 = [0x00u8, 0x03, 0x07, 0x08, 0x07, 0x15, 0x2A, 0x44, 0x42, 0x0A, 0x17, 0x18, 0x25, 0x27];
    let p12 = [0x00u8, 0x03, 0x08, 0x07, 0x07, 0x23, 0x2A, 0x43, 0x42, 0x09, 0x18, 0x17, 0x25, 0x27];
    push_cmd(v, MADCTL, &p0);
    push_cmd(v, FRMCTR2, &p1);
    push_cmd(v, COLMOD, &p2);
    push_cmd(v, GCTRL, &p3);
    push_cmd(v, VCOMS, &p4);
    push_cmd(v, LCMCTRL, &p5);
    push_cmd(v, VDVVRHEN, &p6);
    push_cmd(v, VRHS, &p7);
    push_cmd(v, VDVS, &p8);
    push_cmd(v, PWCTRL1, &p9);
    push_cmd(v, FRCTRL2, &p10);
    push_cmd(v, GMCTRP1, &p11);
    push_cmd(v, GMCTRN1, &p12);
    assert(p0@ =~= seq![0x70u8]);
    assert(p1@ =~= seq![0x0Cu8, 0x0C, 0x00, 0x33, 0x33]);
    assert(p2@ =~= seq![0x05u8]);
    assert(p3@ =~= seq![0x35u8]);
    assert(p4@ =~= seq![0x13u8]);
    assert(p5@ =~= seq![0x2Cu8]);
    assert(p6@ =~= seq![0x01u8]);
    assert(p7@ =~= seq![0x0Bu8]);
    assert(p8@ =~= seq![0x20u8]);
    assert(p9@ =~= seq![0xA4u8, 0xA1]);
    assert(p10@ =~= seq![0x0Fu8]);
    assert(p11@ =~= seq![0x00u8, 0x03, 0x07, 0x08, 0x07, 0x15, 0x2A, 0x44, 0x42, 0x0A, 0x17, 0x18, 0x25, 0x27]);
    assert(p12@ =~= seq![0x00u8, 0x03, 0x08, 0x07, 0x07, 0x23, 0x2A, 0x43, 0x42, 0x09, 0x18, 0x17, 0x25, 0x27]);
    assert(v@ =~= start + settings_script());
}

/// The whole bring-up as steps.
pub fn init_steps(has_reset: bool, invert: bool) -> (r: Vec<Action>)
    ensures
        r@ == init_script(has_reset, invert),
{
    let mut v = reset_steps(has_reset);
    v.push(Action::Command(SWRESET));
    v.push(Action::Wait(150));
    settings_steps(&mut v);
    v.push(Action::Command(if invert { INVON } else { INVOFF }));
    v.push(Action::Command(SLPOUT));
    v.push(Action::Command(DISPON));
    assert(v@ =~= init_script(has_reset, invert));
    v
}

/// The shutdown as steps.
pub fn cleanup_steps(has_reset: bool) -> (r: Vec<Action>)
    ensures
        r@ == cleanup_script(has_reset),
{
    let mut v: Vec<Action> = Vec::new();
    if has_reset {
        v.push(Action::Drive(Line::Reset, true));
        v.push(Action::Drive(Line::DataCommand, false));
        v.push(Action::Wait(1));
        v.push(Action::Drive(Line::Backlight, true));
    }
    assert(v@ =~= cleanup_script(has_reset));
    v
}

} // verus!
