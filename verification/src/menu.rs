//! The battle command menu's option lists: which top-level commands are on
//! offer, and which called target each strikeable part stands for.

use vstd::prelude::*;
use crate::combat::CalledTarget;

verus! {

/// A top-level command.
#[derive(Debug, Clone, Copy, PartialEq, Eq, Structural)]
pub enum RootCmd {
    Attack,
    Utility,
    Reinforce,
    Regrow,
    Item,
    Hop,
    Stance,
    Pass,
}

pub open spec fn root_label(c: RootCmd) -> Seq<char> {
    match c {
        RootCmd::Attack => "Attack"@,
        RootCmd::Utility => "Utility"@,
        RootCmd::Reinforce => "Reinforce"@,
        RootCmd::Regrow => "Regrow limb"@,
        RootCmd::Item => "Item"@,
        RootCmd::Hop => "Ride another"@,
        RootCmd::Stance => "Orders"@,
        RootCmd::Pass => "Wait"@,
    }
}

impl RootCmd {
    pub fn label(self) -> (s: &'static str)
        ensures
            s@ == root_label(self),
    {
        match self {
            RootCmd::Attack => "Attack",
            RootCmd::Utility => "Utility",
            RootCmd::Reinforce => "Reinforce",
            RootCmd::Regrow => "Regrow limb",
            RootCmd::Item => "Item",
            RootCmd::Hop => "Ride another",
            RootCmd::Stance => "Orders",
            RootCmd::Pass => "Wait",
        }
    }
}

/// A strikeable spot on the target: its body, a bare limb, or a mounted graft.
#[derive(Debug, Clone, Copy, PartialEq, Eq, Structural)]
pub enum Part {
    Center,
    Limb(usize),
    Mount(usize),
}

impl Part {
    /// The called shot aimed at this part (none for the body's center).
    pub fn called(self) -> (c: Option<CalledTarget>)
        ensures
            c == match self {
                Part::Center => None,
                Part::Limb(li) => Some(CalledTarget::Limb(li)),
                Part::Mount(mi) => Some(CalledTarget::Mount(mi)),
            },
    {
        match self {
            Part::Center => None,
            Part::Limb(li) => Some(CalledTarget::Limb(li)),
            Part::Mount(mi) => Some(CalledTarget::Mount(mi)),
        }
    }
}

/// The top-level commands on offer: with no ridden unit only a hop;
/// otherwise attack, then each command the unit's state allows, then orders
/// and wait.
pub open spec fn root_menu(
    ridden: bool,
    has_utility: bool,
    has_severed_limb: bool,
    has_items: bool,
    fielded: usize,
) -> Seq<RootCmd> {
    if !ridden {
        seq![RootCmd::Hop]
    } else {
        seq![RootCmd::Attack]
            + (if has_utility { seq![RootCmd::Utility] } else { Seq::empty() })
            + seq![RootCmd::Reinforce]
            + (if has_severed_limb { seq![RootCmd::Regrow] } else { Seq::empty() })
            + (if has_items { seq![RootCmd::Item] } else { Seq::empty() })
            + (if fielded > 1 { seq![RootCmd::Hop] } else { Seq::empty() })
            + seq![RootCmd::Stance, RootCmd::Pass]
    }
}

/// The command list for the ridden unit's state: whether one is ridden, has
/// a triggerable utility graft, has a severed limb, holds usable items, and
/// how many friendly units still stand.
pub fn root_commands(
    ridden: bool,
    has_utility: bool,
    has_severed_limb: bool,
    has_items: bool,
    fielded: usize,
) -> (r: Vec<RootCmd>)
    ensures
        r@ == root_menu(ridden, has_utility, has_severed_limb, has_items, fielded),
{
    if !ridden {
        let mut only: Vec<RootCmd> = Vec::new();
        only.push(RootCmd::Hop);
        assert(only@ =~= seq![RootCmd::Hop]);
        return only;
    }
    let mut cmds: Vec<RootCmd> = Vec::new();
    cmds.push(RootCmd::Attack);
    if has_utility {
        cmds.push(RootCmd::Utility);
    }
    cmds.push(RootCmd::Reinforce);
    if has_severed_limb {
        cmds.push(RootCmd::Regrow);
    }
    if has_items {
        cmds.push(RootCmd::Item);
    }
    if fielded > 1 {
        cmds.push(RootCmd::Hop);
    }
    cmds.push(RootCmd::Stance);
    cmds.push(RootCmd::Pass);
    assert(cmds@ =~= root_menu(ridden, has_utility, has_severed_limb, has_items, fielded));
    cmds
}

} // verus!
