//! Sync-to-paging hand-over of the mobile station: which sync event is
//! latched, when the paging chain starts and with which long-code state.
//!
//! The sub-chains and the long-code generator are run by the caller; this
//! type decides, from each sync event and block position, what to do next.
use vstd::prelude::*;

verus! {

/// Chips in 320 ms at 1.2288 Mcps.
pub const SR1_CHIPS_320MS: usize = 393216;
/// Chips per pilot PN offset step.
pub const PILOT_PN_OFFSET_CHIPS: usize = 64;

#[derive(Clone, Copy, Debug, PartialEq, Eq, Structural)]
pub enum MsState {
    /// Waiting for the first sync channel decode.
    Acquiring,
    /// Sync obtained, waiting for the paging start chip.
    SyncLocked,
    /// Paging chain running.
    PagingActive,
}

/// Paging channel data rate handed to the paging chain builder.
#[derive(Clone, Copy, Debug, PartialEq, Eq, Structural)]
pub enum PagingRate {
    Rate4800,
    Rate9600,
}

/// The fields of a sync channel event that the hand-over reads.
#[derive(Clone, Copy, Debug, PartialEq, Eq, Structural)]
pub struct SyncEvent {
    pub pilot_pn: u16,
    pub lc_state: u64,
    pub prat: u8,
    pub last_superframe_end_chip: usize,
}

/// What was latched from the first sync event.
#[derive(Clone, Copy, Debug, PartialEq, Eq, Structural)]
pub struct SyncInfo {
    pub pilot_pn: u16,
    pub lc_state: u64,
    pub prat: u8,
    /// Chip at which `lc_state` is valid and paging may begin.
    pub paging_start_chip: usize,
}

/// Cross-check of a sync event's long-code state against the previous one.
#[derive(Clone, Copy, Debug, PartialEq, Eq, Structural)]
pub enum LcCheck {
    /// First sync event: seed the checking generator with this state.
    Seed { lc_state: u64 },
    /// Advance the checking generator by `delta_chips` and compare its state
    /// with `lc_state`.
    Advance { delta_chips: usize, lc_state: u64 },
}

/// Start the paging chain with these parameters: the generator is seeded
/// with `lc_state` and advanced by `lc_gap_chips` before use.
#[derive(Clone, Copy, Debug, PartialEq, Eq, Structural)]
pub struct PagingStart {
    pub pilot_pn: u16,
    pub lc_state: u64,
    pub lc_gap_chips: usize,
    pub rate: PagingRate,
}

pub struct MobileStation {
    pub state: MsState,
    pub sync_info: Option<SyncInfo>,
    pub force_start_paging_on_sync_lock: bool,
    /// Paging start chip of the previous sync event, once one was seen.
    pub lc_verify_prev_chip: Option<usize>,
}

/// Chip at which a sync event's long-code state is valid: 320 ms past the end
/// of the last superframe, less the pilot PN offset.
pub open spec fn spec_paging_start_chip(ev: SyncEvent) -> int {
    ev.last_superframe_end_chip + SR1_CHIPS_320MS - ev.pilot_pn * PILOT_PN_OFFSET_CHIPS
}

/// The sync events whose paging start chip is a valid chip index.
pub open spec fn sync_event_in_range(ev: SyncEvent) -> bool {
    0 <= spec_paging_start_chip(ev) <= usize::MAX
        && ev.last_superframe_end_chip + SR1_CHIPS_320MS <= usize::MAX
}

/// PRAT 1 selects 4800 bps; 0 and the reserved values select 9600 bps.
pub open spec fn spec_paging_rate(prat: u8) -> PagingRate {
    if prat == 1 { PagingRate::Rate4800 } else { PagingRate::Rate9600 }
}

pub open spec fn sat_sub(a: int, b: int) -> int {
    if a >= b { a - b } else { 0 }
}

/// Paging chain start chip for a sync event.
pub fn paging_start_chip(ev: SyncEvent) -> (c: usize)
    requires
        sync_event_in_range(ev),
    ensures
        c == spec_paging_start_chip(ev),
{
    ev.last_superframe_end_chip + SR1_CHIPS_320MS - (ev.pilot_pn as usize) * PILOT_PN_OFFSET_CHIPS
}

/// Paging rate for a PRAT field value.
pub fn paging_rate_for_prat(prat: u8) -> (r: PagingRate)
    ensures
        r == spec_paging_rate(prat),
{
    match prat {
        1 => PagingRate::Rate4800,
        _ => PagingRate::Rate9600,
    }
}

impl MobileStation {
    /// A station waiting for its first sync event.
    pub fn new() -> (ms: Self)
        ensures
            ms.state == MsState::Acquiring,
            ms.sync_info.is_none(),
            !ms.force_start_paging_on_sync_lock,
            ms.lc_verify_prev_chip.is_none(),
    {
        MobileStation {
            state: MsState::Acquiring,
            sync_info: None,
            force_start_paging_on_sync_lock: false,
            lc_verify_prev_chip: None,
        }
    }

    /// Start paging as soon as sync is locked instead of waiting for the
    /// advertised paging start chip.
    pub fn with_force_start_paging_on_sync_lock(self, force: bool) -> (ms: Self)
        ensures
            ms.force_start_paging_on_sync_lock == force,
            ms.state == self.state,
            ms.sync_info == self.sync_info,
            ms.lc_verify_prev_chip == self.lc_verify_prev_chip,
    {
        let mut ms = self;
        ms.force_start_paging_on_sync_lock = force;
        ms
    }

    /// The state's invariant: sync information is held exactly when the
    /// station has left `Acquiring`.
    pub open spec fn wf(&self) -> bool {
        self.sync_info.is_some() <==> self.state != MsState::Acquiring
    }

    /// Take in a sync event. Only the first one is latched; every one is
    /// cross-checked against the long-code state of the one before.
    pub fn handle_sync_event(&mut self, ev: SyncEvent) -> (check: LcCheck)
        requires
            sync_event_in_range(ev),
        ensures
            final(self).lc_verify_prev_chip == Some(spec_paging_start_chip(ev) as usize),
            match old(self).lc_verify_prev_chip {
                None => check == (LcCheck::Seed { lc_state: ev.lc_state }),
                Some(prev) => check == (LcCheck::Advance {
                    delta_chips: sat_sub(spec_paging_start_chip(ev), prev as int) as usize,
                    lc_state: ev.lc_state,
                }),
            },
            old(self).state == MsState::Acquiring ==> {
                &&& final(self).state == MsState::SyncLocked
                &&& final(self).sync_info == Some(SyncInfo {
                    pilot_pn: ev.pilot_pn,
                    lc_state: ev.lc_state,
                    prat: ev.prat,
                    paging_start_chip: spec_paging_start_chip(ev) as usize,
                })
            },
            old(self).state != MsState::Acquiring ==> {
                &&& final(self).state == old(self).state
                &&& final(self).sync_info == old(self).sync_info
            },
            final(self).force_start_paging_on_sync_lock == old(self).force_start_paging_on_sync_lock,
            old(self).wf() ==> final(self).wf(),
    {
        let start = paging_start_chip(ev);
        let check = match self.lc_verify_prev_chip {
            Some(prev) => LcCheck::Advance {
                delta_chips: start.saturating_sub(prev),
                lc_state: ev.lc_state,
            },
            None => LcCheck::Seed { lc_state: ev.lc_state },
        };
        self.lc_verify_prev_chip = Some(start);
        if self.state == MsState::Acquiring {
            self.sync_info = Some(SyncInfo {
                pilot_pn: ev.pilot_pn,
                lc_state: ev.lc_state,
                prat: ev.prat,
                paging_start_chip: start,
            });
            self.state = MsState::SyncLocked;
        }
        check
    }

    /// Decide, at the block starting at `current_chip`, whether the paging
    /// chain starts now. It does in `SyncLocked` once the paging start chip is
    /// reached, or at once when forced.
    pub fn try_start_paging(&mut self, current_chip: usize) -> (start: Option<PagingStart>)
        requires
            old(self).wf(),
        ensures
            final(self).wf(),
            ({
                let due = old(self).state == MsState::SyncLocked && (old(self).force_start_paging_on_sync_lock
                    || current_chip >= old(self).sync_info.unwrap().paging_start_chip);
                if due {
                    let info = old(self).sync_info.unwrap();
                    &&& start == Some(PagingStart {
                        pilot_pn: info.pilot_pn,
                        lc_state: info.lc_state,
                        lc_gap_chips: sat_sub(current_chip as int, info.paging_start_chip as int) as usize,
                        rate: spec_paging_rate(info.prat),
                    })
                    &&& final(self).state == MsState::PagingActive
                } else {
                    &&& start.is_none()
                    &&& final(self).state == old(self).state
                }
            }),
            final(self).sync_info == old(self).sync_info,
            final(self).force_start_paging_on_sync_lock == old(self).force_start_paging_on_sync_lock,
            final(self).lc_verify_prev_chip == old(self).lc_verify_prev_chip,
    {
        if self.state != MsState::SyncLocked {
            return None;
        }
        let info = match self.sync_info {
            Some(i) => i,
            None => return None,
        };
        if !self.force_start_paging_on_sync_lock && current_chip < info.paging_start_chip {
            return None;
        }
        let rate = paging_rate_for_prat(info.prat);
        self.state = MsState::PagingActive;
        Some(PagingStart {
            pilot_pn: info.pilot_pn,
            lc_state: info.lc_state,
            lc_gap_chips: current_chip.saturating_sub(info.paging_start_chip),
            rate,
        })
    }

    /// Upstream PN lock was lost: both sub-chains are torn down and the
    /// station acquires afresh, forgetting the latched sync information and
    /// the long-code checkpoint, so that the next sync event seeds a new
    /// check and a new paging chain is built once it is due. Returns whether
    /// a paging chain was running (and is now torn down).
    pub fn lock_lost(&mut self) -> (had_paging: bool)
        ensures
            had_paging == (old(self).state == MsState::PagingActive),
            final(self).state == MsState::Acquiring,
            final(self).sync_info.is_none(),
            final(self).lc_verify_prev_chip.is_none(),
            final(self).force_start_paging_on_sync_lock == old(self).force_start_paging_on_sync_lock,
            final(self).wf(),
    {
        let had_paging = self.state == MsState::PagingActive;
        self.state = MsState::Acquiring;
        self.sync_info = None;
        self.lc_verify_prev_chip = None;
        had_paging
    }

    /// The long-code checkpoint tagged onto blocks fed to the running paging
    /// chain: the latched state and the chip at which it is valid.
    pub fn paging_checkpoint(&self) -> (cp: Option<(u64, usize)>)
        ensures
            cp == (match self.sync_info {
                Some(info) if self.state == MsState::PagingActive => Some((info.lc_state, info.paging_start_chip)),
                _ => None,
            }),
    {
        if self.state != MsState::PagingActive {
            return None;
        }
        match self.sync_info {
            Some(info) => Some((info.lc_state, info.paging_start_chip)),
            None => None,
        }
    }
}

} // verus!
