//! How much a connection may take.

use vstd::prelude::*;
use crate::error::LinkError;

verus! {

#[derive(Clone, Copy, Debug, Eq, PartialEq, Structural)]
pub struct ConnectionBudget {
    pub max_memory_bytes: usize,
    pub max_bandwidth_bytes_per_second: u64,
    pub max_channels: usize,
    pub max_send_queue_frames: usize,
    pub max_resume_channels: usize,
    pub max_pending_replays: usize,
    pub max_maintenance_operations_per_tick: usize,
}

impl Default for ConnectionBudget {
    fn default() -> (budget: Self)
        ensures
            budget == (ConnectionBudget {
                max_memory_bytes: 16777216,
                max_bandwidth_bytes_per_second: 16777216,
                max_channels: 64,
                max_send_queue_frames: 512,
                max_resume_channels: 64,
                max_pending_replays: 128,
                max_maintenance_operations_per_tick: 8,
            }),
    {
        ConnectionBudget {
            max_memory_bytes: 16777216,
            max_bandwidth_bytes_per_second: 16777216,
            max_channels: 64,
            max_send_queue_frames: 512,
            max_resume_channels: 64,
            max_pending_replays: 128,
            max_maintenance_operations_per_tick: 8,
        }
    }
}

impl ConnectionBudget {
    /// Whether nothing is limited to none.
    pub open spec fn positive(self) -> bool {
        &&& self.max_memory_bytes > 0
        &&& self.max_bandwidth_bytes_per_second > 0
        &&& self.max_channels > 0
        &&& self.max_send_queue_frames > 0
        &&& self.max_resume_channels > 0
        &&& self.max_pending_replays > 0
        &&& self.max_maintenance_operations_per_tick > 0
    }

    /// The budget, if it is one.
    pub fn validate(self) -> (valid: Result<Self, LinkError>)
        ensures
            valid == (if self.positive() {
                Ok::<ConnectionBudget, LinkError>(self)
            } else {
                Err(LinkError::InvalidInput("connection budget values must be positive"))
            }),
    {
        if self.max_memory_bytes == 0 || self.max_bandwidth_bytes_per_second == 0 || self.max_channels == 0
            || self.max_send_queue_frames == 0 || self.max_resume_channels == 0
            || self.max_pending_replays == 0 || self.max_maintenance_operations_per_tick == 0 {
            return Err(LinkError::InvalidInput("connection budget values must be positive"));
        }
        Ok(self)
    }
}

#[derive(Clone, Copy, Debug, Eq, PartialEq, Structural)]
pub enum MaintenanceMode {
    Normal,
    Reduced,
    Paused,
}

/// How many operations of maintenance are left in a tick.
#[derive(Clone, Copy, Debug, Eq, PartialEq, Structural)]
pub struct MaintenanceBudget {
    pub maximum_per_tick: usize,
    pub remaining: usize,
    pub mode: MaintenanceMode,
}

/// How many operations a tick has: all, a fourth rounded up, or none.
pub open spec fn allowance(maximum_per_tick: usize, mode: MaintenanceMode) -> usize {
    match mode {
        MaintenanceMode::Normal => maximum_per_tick,
        MaintenanceMode::Reduced => ((maximum_per_tick + 3) / 4) as usize,
        MaintenanceMode::Paused => 0,
    }
}

impl MaintenanceBudget {
    pub fn new(connection: ConnectionBudget) -> (budget: Result<Self, LinkError>)
        ensures
            budget == (if connection.positive() {
                Ok::<MaintenanceBudget, LinkError>(
                    MaintenanceBudget {
                        maximum_per_tick: connection.max_maintenance_operations_per_tick,
                        remaining: connection.max_maintenance_operations_per_tick,
                        mode: MaintenanceMode::Normal,
                    },
                )
            } else {
                Err(LinkError::InvalidInput("connection budget values must be positive"))
            }),
    {
        let connection = connection.validate()?;
        Ok(
            MaintenanceBudget {
                maximum_per_tick: connection.max_maintenance_operations_per_tick,
                remaining: connection.max_maintenance_operations_per_tick,
                mode: MaintenanceMode::Normal,
            },
        )
    }

    pub fn set_mode(&mut self, mode: MaintenanceMode)
        ensures
            *final(self) == (MaintenanceBudget { mode, ..*old(self) }),
    {
        self.mode = mode;
    }

    /// Begins a tick with all that the mode allows.
    pub fn begin_tick(&mut self)
        ensures
            *final(self) == (MaintenanceBudget {
                remaining: allowance(old(self).maximum_per_tick, old(self).mode),
                ..*old(self)
            }),
    {
        self.remaining = match self.mode {
            MaintenanceMode::Normal => self.maximum_per_tick,
            MaintenanceMode::Reduced => {
                let quarter: usize = self.maximum_per_tick / 4;
                if self.maximum_per_tick % 4 == 0 {
                    quarter
                } else {
                    quarter + 1
                }
            },
            MaintenanceMode::Paused => 0,
        };
    }

    /// Takes one operation, if one is left.
    pub fn try_consume(&mut self) -> (taken: bool)
        ensures
            taken == (old(self).remaining > 0),
            *final(self) == (MaintenanceBudget {
                remaining: if old(self).remaining > 0 {
                    (old(self).remaining - 1) as usize
                } else {
                    0
                },
                ..*old(self)
            }),
    {
        if self.remaining == 0 {
            return false;
        }
        self.remaining = self.remaining - 1;
        true
    }
}

/// A tick has its whole allowance in normal operation, a quarter of it, rounded up, in a
/// reduced one, and none while it is paused.
pub proof fn allowances_follow_the_mode(maximum_per_tick: usize)
    requires
        maximum_per_tick > 0,
        maximum_per_tick + 3 <= usize::MAX,
    ensures
        allowance(maximum_per_tick, MaintenanceMode::Normal) == maximum_per_tick,
        allowance(maximum_per_tick, MaintenanceMode::Paused) == 0,
        ({
            let reduced = allowance(maximum_per_tick, MaintenanceMode::Reduced);
            &&& 1 <= reduced <= maximum_per_tick
            &&& 4 * (reduced - 1) < maximum_per_tick <= 4 * reduced
        }),
{
}

/// A tick that has begun grants one operation for each that its mode allows, one after
/// another, and no more; asking for one that is not granted changes nothing.
pub proof fn operations_are_granted_one_by_one(budget: MaintenanceBudget)
    ensures
        forall|lent: &mut MaintenanceBudget, taken: bool|
            *lent == budget && #[trigger] call_ensures(
                MaintenanceBudget::try_consume,
                (lent,),
                taken,
            ) ==> {
                let after = *final(lent);
                &&& taken <==> budget.remaining > 0
                &&& taken ==> after.remaining == budget.remaining - 1
                &&& !taken ==> after.remaining == 0
                &&& after.maximum_per_tick == budget.maximum_per_tick
                &&& after.mode == budget.mode
            },
        forall|lent: &mut MaintenanceBudget, done: ()|
            *lent == budget && #[trigger] call_ensures(
                MaintenanceBudget::begin_tick,
                (lent,),
                done,
            ) ==> {
                let after = *final(lent);
                &&& after.maximum_per_tick == budget.maximum_per_tick
                &&& after.mode == budget.mode
                &&& budget.mode is Normal ==> after.remaining == budget.maximum_per_tick
                &&& budget.mode is Reduced ==> 4 * (after.remaining - 1) < budget.maximum_per_tick
                    <= 4 * after.remaining
                &&& budget.mode is Paused ==> after.remaining == 0
            },
        forall|lent: &mut MaintenanceBudget, mode: MaintenanceMode, done: ()|
            *lent == budget && #[trigger] call_ensures(
                MaintenanceBudget::set_mode,
                (lent, mode),
                done,
            ) ==> {
                &&& final(lent).mode == mode
                &&& final(lent).remaining == budget.remaining
                &&& final(lent).maximum_per_tick == budget.maximum_per_tick
            },
{
}

/// A budget begins in the normal mode with a whole tick, if it allows for something.
pub proof fn budgets_begin_with_a_whole_tick(connection: ConnectionBudget)
    ensures
        forall|budget: Result<MaintenanceBudget, LinkError>| #[trigger]
            call_ensures(MaintenanceBudget::new, (connection,), budget) ==> {
                &&& budget is Ok <==> {
                    &&& connection.max_memory_bytes > 0
                    &&& connection.max_bandwidth_bytes_per_second > 0
                    &&& connection.max_channels > 0
                    &&& connection.max_send_queue_frames > 0
                    &&& connection.max_resume_channels > 0
                    &&& connection.max_pending_replays > 0
                    &&& connection.max_maintenance_operations_per_tick > 0
                }
                &&& budget matches Ok(b) ==> {
                    &&& b.maximum_per_tick == connection.max_maintenance_operations_per_tick
                    &&& b.remaining == connection.max_maintenance_operations_per_tick
                    &&& b.mode is Normal
                }
            },
{
}

} // verus!
