//! Cosmetic screen state: the albedo-cycling countdown and the color table.

use vstd::prelude::*;

use crate::ops::OpIndex;

verus! {

/// How many colors the screen cycles through; black is excluded as it is not
/// an active display color.
pub const MESH_COLOR_VARIANT_COUNT: u32 = 4;

/// Marker for the scene's recolorable screen mesh.
#[derive(Clone, Copy, Debug)]
pub struct CurrentMeshColor;

/// The colors the screen mesh can take.
#[derive(Clone, Copy, Debug, PartialEq, Eq, Structural)]
pub enum MeshColor {
    Gray,
    White,
    Red,
    Green,
    Blue,
    Black,
}

impl CurrentMeshColor {
    /// The color each color index stands for.
    pub open spec fn spec_from_index(index: u32) -> Option<MeshColor> {
        if index == 0 {
            Some(MeshColor::Gray)
        } else if index == 1 {
            Some(MeshColor::White)
        } else if index == 2 {
            Some(MeshColor::Red)
        } else if index == 3 {
            Some(MeshColor::Green)
        } else if index == 4 {
            Some(MeshColor::Blue)
        } else if index == 5 {
            Some(MeshColor::Black)
        } else {
            None
        }
    }

    /// Decode a color index; indices past the table give `None`.
    pub fn from_index(index: u32) -> (r: Option<MeshColor>)
        ensures
            r == Self::spec_from_index(index),
    {
        match index {
            0 => Some(MeshColor::Gray),
            1 => Some(MeshColor::White),
            2 => Some(MeshColor::Red),
            3 => Some(MeshColor::Green),
            4 => Some(MeshColor::Blue),
            5 => Some(MeshColor::Black),
            _ => None,
        }
    }
}

/// Which albedo pass the screen wants on the next frame: 0 none, 1 a color
/// cycle, 2 a dim while a panel is held.
#[derive(Clone, Copy, Debug, PartialEq, Eq, Structural)]
pub struct ScreenAlbedoState {
    pub state: u32,
}

impl ScreenAlbedoState {
    /// No pass requested.
    pub fn new() -> (r: ScreenAlbedoState)
        ensures
            r.state == 0,
    {
        ScreenAlbedoState { state: 0 }
    }

    /// The color-cycle pass is requested.
    pub fn should_run_cycle(&self) -> (r: bool)
        ensures
            r == (self.state == 1),
    {
        self.state == 1
    }

    /// The dim pass is requested.
    pub fn should_run_dim(&self) -> (r: bool)
        ensures
            r == (self.state == 2),
    {
        self.state == 2
    }
}

impl Default for ScreenAlbedoState {
    /// Same as `new`: no pass requested.
    fn default() -> (r: ScreenAlbedoState)
        ensures
            r.state == 0,
    {
        ScreenAlbedoState::new()
    }
}

/// The color-cycle countdown: how many timer laps are left to run. The timer
/// itself belongs to the host frame loop; this holds the lap bookkeeping.
#[derive(Clone, Copy, Debug, PartialEq, Eq, Structural)]
pub struct CountdownCycle {
    pub loop_count: u32,
    pub current_count: u32,
    pub is_active: bool,
}

impl CountdownCycle {
    /// An inactive countdown, sized to cycle through every display color
    /// once (the extra lap accounts for the zero-indexed table).
    pub fn new() -> (r: CountdownCycle)
        ensures
            r.loop_count == MESH_COLOR_VARIANT_COUNT + 1,
            r.current_count == 0,
            !r.is_active,
    {
        CountdownCycle {
            loop_count: MESH_COLOR_VARIANT_COUNT + 1,
            current_count: 0,
            is_active: false,
        }
    }
}

impl Default for CountdownCycle {
    /// Same as `new`: an inactive countdown.
    fn default() -> (r: CountdownCycle)
        ensures
            r.loop_count == MESH_COLOR_VARIANT_COUNT + 1,
            r.current_count == 0,
            !r.is_active,
    {
        CountdownCycle::new()
    }
}

/// Start the color-cycle countdown when it is not already running, and ask
/// for the plain albedo pass. Returns whether the host should reset its lap
/// timer to start fresh.
pub fn cycle_screen_albedo(countdown: &mut CountdownCycle, screen_albedo_state: &mut
    ScreenAlbedoState) -> (reset_timer: bool)
    ensures
        final(countdown).is_active,
        final(countdown).loop_count == old(countdown).loop_count,
        reset_timer == !old(countdown).is_active,
        final(countdown).current_count == if old(countdown).is_active {
            old(countdown).current_count
        } else {
            0u32
        },
        final(screen_albedo_state).state == 0,
{
    let mut reset_timer = false;
    if !countdown.is_active {
        countdown.is_active = true;
        countdown.current_count = 0;
        reset_timer = true;
    }
    screen_albedo_state.state = 0;
    reset_timer
}

/// One frame of the color-cycle countdown, given whether the host's lap
/// timer has finished. A finished lap advances the lap count and steps the
/// screen color (wrapping past the table back to the first color); the
/// countdown goes inactive once all laps ran, otherwise the host is asked to
/// reset its lap timer for the next lap.
pub fn screen_albedo(countdown: &mut CountdownCycle, op_index: &mut OpIndex, timer_finished:
    bool) -> (reset_timer: bool)
    requires
        old(countdown).current_count < u32::MAX,
    ensures
        final(countdown).loop_count == old(countdown).loop_count,
        final(op_index).index == old(op_index).index,
        final(op_index).last_op == old(op_index).last_op,
        final(op_index).entities == old(op_index).entities,
        !(old(countdown).is_active && timer_finished) ==> {
            &&& *final(countdown) == *old(countdown)
            &&& final(op_index).screen_color == old(op_index).screen_color
            &&& !reset_timer
        },
        old(countdown).is_active && timer_finished ==> {
            &&& final(countdown).current_count == old(countdown).current_count + 1
            &&& final(op_index).screen_color == (if old(op_index).screen_color
                >= MESH_COLOR_VARIANT_COUNT {
                0u32
            } else {
                (old(op_index).screen_color + 1) as u32
            })
            &&& final(countdown).is_active == (old(countdown).current_count + 1
                < old(countdown).loop_count)
            &&& reset_timer == (old(countdown).current_count + 1 < old(countdown).loop_count)
        },
{
    if countdown.is_active && timer_finished {
        countdown.current_count = countdown.current_count + 1;
        if op_index.screen_color >= MESH_COLOR_VARIANT_COUNT {
            op_index.screen_color = 0;
        } else {
            op_index.screen_color = op_index.screen_color + 1;
        }
        if countdown.current_count >= countdown.loop_count {
            countdown.is_active = false;
            false
        } else {
            true
        }
    } else {
        false
    }
}

/// While a panel is held down, the screen shows the dimmed (black) color.
pub fn dim_while_clicked(op_index: &mut OpIndex)
    ensures
        final(op_index).screen_color == 5,
        final(op_index).index == old(op_index).index,
        final(op_index).last_op == old(op_index).last_op,
        final(op_index).entities == old(op_index).entities,
{
    op_index.screen_color = 5;
}

} // verus!
