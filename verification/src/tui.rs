//! The state of the statistics window: when it closes and what it shows.

use crate::device::Direction;
use crate::flow::{CpalStats, NetworkUDPStats};
use vstd::prelude::*;

verus! {

/// A key the window was sent.
#[derive(Debug, Clone, Copy, PartialEq, Eq)]
pub enum KeyPress {
    Char(char),
    Other,
}

/// The statistics window.
#[derive(Debug, Clone, PartialEq, Eq)]
pub struct TuiApp {
    exit: bool,
    device_name: String,
    direction: Direction,
}

/// The figures the window shows: occupied network buffer, samples sent or
/// received, samples the device asked for.
#[derive(Debug, Clone, Copy, PartialEq, Eq)]
pub struct TuiFigures {
    pub occupied: usize,
    pub samples: usize,
    pub requested: usize,
}

impl TuiApp {
    pub closed spec fn exiting(&self) -> bool {
        self.exit
    }

    pub closed spec fn spec_direction(&self) -> Direction {
        self.direction
    }

    pub closed spec fn spec_device_name(&self) -> Seq<char> {
        self.device_name@
    }

    /// A window for a stream in `direction` on the named device.
    pub fn new(direction: Direction, device_name: String) -> (r: Self)
        ensures
            !r.exiting(),
            r.spec_direction() == direction,
            r.spec_device_name() == device_name@,
    {
        TuiApp { exit: false, device_name, direction }
    }

    /// Whether the window is to close.
    pub fn should_exit(&self) -> (r: bool)
        ensures
            r == self.exiting(),
    {
        self.exit
    }

    /// Marks the window to close.
    pub fn exit(&mut self)
        ensures
            final(self).exiting(),
            final(self).spec_direction() == old(self).spec_direction(),
            final(self).spec_device_name() == old(self).spec_device_name(),
    {
        self.exit = true;
    }

    /// `q` closes the window; any other key is ignored.
    pub fn handle_key_event(&mut self, key: KeyPress)
        ensures
            final(self).exiting() == (old(self).exiting() || key == KeyPress::Char('q')),
            final(self).spec_direction() == old(self).spec_direction(),
            final(self).spec_device_name() == old(self).spec_device_name(),
    {
        match key {
            KeyPress::Char('q') => self.exit(),
            _ => {},
        }
    }

    /// The window's title.
    pub fn title(&self) -> (t: &'static str)
        ensures
            t@ == match self.spec_direction() {
                Direction::Sender => " Audio Sender "@,
                Direction::Receiver => " Audio Receiver "@,
            },
    {
        match self.direction {
            Direction::Sender => " Audio Sender ",
            Direction::Receiver => " Audio Receiver ",
        }
    }

    /// The label of the device line: the input device for a sender, the
    /// output device for a receiver.
    pub fn device_label(&self) -> (t: &'static str)
        ensures
            t@ == match self.spec_direction() {
                Direction::Sender => "Input Device Name"@,
                Direction::Receiver => "Output Device Name"@,
            },
    {
        match self.direction {
            Direction::Sender => "Input Device Name",
            Direction::Receiver => "Output Device Name",
        }
    }

    /// The label of the sample count: sent for a sender, received for a
    /// receiver.
    pub fn samples_label(&self) -> (t: &'static str)
        ensures
            t@ == match self.spec_direction() {
                Direction::Sender => "Sent Samples"@,
                Direction::Receiver => "Received Samples"@,
            },
    {
        match self.direction {
            Direction::Sender => "Sent Samples",
            Direction::Receiver => "Received Samples",
        }
    }

    /// The device name shown.
    pub fn device_name(&self) -> (n: &String)
        ensures
            n@ == self.spec_device_name(),
    {
        &self.device_name
    }
}

/// The figures to show for the latest reports (a missing count shows as 0).
pub fn tui_figures(net_stats: NetworkUDPStats, cpal_stats: CpalStats) -> (f: TuiFigures)
    ensures
        f == (TuiFigures {
            occupied: net_stats.pre_occupied_buffer,
            samples: match net_stats.received {
                Some(n) => n,
                None => 0,
            },
            requested: match cpal_stats.requested {
                Some(n) => n,
                None => 0,
            },
        }),
{
    TuiFigures {
        occupied: net_stats.pre_occupied_buffer,
        samples: match net_stats.received {
            Some(n) => n,
            None => 0,
        },
        requested: match cpal_stats.requested {
            Some(n) => n,
            None => 0,
        },
    }
}

} // verus!
