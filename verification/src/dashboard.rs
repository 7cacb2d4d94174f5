//! In-memory state of the vehicle dashboard front end: the drive mode, a
//! bounded ring of log lines, and the row types the front end renders.  The
//! front end keeps this state behind one lock and synthesizes its display
//! numbers itself; what is modelled here is the data under that lock and the
//! rules it follows.

use std::collections::VecDeque;
use vstd::prelude::*;
use vstd::string::StringExecFns;

verus! {

/// How many log lines the ring retains.
pub const LOG_CAPACITY: usize = 80;

/// The gear selection of the vehicle.
#[derive(Clone, Copy, Debug, PartialEq, Eq, Structural)]
pub enum DriveMode {
    Park,
    Drive,
    Reverse,
}

impl Default for DriveMode {
    fn default() -> (r: Self)
        ensures
            r == DriveMode::Park,
    {
        DriveMode::Park
    }
}

/// The label of a drive mode, as log lines render it.
pub open spec fn spec_mode_label(m: DriveMode) -> Seq<char> {
    match m {
        DriveMode::Park => "Park"@,
        DriveMode::Drive => "Drive"@,
        DriveMode::Reverse => "Reverse"@,
    }
}

/// The log line recorded when the drive mode changes.
pub open spec fn spec_drive_log_line(m: DriveMode) -> Seq<char> {
    "drive -> "@ + spec_mode_label(m)
}

impl DriveMode {
    pub fn label(&self) -> (r: &'static str)
        ensures
            r@ == spec_mode_label(*self),
    {
        match self {
            DriveMode::Park => "Park",
            DriveMode::Drive => "Drive",
            DriveMode::Reverse => "Reverse",
        }
    }
}

/// What one push does to the log ring: when the ring is full the oldest
/// entry leaves, then the new entry goes in front.
pub open spec fn spec_pushed_logs(logs: Seq<String>, entry: String) -> Seq<String> {
    if logs.len() >= LOG_CAPACITY {
        seq![entry] + logs.drop_last()
    } else {
        seq![entry] + logs
    }
}

/// The dashboard state proper: what lives under the front end's one lock.
pub struct VehicleInternal {
    pub drive_mode: DriveMode,
    pub logs: VecDeque<String>,
}

impl VehicleInternal {
    /// Fresh state: parked, with one greeting line in the log.
    pub fn new() -> (r: Self)
        ensures
            r.drive_mode == DriveMode::Park,
            r.logs@.len() == 1,
            r.logs@[0]@ == "telemetry online"@,
    {
        let mut logs: VecDeque<String> = VecDeque::with_capacity(LOG_CAPACITY);
        logs.push_front(String::from_str("telemetry online"));
        VehicleInternal { drive_mode: DriveMode::Park, logs }
    }

    /// Puts `entry` in front of the log and keeps at most `LOG_CAPACITY`
    /// lines: the oldest line leaves when the ring is already full.
    pub fn push_log(&mut self, entry: String)
        ensures
            final(self).drive_mode == old(self).drive_mode,
            final(self).logs@ == spec_pushed_logs(old(self).logs@, entry),
    {
        if self.logs.len() >= LOG_CAPACITY {
            self.logs.pop_back();
        }
        self.logs.push_front(entry);
        proof {
            assert(self.logs@ =~= spec_pushed_logs(old(self).logs@, entry));
        }
    }

    /// Selects a drive mode, records the change as the newest log line, and
    /// hands the mode back.
    pub fn set_drive_mode(&mut self, mode: DriveMode) -> (r: DriveMode)
        ensures
            r == mode,
            final(self).drive_mode == mode,
            final(self).logs@.len() == (if old(self).logs@.len() >= LOG_CAPACITY {
                old(self).logs@.len()
            } else {
                old(self).logs@.len() + 1
            }),
            final(self).logs@[0]@ == spec_drive_log_line(mode),
            final(self).logs@.skip(1) == (if old(self).logs@.len() >= LOG_CAPACITY {
                old(self).logs@.drop_last()
            } else {
                old(self).logs@
            }),
    {
        self.drive_mode = mode;
        let mut entry = String::from_str("drive -> ");
        entry.append(mode.label());
        self.push_log(entry);
        proof {
            assert(self.logs@.skip(1) =~= (if old(self).logs@.len() >= LOG_CAPACITY {
                old(self).logs@.drop_last()
            } else {
                old(self).logs@
            }));
        }
        mode
    }
}

/// One rendered row of a dashboard section: a label, an already formatted
/// value, and an optional unit.
pub struct VehicleField {
    pub label: String,
    pub value: String,
    pub unit: Option<String>,
}

impl VehicleField {
    pub fn new(label: &str, value: String, unit: Option<&str>) -> (r: Self)
        ensures
            r.label@ == label@,
            r.value@ == value@,
            match unit {
                Some(u) => r.unit matches Some(s) && s@ == u@,
                None => r.unit is None,
            },
    {
        let owned_unit = match unit {
            Some(u) => Some(u.to_owned()),
            None => None,
        };
        VehicleField { label: label.to_owned(), value, unit: owned_unit }
    }
}

/// One titled group of rendered rows.
pub struct VehicleSection {
    pub id: String,
    pub title: String,
    pub fields: Vec<VehicleField>,
}

impl VehicleSection {
    pub fn new(id: &str, title: &str, fields: Vec<VehicleField>) -> (r: Self)
        ensures
            r.id@ == id@,
            r.title@ == title@,
            r.fields == fields,
    {
        VehicleSection { id: id.to_owned(), title: title.to_owned(), fields }
    }
}

/// One labelled averaging window of a derived metric.
pub struct MetricWindow {
    pub label: String,
    pub value: String,
}

impl MetricWindow {
    pub fn new(label: &str, value: String) -> (r: Self)
        ensures
            r.label@ == label@,
            r.value@ == value@,
    {
        MetricWindow { label: label.to_owned(), value }
    }
}

} // verus!
