//! Serial-port settings the hardware bring-up around the engine is
//! configured with.

use vstd::prelude::*;

verus! {

/// Serial-port selection as the command line hands it over.
pub struct SerialPortOpts {
    pub port_name: String,
    pub port_baud: u32,
}

/// Serial-port selection of the receiver device task.
pub struct SerialOpts {
    pub port: String,
    pub baud: u32,
}

impl SerialOpts {
    pub fn new(port: String, baud: u32) -> (r: SerialOpts)
        ensures
            r.port@ == port@,
            r.baud == baud,
    {
        SerialOpts { port, baud }
    }
}

} // verus!
