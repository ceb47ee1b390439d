//! Adapter configuration.
use vstd::prelude::*;

use crate::scalar::Scalar;
use crate::time::Duration;

verus! {

/// One served axis: its place on the chain, and its scaling.
#[derive(Clone, Copy, Debug, PartialEq, Eq, Structural)]
pub struct AxisMapping {
    /// Position of the drive on the chain (0-based).
    pub subdevice: usize,
    /// Drive increments per user unit.
    pub scale: Scalar,
}

/// Configuration of one bus.
#[derive(Clone, Debug)]
pub struct EcatConfig {
    /// The network interface of this bus.
    pub ifname: String,
    /// Cycle time, also the SYNC0 period with distributed clocks.
    pub cycle: Duration,
    pub axes: Vec<AxisMapping>,
    /// Configure distributed clocks on the drives.
    pub dc: bool,
    /// Write the process-image mapping into the drives.
    pub configure_pdo: bool,
    /// Map digital inputs into the process image.
    pub map_digital_inputs: bool,
}

/// The default scaling: 10000 increments per user unit.
pub const DEFAULT_SCALE_BITS: u64 = 0x40C3_8800_0000_0000;

impl EcatConfig {
    /// The first `axes` devices of the chain as axes, at a 1 ms cycle, with
    /// distributed clocks, mapping and digital inputs on.
    pub fn new(ifname: String, axes: usize) -> (r: EcatConfig)
        ensures
            r.ifname@ == ifname@,
            r.cycle.nanos == 1_000_000,
            r.axes@ == Seq::new(
                axes as nat,
                |i: int|
                    AxisMapping {
                        subdevice: i as usize,
                        scale: Scalar { bits: DEFAULT_SCALE_BITS },
                    },
            ),
            r.dc && r.configure_pdo && r.map_digital_inputs,
    {
        let mut mappings: Vec<AxisMapping> = Vec::new();
        while mappings.len() < axes
            invariant
                mappings@.len() <= axes,
                forall|i: int|
                    0 <= i < mappings@.len() ==> #[trigger] mappings@[i] == (AxisMapping {
                        subdevice: i as usize,
                        scale: Scalar { bits: DEFAULT_SCALE_BITS },
                    }),
            decreases axes - mappings@.len(),
        {
            let subdevice: usize = mappings.len();
            mappings.push(AxisMapping { subdevice, scale: Scalar { bits: DEFAULT_SCALE_BITS } });
        }
        EcatConfig {
            ifname,
            cycle: Duration::from_millis(1),
            axes: mappings,
            dc: true,
            configure_pdo: true,
            map_digital_inputs: true,
        }
    }
}

} // verus!
