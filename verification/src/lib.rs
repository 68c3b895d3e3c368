//! Modular Ethernet PHY stack: the MDIO bus and PHY driver traits, IEEE
//! 802.3 Clause 22 helpers, and drivers for the Microchip LAN87xx
//! (10/100BASE-T) and LAN867x (10BASE-T1S) PHY families.
//!
//! Every driver operation is specified against the bus transcript of
//! [`MdioBus`]: its contract names a spec function (`*_run`) that reads the
//! transactions the operation appended to the transcript and says, given
//! the answers the bus gave, exactly which registers were read and written,
//! with which values and in which order, and what the operation returns.
//! [`mock::MockMdio`] is a scripted bus for exercising drivers without
//! hardware.
pub mod ieee802_3;
pub mod lan867x;
pub mod lan87xx;
pub mod mdio;
pub mod mock;
pub mod phy;
pub mod types;

pub use mdio::{MdioBus, MdioOp};
pub use phy::{PhyDriver, PhyError};
pub use types::{Duplex, LinkState, PhyCapabilities, Speed};
