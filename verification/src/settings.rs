//! Settings type for representing individual node settings.

use vstd::prelude::*;

verus! {

/// Settings of a particular node.
#[derive(Debug, Clone, Copy, PartialEq, Eq, PartialOrd, Ord, Hash, Structural)]
pub struct NodeSettings {
    /// Whether to ignore low battery voltage.
    pub battery_ignore: bool,

    /// Whether Over-the-Air (remote) updates should be allowed.
    pub ota: bool,

    /// Amount of time *in seconds* to sleep after every session.
    pub sleep_time: u16,

    /// Whether to enable software-based battery over-discharge protection.
    pub sbop: bool,

    /// Whether the node is allowed to send notifications.
    pub mute_notifications: bool,
}

impl View for NodeSettings {
    type V = NodeSettings;

    /// A settings record is a plain value; it is its own abstraction.
    open spec fn view(&self) -> NodeSettings {
        *self
    }
}

impl NodeSettings {
    /// Returns the sleep time in whole seconds.
    pub fn sleep_time(&self) -> (r: u64)
        ensures
            r == self.sleep_time as u64,
    {
        self.sleep_time as u64
    }

    /// Create a new instance with default values.
    pub fn const_default() -> (r: Self)
        ensures
            r == (NodeSettings {
                battery_ignore: false,
                ota: true,
                sleep_time: 60u16,
                sbop: true,
                mute_notifications: false,
            }),
    {
        NodeSettings {
            battery_ignore: false,
            ota: true,
            sleep_time: 60,
            sbop: true,
            mute_notifications: false,
        }
    }
}

impl Default for NodeSettings {
    /// The default settings: updates and discharge protection on, one
    /// minute of sleep, nothing ignored or muted.
    fn default() -> (r: Self)
        ensures
            r == (NodeSettings {
                battery_ignore: false,
                ota: true,
                sleep_time: 60u16,
                sbop: true,
                mute_notifications: false,
            }),
    {
        Self::const_default()
    }
}

} // verus!
