//! Wi-Fi bridge setup: read the device's address, switch the device's
//! bridge to network mode, then connect to `<ip>:5555`.
use vstd::prelude::*;

use crate::commands::{
    device_command, invocation, ip_listing_command, ipv4_address, owned_args, wifi_connect_address,
    wifi_port,
};
use crate::device::{ids_view, lemma_ids_push};
use crate::error::AdbError;

verus! {

/// The stages of a Wi-Fi setup.
#[derive(Debug, Clone, Copy, PartialEq, Eq, Structural)]
pub enum WifiStage {
    /// The interface listing is to be read.
    Listing,
    /// The device is to be switched to network mode.
    Switching,
    /// The connection is to be made.
    Connecting,
    /// The setup is over, with its result.
    Done,
}

/// What the driver of a Wi-Fi setup observed.
pub enum WifiEvent {
    /// The listing ran with success and printed this text.
    Listed(String),
    /// The run exited; `true` where it succeeded.
    Exited(bool),
    /// The bridge executable could not be started.
    NotStarted,
}

/// What the driver of a Wi-Fi setup is to do next.
pub enum WifiAction {
    /// Run the bridge executable with these arguments and read its output.
    List(Vec<String>),
    /// Run the bridge executable with these arguments.
    Run(Vec<String>),
    /// End the setup: `Ok(true)` where the connection was made.
    Finish(Result<bool, AdbError>),
}

/// A setup's next action in the abstract.
pub enum PlannedWifi {
    List(Seq<Seq<char>>),
    Run(Seq<Seq<char>>),
    Finish(Result<bool, AdbError>),
}

pub open spec fn wifi_action_view(a: WifiAction) -> PlannedWifi {
    match a {
        WifiAction::List(v) => PlannedWifi::List(ids_view(v@)),
        WifiAction::Run(v) => PlannedWifi::Run(ids_view(v@)),
        WifiAction::Finish(res) => PlannedWifi::Finish(res),
    }
}

/// A setup in the abstract; `address` is `<ip>:5555` once it is known.
pub struct WifiView {
    pub device: Seq<char>,
    pub stage: WifiStage,
    pub address: Seq<char>,
    pub result: Result<bool, AdbError>,
}

pub open spec fn wifi_start(device: Seq<char>) -> WifiView {
    WifiView { device, stage: WifiStage::Listing, address: Seq::empty(), result: Ok(false) }
}

pub open spec fn planned_wifi(st: WifiView) -> PlannedWifi {
    match st.stage {
        WifiStage::Listing => PlannedWifi::List(
            invocation(st.device, seq!["shell"@, "ip"@, "addr"@, "show"@, "wlan0"@]),
        ),
        WifiStage::Switching => PlannedWifi::Run(invocation(st.device, seq!["tcpip"@, "5555"@])),
        WifiStage::Connecting => PlannedWifi::Run(seq!["connect"@, st.address]),
        WifiStage::Done => PlannedWifi::Finish(st.result),
    }
}

pub open spec fn wifi_ended(st: WifiView, result: Result<bool, AdbError>) -> WifiView {
    WifiView { stage: WifiStage::Done, result, ..st }
}

/// A setup after `ev`: a missing address, a failed step before the
/// connection or a run that cannot be started ends it with an error; the
/// connection's own exit status only decides whether it was made. An event
/// that does not belong to the stage leaves the setup as it is.
pub open spec fn wifi_next(st: WifiView, ev: WifiEvent) -> WifiView {
    match (st.stage, ev) {
        (WifiStage::Listing, WifiEvent::Listed(text)) => match ipv4_address(text@) {
            Some(a) => WifiView { stage: WifiStage::Switching, address: a + wifi_port(), ..st },
            None => wifi_ended(st, Err(AdbError::NoIpAddress)),
        },
        (WifiStage::Listing, WifiEvent::Exited(_)) => wifi_ended(st, Err(AdbError::StepFailed)),
        (WifiStage::Switching, WifiEvent::Exited(ok)) => if ok {
            WifiView { stage: WifiStage::Connecting, ..st }
        } else {
            wifi_ended(st, Err(AdbError::StepFailed))
        },
        (WifiStage::Connecting, WifiEvent::Exited(ok)) => wifi_ended(st, Ok(ok)),
        (WifiStage::Done, _) => st,
        (_, WifiEvent::NotStarted) => wifi_ended(st, Err(AdbError::Spawn)),
        _ => st,
    }
}

/// A Wi-Fi setup of one device.
pub struct WifiSetup {
    device: String,
    stage: WifiStage,
    address: String,
    result: Result<bool, AdbError>,
}

impl View for WifiSetup {
    type V = WifiView;

    closed spec fn view(&self) -> WifiView {
        WifiView {
            device: self.device@,
            stage: self.stage,
            address: self.address@,
            result: self.result,
        }
    }
}

impl WifiSetup {
    pub fn new(device: &str) -> (r: WifiSetup)
        ensures
            r@ == wifi_start(device@),
    {
        WifiSetup {
            device: device.to_string(),
            stage: WifiStage::Listing,
            address: String::new(),
            result: Ok(false),
        }
    }

    /// What the driver is to do next.
    pub fn action(&self) -> (r: WifiAction)
        ensures
            wifi_action_view(r) == planned_wifi(self@),
    {
        match self.stage {
            WifiStage::Listing => WifiAction::List(ip_listing_command(self.device.as_str())),
            WifiStage::Switching => {
                let args = ["tcpip", "5555"];
                let owned = owned_args(&args);
                let r = device_command(self.device.as_str(), owned.as_slice());
                assert(ids_view(owned@) =~= seq!["tcpip"@, "5555"@]);
                WifiAction::Run(r)
            },
            WifiStage::Connecting => {
                let mut r: Vec<String> = Vec::new();
                let c = "connect".to_string();
                proof {
                    lemma_ids_push(r@, c);
                }
                r.push(c);
                let a = self.address.clone();
                proof {
                    lemma_ids_push(r@, a);
                }
                r.push(a);
                assert(ids_view(r@) =~= seq!["connect"@, self.address@]);
                WifiAction::Run(r)
            },
            WifiStage::Done => WifiAction::Finish(self.result),
        }
    }

    /// Takes note of what came of the last action.
    pub fn advance(&mut self, ev: WifiEvent)
        ensures
            final(self)@ == wifi_next(old(self)@, ev),
    {
        match (self.stage, ev) {
            (WifiStage::Listing, WifiEvent::Listed(text)) => {
                match wifi_connect_address(text.as_str()) {
                    Ok(a) => {
                        self.address = a;
                        self.stage = WifiStage::Switching;
                    },
                    Err(e) => {
                        self.stage = WifiStage::Done;
                        self.result = Err(e);
                    },
                }
            },
            (WifiStage::Listing, WifiEvent::Exited(_)) => {
                self.stage = WifiStage::Done;
                self.result = Err(AdbError::StepFailed);
            },
            (WifiStage::Switching, WifiEvent::Exited(ok)) => {
                if ok {
                    self.stage = WifiStage::Connecting;
                } else {
                    self.stage = WifiStage::Done;
                    self.result = Err(AdbError::StepFailed);
                }
            },
            (WifiStage::Connecting, WifiEvent::Exited(ok)) => {
                self.stage = WifiStage::Done;
                self.result = Ok(ok);
            },
            (WifiStage::Done, _) => {},
            (_, WifiEvent::NotStarted) => {
                self.stage = WifiStage::Done;
                self.result = Err(AdbError::Spawn);
            },
            _ => {},
        }
    }
}

} // verus!
