//! Orchestration over the Android device bridge: reading which devices are
//! attached, choosing one or all of them, fanning one command out over the
//! choice, and driving the screen-recording session.
pub mod commands;
pub mod device;
pub mod dispatch;
pub mod error;
pub mod session;
pub mod text;
pub mod wifi;

pub use commands::{
    clear_package, device_command, install_apk, ip_listing_command, matching_packages,
    package_list_command, parse_ip_output, screenshot_command, start_package, stop_package,
    uninstall_package, wifi_connect_address,
};
pub use device::{parse_devices_output, select_device, selection_prompt, DeviceSelection};
pub use dispatch::{execute_command_on_devices, FanOut, FanOutStep, Outcome};
pub use error::AdbError;
pub use session::{wants_deletion, RecordAction, RecordEvent, RecordState, RecordingSession};
pub use wifi::{WifiAction, WifiEvent, WifiSetup};
