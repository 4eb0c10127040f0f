//! Decision logic of a USB intrusion sensor.

pub mod text;
pub mod digits;
pub mod byte_order;
pub mod calendar;
pub mod clock;
pub mod digest;
pub mod json;
pub mod incident;
pub mod udev;
pub mod sysfs;
pub mod window;
pub mod supervisor;
pub mod snapshot;
pub mod usb_incidents;
pub mod anomaly;
pub mod usb_monitor;
pub mod class_policy;
pub mod inotify;
pub mod fs_monitor;
pub mod watcher;
pub mod clamscan;
pub mod idsm;
pub mod json_reader;
pub mod record_laws;
pub mod tracker_laws;
pub mod text_laws;
pub mod udev_laws;
pub mod event_laws;
pub mod device_laws;
pub mod fs_laws;
pub mod incident_laws;
pub mod time_laws;
pub mod delivery_laws;
