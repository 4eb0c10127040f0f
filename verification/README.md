# USB sensor

A USB intrusion sensor for Linux. It follows the events of `udevadm monitor`, takes fingerprints of
devices from sysfs, watches a directory through inotify while a device is plugged in, runs a
malware scan, and reports what should not happen as structured incidents, in JSON.

The decisions of the sensor form a library, written in Verus: each function states in its contract
what it returns and what it changes, and the laws that span functions stand beside them as proof
functions. The program around it does the input and output.

## Layout

| Place | What it holds |
|---|---|
| `src/udev.rs` | udev events, read line by line |
| `src/sysfs.rs`, `src/snapshot.rs` | where attributes of a device are found, and its fingerprint |
| `src/usb_monitor.rs`, `src/tracker_laws.rs` | what is remembered of devices, and what holds of it |
| `src/usb_incidents.rs`, `src/anomaly.rs`, `src/class_policy.rs` | incidents of devices |
| `src/inotify.rs`, `src/fs_monitor.rs`, `src/watcher.rs` | notices of the kernel, incidents of files, the watcher |
| `src/clamscan.rs` | lines of a malware scan |
| `src/supervisor.rs` | restarts of the udev monitor |
| `src/incident.rs`, `src/json.rs`, `src/digest.rs`, `src/idsm.rs` | records, their text, their identifiers, their delivery |
| `src/json_reader.rs`, `src/record_laws.rs` | how JSON is read, and that a record is read back from its text |
| `src/text.rs`, `src/digits.rs`, `src/byte_order.rs`, `src/calendar.rs`, `src/clock.rs`, `src/window.rs` | strings, numbers, bytes of numbers, dates, the clock, sliding windows |
| `app/` | the program: processes, threads, files, sockets, environment variables |
| `tests/` | tests of the library |

## Configuration

| Variable | Meaning | Default |
|---|---|---|
| `FS_MONITOR_TARGET` | directory or file to watch and to scan | `~/Projects/rust/sensor` |
| `INCIDENT_SENSOR_ID` | `sensor_id` of every incident | `sensor-01` |
| `INCIDENT_ECU_ID` | `ecu_id` of every incident | `unknown_ecu` |
| `ALLOWED_USB_CLASSES` | comma-separated device classes that are permitted; unset permits all | |
| `IDSM_IP`, `IDSM_PORT` | address of the intrusion detection system manager | `127.0.0.1`, `8081` |

Incidents go to standard output. Each is also forwarded to the manager by an HTTP POST request over a
connection that is kept open; the body is one line with a JSON object. Diagnostics go to standard
error.
