//! The deciding core of a background screen watcher.
//!
//! The watcher periodically captures every connected display, lets a text
//! recognizer read each capture, looks for a set of target phrases in the
//! recognized text and notifies a listener when one appears. Capturing,
//! recognizing, notifying and sleeping are done by the program around this
//! library; what to do, and when, is decided here:
//!
//! - [`supervisor`]: whether a loop is running, and what `start`, `stop`
//!   and `status` answer and order;
//! - [`detection_loop`]: what a running loop does next, cancellation and
//!   the delay between cycles;
//! - [`cycle`]: one sweep over all displays, all-or-nothing, with the
//!   matched phrases merged into a set;
//! - [`recognition`]: how the recognizer's answer is read;
//! - [`matching`]: case-sensitive substring matching of phrases;
//! - [`artifact`]: the names of the transient capture files.

pub mod artifact;
pub mod cycle;
pub mod detection_loop;
pub mod matching;
pub mod recognition;
pub mod supervisor;
