//! The logic of a launcher for the jGnash desktop application.
//!
//! The launcher finds a Java runtime on the machine, makes sure that it is
//! recent enough, starts the application on it, starts it once more if the
//! application asks for that by its exit code, and ends with the exit code of
//! the application.
//!
//! This crate holds everything that is decided on the way, and none of what
//! is done: it reads no variable, starts no process and shows no dialog. The
//! [`supervisor`] names each step to be taken and is told what came of it. The
//! program around it carries the steps out.
//!
//! * [`version`] finds a version in what a runtime prints, and holds it
//!   against the minimum.
//! * [`reader`] and [`decimal`] read decimal numbers and compare them exactly.
//! * [`locator`] searches for the runtime's home, strategy by strategy.
//! * [`platform`] builds paths and command lines.
//! * [`supervisor`] leads from the search to the exit code.

pub mod decimal;
pub mod locator;
pub mod platform;
pub mod reader;
pub mod supervisor;
pub mod text;
pub mod version;
