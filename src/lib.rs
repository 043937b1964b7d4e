//! A panic reporter for bare-metal targets, written as a verified state
//! machine.
//!
//! On a fatal error the reporter disables interrupts, tries to open the debug
//! channel to the host, writes one diagnostic line of the form
//! `panicked at '<message>', <file>:<line>:<column>\n` piece by piece,
//! abandons the line at the first failure, fires a breakpoint and then idles
//! forever. The library decides each step; the code that drives the hardware
//! performs the action and reports back whether it worked.

pub mod decimal;
pub mod laws;
pub mod line;
pub mod reporter;
pub mod text;
