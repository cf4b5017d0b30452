//! Calibration of the RGMII transmit-clock delay of a network interface.
//!
//! The library holds the logic of a calibration run: the domain of legal
//! delays and their register encoding, the collection of one error-rate
//! sample per candidate, the two sweeps, the cancellation of time-order bias,
//! the detection of reliable ranges and the choice of the best candidate.
//! Hardware access, network transfers and counter reads are performed by the
//! caller, which feeds their outcomes to [`sweep::Calibration`].

pub mod error;
pub mod delay;
pub mod sample;
pub mod strike;
pub mod sweep;
pub mod register;
pub mod device_tree;
pub mod text;
pub mod status_bar;
