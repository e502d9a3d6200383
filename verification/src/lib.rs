//! The logic of a badge with a matrix of nine RGB LEDs, a button, an infrared receiver and
//! an infrared sender.
//!
//! The tasks of the badge talk to each other through [`command::TaskCommand`]. The main
//! task, [`badge::Badge`], handles the messages and decides what [`matrix::LedMatrix`]
//! shows; [`button`], [`ir`] and [`thermal`] turn what the hardware tells into messages, and
//! [`blaster`] turns orders into what the infrared sender's hardware is to do.
//! Nothing here touches the hardware: readings come in and decisions go out as values.

pub mod badge;
pub mod blaster;
pub mod button;
pub mod color;
pub mod command;
pub mod double;
pub mod effects;
pub mod float;
pub mod framebuffer;
pub mod ir;
pub mod matrix;
pub mod power;
pub mod scenes;
pub mod thermal;
