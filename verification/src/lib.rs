//! Generator core for typed peripheral-access libraries: the device model,
//! name sanitising, property resolution, field arithmetic, the register
//! facade and the device-level emission plan.

pub mod bits;
pub mod derivation;
pub mod device;
pub mod expand;
pub mod field;
pub mod generic;
pub mod ident;
pub mod interrupt;
pub mod layout;
pub mod model;
pub mod peripheral;
pub mod register;
pub mod singleton;
pub mod text;
