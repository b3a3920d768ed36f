//! An in-memory registry of a smart home: a house holds uniquely named rooms,
//! a room holds uniquely named devices, and reports are produced from a
//! read-only view of the house.

pub mod smart;
