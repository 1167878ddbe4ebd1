//! Sensor values packed into `u16`s between pre-determined limits.
//!
//! The scaling between the real (floating point) value and the packed `u16` is
//! done outside the verified library; the packed types themselves only carry
//! the raw `u16` and hand it back unchanged.
use vstd::prelude::*;

verus! {

/// An acceleration value packed into an u16 between pre-determined limits.
#[derive(Debug, Copy, Clone, PartialEq, Eq, Structural)]
pub struct A16(pub u16);

/// A gyro value packed into an u16 between pre-determined limits.
#[derive(Debug, Copy, Clone, PartialEq, Eq, Structural)]
pub struct G16(pub u16);

/// A relative longitude packed into an u16.
#[derive(Debug, Copy, Clone, PartialEq, Eq, Structural)]
pub struct Lon16(pub u16);

/// A relative latitude packed into an u16.
#[derive(Debug, Copy, Clone, PartialEq, Eq, Structural)]
pub struct Lat16(pub u16);

/// A relative height above mean sea level packed into an u16.
#[derive(Debug, Copy, Clone, PartialEq, Eq, Structural)]
pub struct Msl16(pub u16);

/// A temperature value packed into an u16 between pre-determined limits.
#[derive(Debug, Copy, Clone, PartialEq, Eq, Structural)]
pub struct T16(pub u16);

impl A16 {
    pub fn from_u16(u: u16) -> (r: A16)
        ensures
            r.0 == u,
    {
        A16(u)
    }

    pub fn to_u16(&self) -> (r: u16)
        ensures
            r == self.0,
    {
        self.0
    }
}

impl G16 {
    pub fn from_u16(u: u16) -> (r: G16)
        ensures
            r.0 == u,
    {
        G16(u)
    }

    pub fn to_u16(&self) -> (r: u16)
        ensures
            r == self.0,
    {
        self.0
    }
}

impl Lon16 {
    pub fn from_u16(u: u16) -> (r: Lon16)
        ensures
            r.0 == u,
    {
        Lon16(u)
    }

    pub fn to_u16(&self) -> (r: u16)
        ensures
            r == self.0,
    {
        self.0
    }
}

impl Lat16 {
    pub fn from_u16(u: u16) -> (r: Lat16)
        ensures
            r.0 == u,
    {
        Lat16(u)
    }

    pub fn to_u16(&self) -> (r: u16)
        ensures
            r == self.0,
    {
        self.0
    }
}

impl Msl16 {
    pub fn from_u16(u: u16) -> (r: Msl16)
        ensures
            r.0 == u,
    {
        Msl16(u)
    }

    pub fn to_u16(&self) -> (r: u16)
        ensures
            r == self.0,
    {
        self.0
    }
}

impl T16 {
    pub fn from_u16(u: u16) -> (r: T16)
        ensures
            r.0 == u,
    {
        T16(u)
    }

    pub fn to_u16(&self) -> (r: u16)
        ensures
            r == self.0,
    {
        self.0
    }
}

} // verus!
