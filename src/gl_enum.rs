//! The OpenGL enumerants that the library's rules look at, with the values
//! that the OpenGL registry gives them.

use vstd::prelude::*;

verus! {

pub const RED: u32 = 0x1903;
pub const RGBA: u32 = 0x1908;
pub const DEPTH_COMPONENT: u32 = 0x1902;
pub const RGBA8: u32 = 0x8058;
pub const RGBA16F: u32 = 0x881A;
pub const R16F: u32 = 0x822D;
pub const DEPTH_COMPONENT24: u32 = 0x81A6;

pub const NEAREST: u32 = 0x2600;
pub const LINEAR: u32 = 0x2601;

pub const COLOR_ATTACHMENT0: u32 = 0x8CE0;
pub const COLOR_ATTACHMENT31: u32 = 0x8CFF;
pub const DEPTH_ATTACHMENT: u32 = 0x8D00;

pub const DEPTH_BUFFER_BIT: u32 = 0x0100;
pub const COLOR_BUFFER_BIT: u32 = 0x4000;

pub const ARRAY_BUFFER: u32 = 0x8892;
pub const ELEMENT_ARRAY_BUFFER: u32 = 0x8893;

pub const NO_ERROR: u32 = 0;
pub const INVALID_ENUM: u32 = 0x0500;
pub const INVALID_VALUE: u32 = 0x0501;
pub const INVALID_OPERATION: u32 = 0x0502;
pub const STACK_OVERFLOW: u32 = 0x0503;
pub const STACK_UNDERFLOW: u32 = 0x0504;
pub const OUT_OF_MEMORY: u32 = 0x0505;
pub const INVALID_FRAMEBUFFER_OPERATION: u32 = 0x0506;

} // verus!
