//! Discrete core of a stochastic sphere ray tracer.
//!
//! The renderer around this library works in floating point: vectors, the
//! sphere quadratic, material scattering and the Monte-Carlo integrator.
//! Verification cannot reach that arithmetic, so this library holds the part
//! of the renderer that is exact: every branch the renderer takes, the
//! selection of the nearest hit, the quantization of accumulated color to
//! bytes, and the assembly of the plain-text pixel stream.
//!
//! Scalar comparisons cross into the library as *order codes*: unsigned
//! integers whose order agrees with the numeric order of the scalars they
//! stand for. The caller extracts the scalar's bit pattern; the `order`
//! module turns it into the code and proves the map monotone over the
//! sign-magnitude order of bit patterns, which for finite IEEE floats is
//! their numeric order. The other contracts speak only of the integer order
//! of the codes.

pub mod color;
pub mod geometry;
pub mod order;
pub mod ppm;
pub mod raster;
pub mod scatter;
pub mod trace;
