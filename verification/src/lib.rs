//! Exact plane geometry: a point with integer coordinates, its squared
//! Euclidean norm, and its distance from the origin computed as an integer
//! square root. All arithmetic is exact, so every result is pinned down by
//! its contract.

pub mod isqrt;
pub mod point;
