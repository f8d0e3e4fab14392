//! The discrete core of a ray tracer.
//!
//! A ray tracer computes with rounded numbers, and nothing exact can be
//! said of a rounded sum. What it does with the numbers it has computed is
//! another matter: it picks the nearer of two roots, the nearest of many
//! hits, the face of a box, the terms that a light adds, the pixel that a
//! colour goes to. This crate holds those choices, and proves of each what
//! it chooses.
//!
//! The caller keeps the arithmetic. It hands each number over as a
//! [`scalar::Scalar`], made from the number's bit pattern, and gets back an
//! index, a variant or a verdict to go on with.
//!
//! - [`scalar`]: numbers by their place in the order.
//! - [`algebra`]: the products that make a matrix's inverse, and when it has one.
//! - [`geometry`]: which crossing of a ray with a shape is the hit.
//! - [`texture`]: which colour of a pattern, which pixel of an image.
//! - [`tracer`]: how deep a ray is followed, and what each light adds.
//! - [`scene`]: the pixels of the screen, and the frame they make.
//! - [`pixels`]: what is taken on trust of the `image` crate.
pub mod algebra;
pub mod geometry;
pub mod pixels;
pub mod scalar;
pub mod scene;
pub mod texture;
pub mod tracer;
