//! Core of an image-transformation request protocol: a URL-safe token encodes
//! an ordered pipeline of image operations (resizes and named filters), and a
//! single-use engine decodes such a pipeline and applies it to pixel data.

pub mod pb;
pub mod wire;
pub mod args;
pub mod b64;
pub mod codec;
pub mod engine;
pub mod photon;
