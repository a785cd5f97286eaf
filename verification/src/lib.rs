//! N64 display-list high-level emulation: GBI command decoding, RDP state,
//! combiner and blender decoding, texture-format decoding and capture containers.
pub mod consts;
pub mod gbi;
pub mod blender;
pub mod texdec;
pub mod combiner;
pub mod mem;
pub mod interp;
pub mod rdp;
pub mod rsp;
pub mod tile_sampling;
pub mod capture;
pub mod texture_request;
pub mod scene;
