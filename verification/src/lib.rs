//! A screen recorder's decisions: what is captured, when a segment begins and ends, what is
//! written about it, who may record, and what clients are told.
pub mod backend;
pub mod capture;
pub mod clock;
pub mod decimal;
pub mod encoder;
pub mod fragments;
pub mod frame;
pub mod handover;
pub mod manager;
pub mod ocr;
pub mod owner;
pub mod path;
pub mod pixels;
pub mod protocol;
pub mod segments;
pub mod status;
pub mod style;
pub mod text;
pub mod tick;
