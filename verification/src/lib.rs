//! The decoding rules of an AV2 video decoder.
pub mod block;
pub mod blockbuild;
pub mod blockdec;
pub mod cflgeom;
pub mod chromatx;
pub mod coded;
pub mod compound;
pub mod coverage;
pub mod data;
pub mod decodeb;
pub mod decoder;
pub mod dsp;
pub mod edges;
pub mod env;
pub mod error;
pub mod filterrow;
pub mod flags;
pub mod frame;
pub mod framecover;
pub mod framedec;
pub mod framegeom;
pub mod frameinfo;
pub mod frameinit;
pub mod frameplan;
pub mod framesetup;
pub mod framestart;
pub mod frametop;
pub mod headers;
pub mod interctx;
pub mod interintra;
pub mod interplan;
pub mod intops;
pub mod intra;
pub mod intraplan;
pub mod ipred;
pub mod levels;
pub mod lumatx;
pub mod lumawalk;
pub mod mcgeom;
pub mod motion;
pub mod msac;
pub mod mvread;
pub mod mvresolve;
pub mod mvscale;
pub mod mvsyntax;
pub mod pal;
pub mod partition;
pub mod picplane;
pub mod predict;
pub mod refsetup;
pub mod replay;
pub mod residual;
pub mod restoration;
pub mod restunit;
pub mod sbdec;
pub mod sbrow;
pub mod sbsyntax;
pub mod sbtree;
pub mod segid;
pub mod single;
pub mod splat;
pub mod splitblock;
pub mod submit;
pub mod tables;
pub mod tile;
pub mod transforms;
pub mod txpart;
pub mod txwalk;
pub mod warp;
pub mod warpgeom;
pub mod writeback;

pub use crate::data::Data;
pub use crate::decoder::{Decoder, Picture, Settings};
pub use crate::error::Rav2dError;
