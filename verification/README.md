# rav2d

The decoding rules of an AV2 video decoder, written and proved in Verus.

The library decides everything about a frame that is not a pixel kernel, an
entropy decoder or a bitstream header: which syntax elements a block reads and
in which order, which contexts they are coded with, which modes and motion
vectors follow from them, where prediction reads and what it writes, in which
order transform blocks are reconstructed and filtered, and what a frame leaves
behind for later ones. Each of these is a function with a contract, and no
verified function panics or overflows.

Two things come from outside as plain values:

- Symbols. A parse names the distribution of the next symbol, and the symbol
  comes back as a number (`msac::MsacContext`). So do the candidates for a
  block's motion, the models fitted to it, and how many coefficients it has. The
  results of coefficient reading are values too (`residual::CoefReply`).
- Pixels. Reconstruction is a list of steps (`interplan`, `intraplan`,
  `lumatx`, `chromatx`, `cflgeom`) that name planes, positions and kernels.

## Layout

| | |
|---|---|
| `decoder`, `data`, `error` | compressed data in, pictures out |
| `submit`, `frameplan`, `refsetup`, `framesetup`, `frameinit`, `framestart`, `frametop`, `frame`, `framegeom`, `framedec`, `framecover` | a frame, its references and its geometry |
| `tile`, `sbrow`, `sbdec`, `sbtree`, `replay`, `sbsyntax`, `partition`, `coverage` | tiles, superblocks and their partitions |
| `decodeb`, `blockbuild`, `blockdec`, `flags`, `segid`, `intra`, `pal`, `txpart` | a block, from its syntax to the steps that build it |
| `single`, `compound`, `interctx`, `mvsyntax`, `mvread`, `mvresolve`, `mvscale`, `motion`, `warp` | inter prediction syntax and motion vectors |
| `env`, `block`, `writeback`, `splat`, `edges`, `coded` | what blocks know of their neighbours |
| `interplan`, `predict`, `interintra`, `mcgeom`, `warpgeom` | motion-compensated reconstruction |
| `intraplan`, `transforms`, `lumawalk`, `lumatx`, `chromatx`, `cflgeom`, `ipred`, `residual`, `txwalk`, `splitblock` | intra and residual reconstruction |
| `restoration`, `restunit`, `filterrow` | loop filters |
| `levels`, `tables`, `headers`, `frameinfo`, `dsp`, `picplane`, `intops`, `msac` | types, tables and arithmetic |

Properties that span several functions are the proof functions whose names
begin with `law_`.

`app/` drives a decoder with a bitstream parser that the caller brings, and
gives its errors the traits of ordinary Rust errors.
