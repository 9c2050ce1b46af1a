//! Batch configuration: the three output modes with their presets, the
//! per-batch resolved parameter snapshot, the coarse quality heuristic, and
//! the derivation of each output path from the input path and the snapshot.

use vstd::prelude::*;
use crate::paths;

verus! {

/// Output mode selected for a batch.
#[derive(Clone, Copy, PartialEq, Eq, Structural, Debug)]
pub enum ProcessMode {
    WeChat,
    HD,
    Custom,
}

/// Persistent user settings, as kept between runs by the presentation layer.
#[derive(Clone, Debug)]
pub struct AppConfig {
    pub mode: ProcessMode,
    pub custom_max_dim: u32,
    pub custom_quality: u8,
    pub custom_target_kb: u32,
    pub overwrite: bool,
    pub keep_original_name: bool,
}

impl Default for AppConfig {
    /// The out-of-the-box settings: custom mode with a 3000 px cap at
    /// quality 95, no size target, no overwriting, suffixed names.
    fn default() -> (r: Self)
        ensures
            r.mode == ProcessMode::Custom,
            r.custom_max_dim == 3000,
            r.custom_quality == 95,
            r.custom_target_kb == 0,
            !r.overwrite,
            !r.keep_original_name,
    {
        AppConfig {
            mode: ProcessMode::Custom,
            custom_max_dim: 3000,
            custom_quality: 95,
            custom_target_kb: 0,
            overwrite: false,
            keep_original_name: false,
        }
    }
}

/// Resolved, mode-specific parameters: an immutable snapshot for one batch.
/// `output_dir`, when set, is a directory path without a trailing separator.
pub struct ProcessConfig {
    pub mode: ProcessMode,
    pub max_dim: u32,
    pub quality: u8,
    pub target_kb: u32,
    pub output_dir: Option<Vec<u8>>,
    pub overwrite: bool,
    pub keep_original_name: bool,
}

impl ProcessConfig {
    /// A usable snapshot: the quality is a percentage, the dimension cap is
    /// positive, and overwriting excludes the separate keep-name switch.
    pub open spec fn wf(self) -> bool {
        &&& 1 <= self.quality <= 100
        &&& self.max_dim > 0
        &&& !(self.overwrite && self.keep_original_name)
    }
}

/// Builds the snapshot for one batch from the persistent settings: the two
/// fixed presets pin every parameter, the custom mode copies the custom
/// fields. Overwriting wins over the keep-name switch.
pub fn resolve_config(app: &AppConfig, output_dir: Option<Vec<u8>>) -> (r: ProcessConfig)
    requires
        app.mode == ProcessMode::Custom ==> 1 <= app.custom_quality <= 100 && app.custom_max_dim
            > 0,
    ensures
        r.wf(),
        r.mode == app.mode,
        r.overwrite == app.overwrite,
        r.keep_original_name == (app.keep_original_name && !app.overwrite),
        r.output_dir == output_dir,
        app.mode == ProcessMode::WeChat ==> r.max_dim == 2048 && r.quality == 85 && r.target_kb
            == 900,
        app.mode == ProcessMode::HD ==> r.max_dim == 4096 && r.quality == 95 && r.target_kb
            == 5000,
        app.mode == ProcessMode::Custom ==> r.max_dim == app.custom_max_dim && r.quality
            == app.custom_quality && r.target_kb == app.custom_target_kb,
{
    let (max_dim, quality, target_kb): (u32, u8, u32) = match app.mode {
        ProcessMode::WeChat => (2048, 85, 900),
        ProcessMode::HD => (4096, 95, 5000),
        ProcessMode::Custom => (app.custom_max_dim, app.custom_quality, app.custom_target_kb),
    };
    ProcessConfig {
        mode: app.mode,
        max_dim,
        quality,
        target_kb,
        output_dir,
        overwrite: app.overwrite,
        keep_original_name: app.keep_original_name && !app.overwrite,
    }
}

/// JPEG quality actually used by the encoder: a small positive size target
/// forces a fixed low quality tier instead of searching for an exact byte
/// size. This coarse heuristic is kept deliberately: it selects a tier, it
/// does not guarantee the target size.
pub fn effective_quality(quality: u8, target_kb: u32) -> (r: u8)
    ensures
        r == (if 0 < target_kb < 1000 { 75u8 } else { quality }),
{
    if target_kb > 0 && target_kb < 1000 {
        75
    } else {
        quality
    }
}

/// The file-name suffix of each mode.
pub open spec fn mode_suffix(m: ProcessMode) -> Seq<u8> {
    match m {
        ProcessMode::WeChat => seq![95u8, 119u8, 101u8, 99u8, 104u8, 97u8, 116u8],
        ProcessMode::HD => seq![95u8, 104u8, 100u8],
        ProcessMode::Custom => seq![95u8, 99u8, 117u8, 115u8, 116u8, 111u8, 109u8],
    }
}

/// The output extension, with its dot.
pub open spec fn jpg_ext() -> Seq<u8> {
    seq![46u8, 106u8, 112u8, 103u8]
}

/// The directory prefix (with trailing separator) that outputs for `p` go
/// into: the configured override, or the input's own directory.
pub open spec fn out_dir_prefix(p: Seq<u8>, dir_override: Option<Seq<u8>>) -> Seq<u8> {
    match dir_override {
        Some(d) => d + seq![paths::sep()],
        None => paths::dir_of(p),
    }
}

/// Where the converted image for input `p` is written: in place when
/// overwriting; otherwise into the output directory under the input's stem,
/// with the mode suffix unless the original name is kept.
pub open spec fn output_path(
    p: Seq<u8>,
    mode: ProcessMode,
    dir_override: Option<Seq<u8>>,
    overwrite: bool,
    keep_original_name: bool,
) -> Seq<u8> {
    if overwrite {
        p
    } else if keep_original_name {
        out_dir_prefix(p, dir_override) + paths::stem_of_path(p) + jpg_ext()
    } else {
        out_dir_prefix(p, dir_override) + paths::stem_of_path(p) + mode_suffix(mode) + jpg_ext()
    }
}

use crate::paths::append_bytes;

/// Derives the output path of one input under the batch snapshot. A pure
/// function of the two: the same input and settings always name the same
/// output file.
pub fn derive_output_path(input: &Vec<u8>, cfg: &ProcessConfig) -> (r: Vec<u8>)
    ensures
        r@ == output_path(
            input@,
            cfg.mode,
            match cfg.output_dir {
                Some(d) => Some(d@),
                None => None,
            },
            cfg.overwrite,
            cfg.keep_original_name,
        ),
{
    if cfg.overwrite {
        let mut r: Vec<u8> = Vec::new();
        append_bytes(&mut r, input);
        proof {
            assert(r@ =~= input@);
        }
        return r;
    }
    let mut r: Vec<u8> = Vec::new();
    match &cfg.output_dir {
        Some(d) => {
            append_bytes(&mut r, d);
            r.push(47u8);
            proof {
                assert(r@ =~= d@ + seq![paths::sep()]);
            }
        },
        None => {
            let dir = paths::dir_of_path(input);
            append_bytes(&mut r, &dir);
            proof {
                assert(r@ =~= paths::dir_of(input@));
            }
        },
    }
    let stem = paths::stem_of(input);
    append_bytes(&mut r, &stem);
    if !cfg.keep_original_name {
        let mut sfx: Vec<u8> = Vec::new();
        sfx.push(95u8);
        match cfg.mode {
            ProcessMode::WeChat => {
                sfx.push(119u8);
                sfx.push(101u8);
                sfx.push(99u8);
                sfx.push(104u8);
                sfx.push(97u8);
                sfx.push(116u8);
            },
            ProcessMode::HD => {
                sfx.push(104u8);
                sfx.push(100u8);
            },
            ProcessMode::Custom => {
                sfx.push(99u8);
                sfx.push(117u8);
                sfx.push(115u8);
                sfx.push(116u8);
                sfx.push(111u8);
                sfx.push(109u8);
            },
        }
        proof {
            assert(sfx@ =~= mode_suffix(cfg.mode));
        }
        append_bytes(&mut r, &sfx);
    }
    r.push(46u8);
    r.push(106u8);
    r.push(112u8);
    r.push(103u8);
    proof {
        if cfg.keep_original_name {
            assert(r@ =~= out_dir_prefix(
                input@,
                match cfg.output_dir {
                    Some(d) => Some(d@),
                    None => None,
                },
            ) + paths::stem_of_path(input@) + jpg_ext());
        } else {
            assert(r@ =~= out_dir_prefix(
                input@,
                match cfg.output_dir {
                    Some(d) => Some(d@),
                    None => None,
                },
            ) + paths::stem_of_path(input@) + mode_suffix(cfg.mode) + jpg_ext());
        }
    }
    r
}

} // verus!
