//! The options the command line can select.
//!
//! Only the `crazy` flag reaches the animation engine in this crate; the
//! remaining fields drive the static printers that sit around the library.

use vstd::prelude::*;

verus! {

/// Parsed command-line options.
pub struct Args {
    /// Width of blocks, in character spaces.
    pub width: u8,
    /// Multiple colors shown in one line (only for ANSI ranges).
    pub inline: bool,
    /// Print color number(s) before each block (only for ANSI).
    pub numbered: bool,
    /// Fit hex gradient to full terminal width.
    pub fit: bool,
    /// Color(s) to display: ANSI codes, names, or hex strings.
    pub values: Vec<String>,
    /// Print a full six-phase RGB rainbow.
    pub rainbow: bool,
    /// Print a grayscale gradient.
    pub grayscale: bool,
    /// Show a fullscreen rainbow gradient loop.
    pub loop_gradient: bool,
    /// Show the fullscreen grid of cells fading to random colors.
    pub crazy: bool,
    /// Print help information.
    pub help: bool,
    /// Print version information.
    pub version: bool,
    /// An argument was rejected; nothing should run.
    pub error: bool,
}

impl Args {
    /// The defaults before any option is read: six-space blocks, no values,
    /// every flag off.
    pub fn new() -> (args: Args)
        ensures
            args.width == 6,
            !args.inline,
            !args.numbered,
            !args.fit,
            args.values@.len() == 0,
            !args.rainbow,
            !args.grayscale,
            !args.loop_gradient,
            !args.crazy,
            !args.help,
            !args.version,
            !args.error,
    {
        Args {
            width: 6,
            inline: false,
            numbered: false,
            fit: false,
            values: Vec::new(),
            rainbow: false,
            grayscale: false,
            loop_gradient: false,
            crazy: false,
            help: false,
            version: false,
            error: false,
        }
    }
}

} // verus!
