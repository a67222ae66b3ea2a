//! The options of the command line, as the pipeline receives them. Reading
//! them from the arguments is the caller's part.

use vstd::prelude::*;

verus! {

/// The options of one invocation.
#[derive(Debug)]
pub struct Args {
    /// Input image file; the image is read from standard input where it is missing.
    pub input: Option<String>,
    /// Interpolation method.
    pub interpolation: String,
    /// Hide the exit message.
    pub silent: bool,
    /// Image resize type.
    pub resize_type: String,
    /// Offset from the top of the terminal to start rendering the image.
    pub top_offset: usize,
}

impl Default for Args {
    /// The options of an invocation without arguments.
    fn default() -> (args: Args)
        ensures
            args.input is None,
            args.interpolation@ == "lanczos"@,
            !args.silent,
            args.resize_type@ == "fit"@,
            args.top_offset == 8,
    {
        Args {
            input: None,
            interpolation: String::from_str("lanczos"),
            silent: false,
            resize_type: String::from_str("fit"),
            top_offset: 8,
        }
    }
}

} // verus!
