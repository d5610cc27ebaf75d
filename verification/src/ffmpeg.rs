//! Building the argument list of an `ffmpeg` invocation.

use vstd::prelude::*;
use vstd::string::*;

verus! {

/// What can go wrong when `ffmpeg` is run.
#[derive(Debug, Clone, PartialEq, Eq)]
pub enum FfmpegError {
    /// No `ffmpeg` was found on the search path.
    NotInstalled,
    /// `ffmpeg` could not be started or ended with an error; holds what it reported.
    ExecutionFailed(String),
    /// `ffmpeg` ran but its output could not be used.
    InvalidOutput(String),
    /// Reading or writing a file failed.
    Io(String),
}

/// The message of an error, as text.
pub open spec fn ffmpeg_message(e: FfmpegError) -> Seq<char> {
    match e {
        FfmpegError::NotInstalled => "FFmpeg not found in system PATH"@,
        FfmpegError::ExecutionFailed(s) => "FFmpeg execution failed: "@ + s@,
        FfmpegError::InvalidOutput(s) => "Invalid output: "@ + s@,
        FfmpegError::Io(s) => "IO error: "@ + s@,
    }
}

impl FfmpegError {
    /// The message of the error.
    pub fn message(&self) -> (text: String)
        ensures
            text@ == ffmpeg_message(*self),
    {
        match self {
            FfmpegError::NotInstalled => String::from_str("FFmpeg not found in system PATH"),
            FfmpegError::ExecutionFailed(s) => String::from_str("FFmpeg execution failed: ").concat(
                s.as_str(),
            ),
            FfmpegError::InvalidOutput(s) => String::from_str("Invalid output: ").concat(s.as_str()),
            FfmpegError::Io(s) => String::from_str("IO error: ").concat(s.as_str()),
        }
    }
}

/// The arguments of one `ffmpeg` invocation, in order.
pub struct FfmpegCommand {
    args: Vec<String>,
}

/// The texts of a list of borrowed arguments.
pub open spec fn texts_of(args: Seq<&str>) -> Seq<Seq<char>> {
    args.map_values(|s: &str| s@)
}

impl View for FfmpegCommand {
    type V = Seq<Seq<char>>;

    closed spec fn view(&self) -> Seq<Seq<char>> {
        self.args@.map_values(|s: String| s@)
    }
}

impl FfmpegCommand {
    /// A command without arguments.
    pub fn new() -> (cmd: FfmpegCommand)
        ensures
            cmd@ == Seq::<Seq<char>>::empty(),
    {
        let cmd = FfmpegCommand { args: Vec::new() };
        assert(cmd@ =~= Seq::<Seq<char>>::empty());
        cmd
    }

    /// Adds `-i` and the path of an input file.
    pub fn input(self, path: &str) -> (cmd: FfmpegCommand)
        ensures
            cmd@ == self@.push("-i"@).push(path@),
    {
        let mut args = self.args;
        args.push(String::from_str("-i"));
        args.push(String::from_str(path));
        let cmd = FfmpegCommand { args };
        assert(cmd@ =~= self@.push("-i"@).push(path@));
        cmd
    }

    /// Adds the path of the output file.
    pub fn output(self, path: &str) -> (cmd: FfmpegCommand)
        ensures
            cmd@ == self@.push(path@),
    {
        let mut args = self.args;
        args.push(String::from_str(path));
        let cmd = FfmpegCommand { args };
        assert(cmd@ =~= self@.push(path@));
        cmd
    }

    /// Adds one argument.
    pub fn arg(self, value: &str) -> (cmd: FfmpegCommand)
        ensures
            cmd@ == self@.push(value@),
    {
        self.output(value)
    }

    /// Adds the given arguments, in their order.
    pub fn args(self, args: &[&str]) -> (cmd: FfmpegCommand)
        ensures
            cmd@ == self@ + texts_of(args@),
    {
        let ghost before = self@;
        let mut list = self.args;
        let mut i: usize = 0;
        while i < args.len()
            invariant
                i <= args@.len(),
                list@.map_values(|s: String| s@) == before + texts_of(args@.subrange(0, i as int)),
            decreases args@.len() - i,
        {
            let ghost old_list = list@;
            list.push(String::from_str(args[i]));
            assert(list@.map_values(|s: String| s@) =~= before + texts_of(
                args@.subrange(0, i + 1),
            )) by {
                assert(list@.map_values(|s: String| s@) =~= old_list.map_values(|s: String| s@).push(
                    args@[i as int]@,
                ));
                assert(texts_of(args@.subrange(0, i + 1)) =~= texts_of(
                    args@.subrange(0, i as int),
                ).push(args@[i as int]@));
            }
            i = i + 1;
        }
        assert(args@.subrange(0, i as int) =~= args@);
        FfmpegCommand { args: list }
    }

    /// The arguments, as they are handed to the program.
    pub fn arguments(&self) -> (list: &Vec<String>)
        ensures
            list@.map_values(|s: String| s@) == self@,
    {
        &self.args
    }
}

impl Default for FfmpegCommand {
    fn default() -> (cmd: FfmpegCommand)
        ensures
            cmd@ == Seq::<Seq<char>>::empty(),
    {
        FfmpegCommand::new()
    }
}

} // verus!
