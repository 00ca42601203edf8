//! Locating the transcoder tool.
//!
//! The tool may be bundled under the application's data directory or found
//! on the system; probing the file system and running `-version` happen
//! outside the library, which receives the probe's outcome as an
//! `FFmpegStatus` and decides from it.

use vstd::prelude::*;
use vstd::string::StringExecFns;

verus! {

/// Outcome of probing for the transcoder tool.
#[derive(Debug, Clone, PartialEq, Eq)]
pub struct FFmpegStatus {
    /// Whether a working tool was found.
    pub installed: bool,
    /// Invocation path of the tool, when found.
    pub path: Option<String>,
    /// Version string the tool reported, when found.
    pub version: Option<String>,
}

/// Progress report of a tool download.
#[derive(Debug, Clone, PartialEq, Eq)]
pub struct FFmpegProgress {
    /// Which stage the download is in.
    pub stage: String,
    /// Completion, 0 to 100.
    pub progress: u32,
    /// A short human-readable status line.
    pub message: String,
}

/// Knows where the bundled transcoder tool lives.
pub struct FFmpegManager {
    /// Directory the bundled tool is installed under.
    pub ffmpeg_dir: String,
    /// Whether executables carry the `.exe` suffix on this platform.
    pub windows: bool,
}

impl FFmpegManager {
    /// A manager for the tool directory `ffmpeg_dir`.
    pub fn new(ffmpeg_dir: String, windows: bool) -> (m: FFmpegManager)
        ensures
            m.ffmpeg_dir == ffmpeg_dir,
            m.windows == windows,
    {
        FFmpegManager { ffmpeg_dir, windows }
    }

    /// Path of the bundled `ffmpeg` executable.
    pub fn ffmpeg_path(&self) -> (r: String)
        ensures
            self.windows ==> r@ == self.ffmpeg_dir@ + "/ffmpeg.exe"@,
            !self.windows ==> r@ == self.ffmpeg_dir@ + "/ffmpeg"@,
    {
        let mut s = self.ffmpeg_dir.clone();
        if self.windows {
            s.append("/ffmpeg.exe");
        } else {
            s.append("/ffmpeg");
        }
        s
    }

    /// Path of the bundled `ffprobe` executable.
    pub fn ffprobe_path(&self) -> (r: String)
        ensures
            self.windows ==> r@ == self.ffmpeg_dir@ + "/ffprobe.exe"@,
            !self.windows ==> r@ == self.ffmpeg_dir@ + "/ffprobe"@,
    {
        let mut s = self.ffmpeg_dir.clone();
        if self.windows {
            s.append("/ffprobe.exe");
        } else {
            s.append("/ffprobe");
        }
        s
    }

    /// The invocation path to use, from a probe's outcome: the found path
    /// when the tool is installed, else an error asking for an install.
    pub fn get_ffmpeg_path(&self, status: &FFmpegStatus) -> (r: Result<String, String>)
        ensures
            match r {
                Result::Ok(p) => status.installed && (status.path matches Option::Some(q) && p@
                    == q@),
                Result::Err(_) => !status.installed || status.path is None,
            },
    {
        resolve_ffmpeg_path(status)
    }
}

/// The invocation path to use, from a probe's outcome.
pub fn get_ffmpeg_path(status: &FFmpegStatus) -> (r: Result<String, String>)
    ensures
        match r {
            Result::Ok(p) => status.installed && (status.path matches Option::Some(q) && p@
                == q@),
            Result::Err(_) => !status.installed || status.path is None,
        },
{
    resolve_ffmpeg_path(status)
}

/// Whether the probe found a working tool.
pub fn is_ffmpeg_installed(status: &FFmpegStatus) -> (r: bool)
    ensures
        r == status.installed,
{
    status.installed
}

fn resolve_ffmpeg_path(status: &FFmpegStatus) -> (r: Result<String, String>)
    ensures
        match r {
            Result::Ok(p) => status.installed && (status.path matches Option::Some(q) && p@
                == q@),
            Result::Err(_) => !status.installed || status.path is None,
        },
{
    if status.installed {
        match &status.path {
            Option::Some(p) => Result::Ok(p.clone()),
            Option::None => Result::Err(
                "FFmpeg not installed. Please download FFmpeg from Settings.".to_owned(),
            ),
        }
    } else {
        Result::Err("FFmpeg not installed. Please download FFmpeg from Settings.".to_owned())
    }
}

} // verus!
