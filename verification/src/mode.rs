//! Which of the three modes a run is in, from the file it is given and the
//! live switch.

use vstd::prelude::*;
use vstd::string::StringSliceAdditionalSpecFns;

verus! {

/// What a run does with its file.
#[derive(Clone, Copy, Debug, PartialEq, Eq, Structural)]
pub enum Mode {
    /// Play the file as video beside its audio track.
    Video,
    /// Show the file as a still image and tune the conversion live.
    Interactive,
    /// Convert the file as a still image once.
    Still,
}

/// The bytes of `.mp4`, the ending of a video file's name.
pub open spec fn video_suffix() -> Seq<u8> {
    seq![0x2eu8, 0x6du8, 0x70u8, 0x34u8]
}

/// Whether a name, as its bytes, ends in `.mp4`.
pub open spec fn names_video(name: Seq<u8>) -> bool {
    name.len() >= 4 && name.subrange(name.len() - 4, name.len() as int) == video_suffix()
}

/// The mode of a run: video where the file is one, whatever the live
/// switch; otherwise as the live switch says.
pub open spec fn mode_of(name: Seq<u8>, live: bool) -> Mode {
    if names_video(name) {
        Mode::Video
    } else if live {
        Mode::Interactive
    } else {
        Mode::Still
    }
}

/// Whether a file name is that of a video.
pub fn is_video_file(file: &str) -> (video: bool)
    ensures
        video == names_video(file.spec_bytes()),
{
    let bytes = file.as_bytes();
    let length = bytes.len();
    if length < 4 {
        return false;
    }
    let video = bytes[length - 4] == 0x2e && bytes[length - 3] == 0x6d && bytes[length - 2] == 0x70
        && bytes[length - 1] == 0x34;
    proof {
        let tail = bytes@.subrange(length - 4, length as int);
        assert(tail[0] == bytes@[length - 4]);
        assert(tail[1] == bytes@[length - 3]);
        assert(tail[2] == bytes@[length - 2]);
        assert(tail[3] == bytes@[length - 1]);
        if video {
            assert(tail =~= video_suffix());
        }
    }
    video
}

/// The mode of a run on `file`.
pub fn select_mode(file: &str, live: bool) -> (mode: Mode)
    ensures
        mode == mode_of(file.spec_bytes(), live),
{
    if is_video_file(file) {
        Mode::Video
    } else if live {
        Mode::Interactive
    } else {
        Mode::Still
    }
}

} // verus!
