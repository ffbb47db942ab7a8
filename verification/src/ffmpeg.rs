use vstd::prelude::*;

use crate::image::ScaleMode;
use vstd::utf8::{decode_utf8, valid_utf8};
use crate::text::{trim_then_strip_commas, trim_trailing_commas, trim_whitespace};

verus! {

/// Appends a copy of `s` to a list of arguments.
fn push_arg(args: &mut Vec<String>, s: &str)
    ensures
        final(args).deep_view() == old(args).deep_view().push(s@),
{
    args.push(String::from_str(s));
    assert(args.deep_view() =~= old(args).deep_view().push(s@));
}

/// Arguments of the ffmpeg run that takes the sound of `input` out as
/// 16-bit PCM at 44100 Hz into `output_wav`, overwriting it.
pub open spec fn extract_audio_args_of(input: Seq<char>, output_wav: Seq<char>) -> Seq<Seq<char>> {
    seq![
        "-i"@,
        input,
        "-vn"@,
        "-acodec"@,
        "pcm_s16le"@,
        "-ar"@,
        "44100"@,
        output_wav,
        "-y"@,
    ]
}

/// Builds the arguments of the ffmpeg run that extracts the sound.
pub fn extract_audio_args(input: &str, output_wav: &str) -> (r: Vec<String>)
    ensures
        r.deep_view() == extract_audio_args_of(input@, output_wav@),
{
    let mut args: Vec<String> = Vec::new();
    push_arg(&mut args, "-i");
    push_arg(&mut args, input);
    push_arg(&mut args, "-vn");
    push_arg(&mut args, "-acodec");
    push_arg(&mut args, "pcm_s16le");
    push_arg(&mut args, "-ar");
    push_arg(&mut args, "44100");
    push_arg(&mut args, output_wav);
    push_arg(&mut args, "-y");
    assert(args.deep_view() =~= extract_audio_args_of(input@, output_wav@));
    args
}

/// Size in bytes of the header of the WAV files that ffmpeg writes.
pub const WAV_HEADER_LEN: u64 = 44;

/// Whether the extraction gave sound: ffmpeg succeeded and the WAV file
/// holds more than its header. `wav_len` is `None` where the file's size
/// could not be read.
pub fn audio_present(ffmpeg_succeeded: bool, wav_len: Option<u64>) -> (r: bool)
    ensures
        r == (ffmpeg_succeeded && match wav_len {
            Some(n) => n > 44,
            None => false,
        }),
{
    if !ffmpeg_succeeded {
        return false;
    }
    match wav_len {
        Some(n) => n > WAV_HEADER_LEN,
        None => false,
    }
}

/// The ffmpeg video filter that frames video as images are framed: the
/// picture is scaled to 480 rows (to an even width, as yuv420p needs) and
/// centred on a black canvas at least 640 columns wide. In `Bars` mode the
/// canvas keeps the width of a wider picture and only the middle 640
/// columns of the picture are shown, the sides black; in `Crop` mode only
/// those 640 columns are kept.
pub open spec fn frame_filter_of(mode: ScaleMode) -> Seq<char> {
    match mode {
        ScaleMode::Bars => "scale=-2:480,split[pic][bg];[bg]pad=w='max(iw,640)':h=480:x='(ow-iw)/2':y=0,drawbox=x=0:y=0:w=iw:h=ih:color=black:t=fill[canvas];[pic]crop=w='min(iw,640)':h=480[window];[canvas][window]overlay=x='(W-w)/2':y=0"@,
        ScaleMode::Crop => "scale=-2:480,crop=w='min(iw,640)':h=480,pad=w=640:h=480:x='(ow-iw)/2':y=0"@,
    }
}

/// Arguments of the ffmpeg run that writes every frame of `input`, fitted
/// into 640x480, as numbered JPEG files after `frame_pattern`.
pub open spec fn extract_frames_args_of(
    input: Seq<char>,
    frame_pattern: Seq<char>,
    mode: ScaleMode,
) -> Seq<Seq<char>> {
    seq!["-i"@, input, "-vf"@, frame_filter_of(mode), frame_pattern, "-y"@]
}

/// Builds the arguments of the ffmpeg run that extracts the frames.
pub fn extract_frames_args(input: &str, frame_pattern: &str, mode: ScaleMode) -> (r: Vec<String>)
    ensures
        r.deep_view() == extract_frames_args_of(input@, frame_pattern@, mode),
{
    let filter = match mode {
        ScaleMode::Bars => "scale=-2:480,split[pic][bg];[bg]pad=w='max(iw,640)':h=480:x='(ow-iw)/2':y=0,drawbox=x=0:y=0:w=iw:h=ih:color=black:t=fill[canvas];[pic]crop=w='min(iw,640)':h=480[window];[canvas][window]overlay=x='(W-w)/2':y=0",
        ScaleMode::Crop => "scale=-2:480,crop=w='min(iw,640)':h=480,pad=w=640:h=480:x='(ow-iw)/2':y=0",
    };
    let mut args: Vec<String> = Vec::new();
    push_arg(&mut args, "-i");
    push_arg(&mut args, input);
    push_arg(&mut args, "-vf");
    push_arg(&mut args, filter);
    push_arg(&mut args, frame_pattern);
    push_arg(&mut args, "-y");
    assert(args.deep_view() =~= extract_frames_args_of(input@, frame_pattern@, mode));
    args
}

/// Arguments of the ffprobe run that prints the frame rate of the first
/// video stream of `input` as `<num>/<den>`.
pub open spec fn probe_fps_args_of(input: Seq<char>) -> Seq<Seq<char>> {
    seq![
        "-v"@,
        "error"@,
        "-select_streams"@,
        "v:0"@,
        "-show_entries"@,
        "stream=r_frame_rate"@,
        "-of"@,
        "csv=p=0"@,
        input,
    ]
}

/// Builds the arguments of the ffprobe run that reads the frame rate.
pub fn probe_fps_args(input: &str) -> (r: Vec<String>)
    ensures
        r.deep_view() == probe_fps_args_of(input@),
{
    let mut args: Vec<String> = Vec::new();
    push_arg(&mut args, "-v");
    push_arg(&mut args, "error");
    push_arg(&mut args, "-select_streams");
    push_arg(&mut args, "v:0");
    push_arg(&mut args, "-show_entries");
    push_arg(&mut args, "stream=r_frame_rate");
    push_arg(&mut args, "-of");
    push_arg(&mut args, "csv=p=0");
    push_arg(&mut args, input);
    assert(args.deep_view() =~= probe_fps_args_of(input@));
    args
}

/// Arguments of the ffmpeg run that joins the frames after
/// `frame_pattern` at `fps` into `output_path` in yuv420p, with the sound
/// of `audio` encoded as AAC where there is one and no sound otherwise,
/// overwriting the output.
pub open spec fn reassemble_args_of(
    frame_pattern: Seq<char>,
    fps: Seq<char>,
    output_path: Seq<char>,
    audio: Option<Seq<char>>,
) -> Seq<Seq<char>> {
    let streams = match audio {
        Some(a) => seq!["-i"@, a, "-map"@, "0:v"@, "-map"@, "1:a"@, "-c:a"@, "aac"@],
        None => seq!["-map"@, "0:v"@],
    };
    seq!["-r"@, fps, "-i"@, frame_pattern] + streams + seq![
        "-pix_fmt"@,
        "yuv420p"@,
        output_path,
        "-y"@,
    ]
}

/// Builds the arguments of the ffmpeg run that joins frames and sound.
pub fn reassemble_args(frame_pattern: &str, fps: &str, output_path: &str, audio: Option<&str>) -> (r:
    Vec<String>)
    ensures
        r.deep_view() == reassemble_args_of(
            frame_pattern@,
            fps@,
            output_path@,
            match audio {
                Some(a) => Some(a@),
                None => None,
            },
        ),
{
    let mut args: Vec<String> = Vec::new();
    push_arg(&mut args, "-r");
    push_arg(&mut args, fps);
    push_arg(&mut args, "-i");
    push_arg(&mut args, frame_pattern);
    match audio {
        Some(a) => {
            push_arg(&mut args, "-i");
            push_arg(&mut args, a);
            push_arg(&mut args, "-map");
            push_arg(&mut args, "0:v");
            push_arg(&mut args, "-map");
            push_arg(&mut args, "1:a");
            push_arg(&mut args, "-c:a");
            push_arg(&mut args, "aac");
        },
        None => {
            push_arg(&mut args, "-map");
            push_arg(&mut args, "0:v");
        },
    }
    push_arg(&mut args, "-pix_fmt");
    push_arg(&mut args, "yuv420p");
    push_arg(&mut args, output_path);
    push_arg(&mut args, "-y");
    assert(args.deep_view() =~= reassemble_args_of(
        frame_pattern@,
        fps@,
        output_path@,
        match audio {
            Some(a) => Some(a@),
            None => None,
        },
    ));
    args
}

/// What `String::from_utf8_lossy` makes of bytes: their UTF-8 decoding,
/// with U+FFFD for each invalid sequence.
pub uninterp spec fn utf8_lossy(bytes: Seq<u8>) -> Seq<char>;

/// Calls `String::from_utf8_lossy`. The contract claims that the result is
/// `utf8_lossy` of the bytes and, as its documentation says, that valid
/// UTF-8 is decoded unchanged. How invalid sequences are replaced is left
/// unsaid.
#[verifier::external_body]
fn from_utf8_lossy(bytes: &[u8]) -> (r: String)
    ensures
        r@ == utf8_lossy(bytes@),
        valid_utf8(bytes@) ==> r@ == decode_utf8(bytes@),
{
    String::from_utf8_lossy(bytes).into_owned()
}

/// The frame rate from what ffprobe printed: the bytes read as UTF-8,
/// without surrounding whitespace and without the commas that the CSV
/// output may leave at its end.
pub fn fps_from_probe_output(stdout: &[u8]) -> (r: String)
    ensures
        r@ == trim_trailing_commas(trim_whitespace(utf8_lossy(stdout@))),
        valid_utf8(stdout@) ==> r@ == trim_trailing_commas(trim_whitespace(decode_utf8(stdout@))),
{
    let text = from_utf8_lossy(stdout);
    trim_then_strip_commas(text.as_str())
}

} // verus!
