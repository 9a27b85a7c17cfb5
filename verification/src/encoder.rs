//! What is handed to the external encoder for one job, and what is read back
//! from its diagnostic stream: the filter expression, the argument list, and
//! the progress markers.

use vstd::prelude::*;
use crate::escape::{
    escape_backslashes,
    escape_overlay_text,
    escaped_backslashes,
    escaped_overlay_text,
};
use crate::text::{chars_of, decimal, push_decimal, string_of_range};

verus! {

/// Width of the canonical frame, in pixels.
pub const FRAME_WIDTH: i32 = 1920;

/// Height of the canonical frame, in pixels.
pub const FRAME_HEIGHT: i32 = 1080;

/// Size of the overlay font.
pub const FONT_SIZE: i32 = 34;

/// Space between the lines of the overlay.
pub const LINE_SPACING: i32 = 6;

/// Space between the overlay and the right edge of the frame.
pub const PADDING_RIGHT: i32 = 50;

/// Space between the overlay and the bottom edge of the frame.
pub const PADDING_BOTTOM: i32 = 40;

/// The step that brings any input to the canonical frame: scaled down to fit,
/// aspect ratio kept, padded so that the picture sits in the middle.
pub open spec fn scale_and_pad_step() -> Seq<char> {
    "scale="@ + decimal(FRAME_WIDTH as int) + ":"@ + decimal(FRAME_HEIGHT as int)
        + ":force_original_aspect_ratio=decrease,pad="@ + decimal(FRAME_WIDTH as int) + ":"@
        + decimal(FRAME_HEIGHT as int) + ":(ow-iw)/2:(oh-ih)/2"@
}

/// The step that draws the overlay: white at three quarters opacity, anchored
/// at the bottom right, its lines centred. `font` and `text` stand in it as
/// they are, so both must be escaped already.
pub open spec fn draw_text_step(font: Seq<char>, text: Seq<char>) -> Seq<char> {
    "drawtext=fontfile='"@ + font + "':text='"@ + text + "':fontcolor=white@0.75:fontsize="@
        + decimal(FONT_SIZE as int) + ":x=w-(tw+"@ + decimal(PADDING_RIGHT as int) + "):y=h-(th+"@
        + decimal(PADDING_BOTTOM as int) + "):line_spacing="@ + decimal(LINE_SPACING as int)
        + ":text_align=2"@
}

/// The filter expression for a font file and an overlay text, both still
/// unescaped.
pub open spec fn overlay_filter(font_file: Seq<char>, overlay_text: Seq<char>) -> Seq<char> {
    scale_and_pad_step() + ","@ + draw_text_step(
        escaped_backslashes(font_file),
        escaped_overlay_text(overlay_text),
    )
}

/// Builds the filter expression: the scale-and-pad step, a comma, and the
/// overlay step with the font path (backslashes doubled) and the overlay text
/// (escaped and trimmed).
pub fn build_overlay_filter(font_file: &str, overlay_text: &str) -> (out: String)
    ensures
        out@ == overlay_filter(font_file@, overlay_text@),
{
    let font = escape_backslashes(font_file);
    let text = escape_overlay_text(overlay_text);
    let mut out = String::new();
    out.append("scale=");
    push_decimal(&mut out, FRAME_WIDTH);
    out.append(":");
    push_decimal(&mut out, FRAME_HEIGHT);
    out.append(":force_original_aspect_ratio=decrease,pad=");
    push_decimal(&mut out, FRAME_WIDTH);
    out.append(":");
    push_decimal(&mut out, FRAME_HEIGHT);
    out.append(":(ow-iw)/2:(oh-ih)/2");
    assert(out@ == scale_and_pad_step());
    out.append(",");
    let ghost prefix = out@;
    out.append("drawtext=fontfile='");
    out.append(font.as_str());
    out.append("':text='");
    out.append(text.as_str());
    out.append("':fontcolor=white@0.75:fontsize=");
    push_decimal(&mut out, FONT_SIZE);
    out.append(":x=w-(tw+");
    push_decimal(&mut out, PADDING_RIGHT);
    out.append("):y=h-(th+");
    push_decimal(&mut out, PADDING_BOTTOM);
    out.append("):line_spacing=");
    push_decimal(&mut out, LINE_SPACING);
    out.append(":text_align=2");
    assert(out@ == prefix + draw_text_step(font@, text@));
    out
}

/// The program that encodes.
pub open spec fn encoder_program() -> Seq<char> {
    "ffmpeg"@
}

/// The encoder's arguments for one job: overwrite the output, read `input`,
/// apply `filter`, encode the picture as H.264 at constant quality 23 with the
/// fast preset, 4:2:0 pixels, the index moved to the front, 30 frames a
/// second, keep the first video stream and the audio streams if there are
/// any, encode sound as AAC at 192 kbit/s, write `output`.
pub open spec fn encoder_arguments(input: Seq<char>, filter: Seq<char>, output: Seq<char>) -> Seq<
    Seq<char>,
> {
    seq![
        "-y"@,
        "-i"@,
        input,
        "-vf"@,
        filter,
        "-c:v"@,
        "libx264"@,
        "-preset"@,
        "fast"@,
        "-crf"@,
        "23"@,
        "-pix_fmt"@,
        "yuv420p"@,
        "-movflags"@,
        "+faststart"@,
        "-r"@,
        "30"@,
        "-map"@,
        "0:v:0"@,
        "-map"@,
        "0:a?"@,
        "-c:a"@,
        "aac"@,
        "-b:a"@,
        "192k"@,
        output,
    ]
}

/// One invocation of the external encoder.
pub struct EncoderCommand {
    /// The program to start.
    pub program: String,
    /// Its arguments, in order.
    pub arguments: Vec<String>,
}

/// An invocation as plain text.
pub struct EncoderCommandView {
    pub program: Seq<char>,
    pub arguments: Seq<Seq<char>>,
}

impl View for EncoderCommand {
    type V = EncoderCommandView;

    open spec fn view(&self) -> EncoderCommandView {
        EncoderCommandView { program: self.program@, arguments: self.arguments.deep_view() }
    }
}

impl DeepView for EncoderCommand {
    type V = EncoderCommandView;

    open spec fn deep_view(&self) -> EncoderCommandView {
        self@
    }
}

/// The invocation that overlays `overlay_text`, set in `font_file`, on the
/// video at `input` and writes the result to `output`.
pub open spec fn encoder_command(
    input: Seq<char>,
    output: Seq<char>,
    overlay_text: Seq<char>,
    font_file: Seq<char>,
) -> EncoderCommandView {
    EncoderCommandView {
        program: encoder_program(),
        arguments: encoder_arguments(input, overlay_filter(font_file, overlay_text), output),
    }
}

/// Builds the invocation of the encoder for one job.
pub fn build_encoder_command(input: &str, output: &str, overlay_text: &str, font_file: &str) -> (out:
    EncoderCommand)
    ensures
        out@ == encoder_command(input@, output@, overlay_text@, font_file@),
{
    let filter = build_overlay_filter(font_file, overlay_text);
    let mut arguments: Vec<String> = Vec::new();
    arguments.push(String::from_str("-y"));
    arguments.push(String::from_str("-i"));
    arguments.push(String::from_str(input));
    arguments.push(String::from_str("-vf"));
    arguments.push(filter);
    arguments.push(String::from_str("-c:v"));
    arguments.push(String::from_str("libx264"));
    arguments.push(String::from_str("-preset"));
    arguments.push(String::from_str("fast"));
    arguments.push(String::from_str("-crf"));
    arguments.push(String::from_str("23"));
    arguments.push(String::from_str("-pix_fmt"));
    arguments.push(String::from_str("yuv420p"));
    arguments.push(String::from_str("-movflags"));
    arguments.push(String::from_str("+faststart"));
    arguments.push(String::from_str("-r"));
    arguments.push(String::from_str("30"));
    arguments.push(String::from_str("-map"));
    arguments.push(String::from_str("0:v:0"));
    arguments.push(String::from_str("-map"));
    arguments.push(String::from_str("0:a?"));
    arguments.push(String::from_str("-c:a"));
    arguments.push(String::from_str("aac"));
    arguments.push(String::from_str("-b:a"));
    arguments.push(String::from_str("192k"));
    arguments.push(String::from_str(output));
    let out = EncoderCommand { program: String::from_str("ffmpeg"), arguments };
    assert(out.arguments.deep_view() == encoder_arguments(
        input@,
        overlay_filter(font_file@, overlay_text@),
        output@,
    ));
    out
}

/// A decimal digit.
pub open spec fn is_digit(c: char) -> bool {
    '0' <= c <= '9'
}

/// How many digits stand at the start of `s` without a break.
pub open spec fn digit_run(s: Seq<char>) -> nat
    decreases s.len(),
{
    if s.len() > 0 && is_digit(s.first()) {
        1 + digit_run(s.drop_first())
    } else {
        0
    }
}

/// A progress marker starts at `at`: the word `time=`, then two digits, a
/// colon, two digits, a colon, two digits, a full stop and at least one
/// digit.
pub open spec fn marker_at(line: Seq<char>, at: int) -> bool {
    &&& 0 <= at
    &&& at + 15 <= line.len()
    &&& line[at] == 't'
    &&& line[at + 1] == 'i'
    &&& line[at + 2] == 'm'
    &&& line[at + 3] == 'e'
    &&& line[at + 4] == '='
    &&& is_digit(line[at + 5])
    &&& is_digit(line[at + 6])
    &&& line[at + 7] == ':'
    &&& is_digit(line[at + 8])
    &&& is_digit(line[at + 9])
    &&& line[at + 10] == ':'
    &&& is_digit(line[at + 11])
    &&& is_digit(line[at + 12])
    &&& line[at + 13] == '.'
    &&& is_digit(line[at + 14])
}

/// The timestamp of the marker that starts at `at`: all that follows `time=`
/// up to the last digit of the fraction.
pub open spec fn timestamp_at(line: Seq<char>, at: int) -> Seq<char> {
    line.subrange(at + 5, at + 14 + digit_run(line.skip(at + 14)))
}

/// Where the first progress marker at or after `from` starts, if there is one.
pub open spec fn first_marker(line: Seq<char>, from: int) -> Option<int>
    decreases line.len() - from,
{
    if from < 0 || from >= line.len() {
        None
    } else if marker_at(line, from) {
        Some(from)
    } else {
        first_marker(line, from + 1)
    }
}

/// The timestamp of the first progress marker in `line`, if it holds one.
pub open spec fn progress_timestamp(line: Seq<char>) -> Option<Seq<char>> {
    match first_marker(line, 0) {
        Some(at) => Some(timestamp_at(line, at)),
        None => None,
    }
}

fn is_digit_char(c: char) -> (b: bool)
    ensures
        b == is_digit(c),
{
    let n: u32 = c as u32;
    0x30 <= n && n <= 0x39
}

fn marker_starts_at(line: &Vec<char>, at: usize) -> (b: bool)
    requires
        at < line.len(),
    ensures
        b == marker_at(line@, at as int),
{
    if line.len() - at < 15 {
        return false;
    }
    line[at] == 't' && line[at + 1] == 'i' && line[at + 2] == 'm' && line[at + 3] == 'e' && line[at
        + 4] == '=' && is_digit_char(line[at + 5]) && is_digit_char(line[at + 6]) && line[at + 7]
        == ':' && is_digit_char(line[at + 8]) && is_digit_char(line[at + 9]) && line[at + 10] == ':'
        && is_digit_char(line[at + 11]) && is_digit_char(line[at + 12]) && line[at + 13] == '.'
        && is_digit_char(line[at + 14])
}

fn digits_from(line: &Vec<char>, from: usize) -> (count: usize)
    requires
        from <= line.len(),
    ensures
        count == digit_run(line@.skip(from as int)),
        from + count <= line.len(),
{
    let mut end: usize = from;
    while end < line.len() && is_digit_char(line[end])
        invariant
            from <= end <= line.len(),
            digit_run(line@.skip(from as int)) == (end - from) + digit_run(line@.skip(end as int)),
        decreases line.len() - end,
    {
        proof {
            let rest = line@.skip(end as int);
            assert(rest.first() == line@[end as int]);
            assert(rest.drop_first() == line@.skip(end as int + 1));
        }
        end += 1;
    }
    proof {
        let rest = line@.skip(end as int);
        if end < line.len() {
            assert(rest.first() == line@[end as int]);
        }
    }
    end - from
}

/// Reads a line of the encoder's diagnostic stream and returns the timestamp
/// of the first progress marker in it, or `None` where the line holds none.
pub fn parse_progress(line: &str) -> (out: Option<String>)
    ensures
        match out {
            Some(timestamp) => progress_timestamp(line@) == Some(timestamp@),
            None => progress_timestamp(line@) is None,
        },
{
    let chars = chars_of(line);
    let mut at: usize = 0;
    while at < chars.len()
        invariant
            at <= chars.len(),
            chars@ == line@,
            first_marker(chars@, 0) == first_marker(chars@, at as int),
        decreases chars.len() - at,
    {
        if marker_starts_at(&chars, at) {
            let fraction = digits_from(&chars, at + 14);
            return Some(string_of_range(&chars, at + 5, at + 14 + fraction));
        }
        at += 1;
    }
    None
}

/// Where a line holds a progress marker, the one that is read is the
/// leftmost; where none is read, no position of the line starts one.
pub proof fn lemma_first_marker_is_leftmost(line: Seq<char>, from: int)
    requires
        0 <= from,
    ensures
        match first_marker(line, from) {
            Some(at) => from <= at < line.len() && marker_at(line, at) && forall|earlier: int|
                from <= earlier < at ==> !marker_at(line, earlier),
            None => forall|at: int| from <= at ==> !marker_at(line, at),
        },
    decreases line.len() - from,
{
    if from < line.len() && !marker_at(line, from) {
        lemma_first_marker_is_leftmost(line, from + 1);
    }
}

} // verus!
