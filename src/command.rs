//! The encoder invocation for an export: program name and ordered
//! arguments, derived from the export settings.

use crate::settings::{
    audio_encoder_name, quality_crf, resolution_dimensions, video_encoder_name, ExportSettings, VideoCodec,
};
use crate::text::{decimal, digit_char, push_decimal};
use vstd::prelude::*;

verus! {

/// The operating system the encoder runs on; it decides which hardware
/// H.264 encoder exists.
#[derive(Debug, Clone, Copy, PartialEq, Eq, Structural)]
pub enum Platform {
    MacOs,
    Windows,
    Other,
}

/// A fully specified process invocation.
#[derive(Debug, Clone)]
pub struct ExportCommand {
    pub program: String,
    pub args: Vec<String>,
}

/// The views of a list of strings.
pub open spec fn arg_views(v: Seq<String>) -> Seq<Seq<char>> {
    v.map_values(|s: String| s@)
}

/// The platform's hardware H.264 encoder, if it has one.
pub open spec fn hardware_encoder(p: Platform) -> Option<Seq<char>> {
    match p {
        Platform::MacOs => Some("h264_videotoolbox"@),
        Platform::Windows => Some("h264_nvenc"@),
        Platform::Other => None,
    }
}

/// Whether the settings take the hardware path: hardware encoding asked
/// for, with H.264.
pub open spec fn uses_hardware_path(s: ExportSettings) -> bool {
    s.hardware_acceleration && s.codec == VideoCodec::H264
}

/// The video encoder that the settings select on a platform.
pub open spec fn selected_encoder(s: ExportSettings, p: Platform) -> Seq<char> {
    if uses_hardware_path(s) {
        match hardware_encoder(p) {
            Some(name) => name,
            None => video_encoder_name(s.codec),
        }
    } else {
        video_encoder_name(s.codec)
    }
}

/// Rate control: a fixed bitrate on the hardware path, a constant-quality
/// factor and the `medium` preset otherwise.
pub open spec fn rate_args(s: ExportSettings) -> Seq<Seq<char>> {
    if uses_hardware_path(s) {
        seq!["-b:v"@, "5M"@]
    } else {
        seq!["-crf"@, decimal(quality_crf(s.quality) as nat), "-preset"@, "medium"@]
    }
}

/// The scale filter for a target size, keeping the aspect ratio and only
/// scaling down.
pub open spec fn scale_filter(w: u32, h: u32) -> Seq<char> {
    "scale="@ + decimal(w as nat) + ":"@ + decimal(h as nat) + ":force_original_aspect_ratio=decrease"@
}

/// Scaling arguments; none for `Source`.
pub open spec fn scale_args(s: ExportSettings) -> Seq<Seq<char>> {
    match resolution_dimensions(s.resolution) {
        Some((w, h)) => seq!["-vf"@, scale_filter(w, h)],
        None => Seq::empty(),
    }
}

/// Frame-rate override arguments; none without an override.
pub open spec fn fps_args(s: ExportSettings) -> Seq<Seq<char>> {
    match s.fps {
        Some(f) => seq!["-r"@, decimal(f as nat)],
        None => Seq::empty(),
    }
}

/// The whole argument list of an export.
pub open spec fn export_args(manifest: Seq<char>, output: Seq<char>, s: ExportSettings, p: Platform) -> Seq<Seq<char>> {
    seq!["-f"@, "concat"@, "-safe"@, "0"@, "-i"@, manifest]
        + seq!["-c:v"@, selected_encoder(s, p)]
        + rate_args(s)
        + scale_args(s)
        + fps_args(s)
        + seq!["-c:a"@, audio_encoder_name(s.audio_codec), "-b:a"@, decimal(s.audio_bitrate as nat) + "k"@]
        + seq!["-y"@, output]
}

/// The hardware H.264 encoder of a platform, if it has one.
pub fn hardware_h264_encoder(p: Platform) -> (r: Option<&'static str>)
    ensures
        r matches Some(n) ==> hardware_encoder(p) == Some(n@),
        r is None ==> hardware_encoder(p) is None,
{
    match p {
        Platform::MacOs => Some("h264_videotoolbox"),
        Platform::Windows => Some("h264_nvenc"),
        Platform::Other => None,
    }
}

pub(crate) fn push_arg(args: &mut Vec<String>, a: &str)
    ensures
        arg_views(final(args)@) == arg_views(old(args)@).push(a@),
{
    args.push(String::from_str(a));
    assert(arg_views(args@) =~= arg_views(old(args)@).push(a@));
}

pub(crate) fn push_owned_arg(args: &mut Vec<String>, a: String)
    ensures
        arg_views(final(args)@) == arg_views(old(args)@).push(a@),
{
    let ghost v = a@;
    args.push(a);
    assert(arg_views(args@) =~= arg_views(old(args)@).push(v));
}

fn number_arg(n: u32) -> (r: String)
    ensures
        r@ == decimal(n as nat),
{
    let mut s = String::new();
    push_decimal(&mut s, n as u64);
    assert(s@ =~= decimal(n as nat));
    s
}

fn push_input_args(args: &mut Vec<String>, manifest_path: &str)
    ensures
        arg_views(final(args)@) == arg_views(old(args)@) + seq!["-f"@, "concat"@, "-safe"@, "0"@, "-i"@, manifest_path@],
{
    push_arg(args, "-f");
    push_arg(args, "concat");
    push_arg(args, "-safe");
    push_arg(args, "0");
    push_arg(args, "-i");
    push_arg(args, manifest_path);
    assert(arg_views(args@) =~= arg_views(old(args)@) + seq!["-f"@, "concat"@, "-safe"@, "0"@, "-i"@, manifest_path@]);
}

fn push_video_args(args: &mut Vec<String>, settings: &ExportSettings, platform: Platform)
    ensures
        arg_views(final(args)@) == arg_views(old(args)@) + seq!["-c:v"@, selected_encoder(*settings, platform)] + rate_args(*settings),
{
    let hardware = settings.hardware_acceleration && settings.codec == VideoCodec::H264;
    push_arg(args, "-c:v");
    if hardware {
        match hardware_h264_encoder(platform) {
            Some(name) => push_arg(args, name),
            None => push_arg(args, settings.codec.ffmpeg_codec()),
        }
    } else {
        push_arg(args, settings.codec.ffmpeg_codec());
    }
    let ghost video = arg_views(args@);
    assert(video =~= arg_views(old(args)@) + seq!["-c:v"@, selected_encoder(*settings, platform)]);
    if hardware {
        push_arg(args, "-b:v");
        push_arg(args, "5M");
    } else {
        push_arg(args, "-crf");
        push_owned_arg(args, number_arg(settings.quality.crf_value()));
        push_arg(args, "-preset");
        push_arg(args, "medium");
    }
    assert(arg_views(args@) =~= video + rate_args(*settings));
}

fn push_scale_args(args: &mut Vec<String>, settings: &ExportSettings)
    ensures
        arg_views(final(args)@) == arg_views(old(args)@) + scale_args(*settings) + fps_args(*settings),
{
    match settings.resolution.dimensions() {
        Some((w, h)) => {
            push_arg(args, "-vf");
            let mut filter = String::from_str("scale=");
            push_decimal(&mut filter, w as u64);
            filter.append(":");
            push_decimal(&mut filter, h as u64);
            filter.append(":force_original_aspect_ratio=decrease");
            assert(filter@ =~= scale_filter(w, h));
            push_owned_arg(args, filter);
        },
        None => {},
    }
    let ghost scaled = arg_views(args@);
    assert(scaled =~= arg_views(old(args)@) + scale_args(*settings));
    match settings.fps {
        Some(f) => {
            push_arg(args, "-r");
            push_owned_arg(args, number_arg(f));
        },
        None => {},
    }
    assert(arg_views(args@) =~= scaled + fps_args(*settings));
}

fn push_output_args(args: &mut Vec<String>, settings: &ExportSettings, output_path: &str)
    ensures
        arg_views(final(args)@) == arg_views(old(args)@) + seq!["-c:a"@, audio_encoder_name(settings.audio_codec), "-b:a"@, decimal(settings.audio_bitrate as nat) + "k"@]
            + seq!["-y"@, output_path@],
{
    push_arg(args, "-c:a");
    push_arg(args, settings.audio_codec.ffmpeg_codec());
    push_arg(args, "-b:a");
    let mut bitrate = number_arg(settings.audio_bitrate);
    bitrate.append("k");
    push_owned_arg(args, bitrate);
    push_arg(args, "-y");
    push_arg(args, output_path);
    assert(arg_views(args@) =~= arg_views(old(args)@) + seq!["-c:a"@, audio_encoder_name(settings.audio_codec), "-b:a"@, decimal(settings.audio_bitrate as nat) + "k"@]
            + seq!["-y"@, output_path@]);
}

/// The encoder invocation reading the manifest at `manifest_path` and
/// writing `output_path`; both output streams are to be captured by the
/// caller that spawns it.
pub fn build_export_command(manifest_path: &str, output_path: &str, settings: &ExportSettings, platform: Platform) -> (r: ExportCommand)
    ensures
        r.program@ == "ffmpeg"@,
        arg_views(r.args@) == export_args(manifest_path@, output_path@, *settings, platform),
{
    let mut args: Vec<String> = Vec::new();
    assert(arg_views(args@) =~= Seq::<Seq<char>>::empty());
    push_input_args(&mut args, manifest_path);
    push_video_args(&mut args, settings, platform);
    push_scale_args(&mut args, settings);
    push_output_args(&mut args, settings, output_path);
    assert(arg_views(args@) =~= export_args(manifest_path@, output_path@, *settings, platform));
    ExportCommand { program: String::from_str("ffmpeg"), args }
}

proof fn lemma_decimal_leading(n: nat)
    ensures
        decimal(n).len() > 0,
        decimal(n)[0] != '-',
    decreases n,
{
    if n >= 10 {
        lemma_decimal_leading(n / 10);
        assert((decimal(n / 10) + seq![digit_char((n % 10) as int)])[0] == decimal(n / 10)[0]);
    }
}

/// With hardware encoding of H.264 the command never carries a
/// constant-quality argument: it sets the bitrate (`-b:v 5M`) instead.
/// Without hardware encoding it always carries one (`-crf` and the tier's
/// value) and sets no bitrate. A path that is itself one of the two flags
/// is left out, since it would stand in the list as a path.
pub proof fn lemma_constant_quality_only_off_hardware_path(manifest: Seq<char>, output: Seq<char>, s: ExportSettings, p: Platform)
    requires
        manifest != "-crf"@ && manifest != "-b:v"@,
        output != "-crf"@ && output != "-b:v"@,
    ensures
        uses_hardware_path(s) ==> export_args(manifest, output, s, p)[8] == "-b:v"@ && export_args(manifest, output, s, p)[9] == "5M"@
            && !export_args(manifest, output, s, p).contains("-crf"@),
        !s.hardware_acceleration ==> export_args(manifest, output, s, p)[8] == "-crf"@
            && export_args(manifest, output, s, p)[9] == decimal(quality_crf(s.quality) as nat)
            && !export_args(manifest, output, s, p).contains("-b:v"@),
{
    let args = export_args(manifest, output, s, p);
    reveal_strlit("-crf");
    reveal_strlit("-b:v");
    reveal_strlit("-f");
    reveal_strlit("concat");
    reveal_strlit("-safe");
    reveal_strlit("0");
    reveal_strlit("-i");
    reveal_strlit("-c:v");
    reveal_strlit("h264_videotoolbox");
    reveal_strlit("h264_nvenc");
    reveal_strlit("libx264");
    reveal_strlit("libx265");
    reveal_strlit("libvpx-vp9");
    reveal_strlit("5M");
    reveal_strlit("-preset");
    reveal_strlit("medium");
    reveal_strlit("-vf");
    reveal_strlit("scale=");
    reveal_strlit("-r");
    reveal_strlit("-c:a");
    reveal_strlit("aac");
    reveal_strlit("libmp3lame");
    reveal_strlit("libopus");
    reveal_strlit("-b:a");
    reveal_strlit("-y");
    let crf = "-crf"@;
    let bv = "-b:v"@;
    assert(crf.len() == 4 && crf[0] == '-' && crf[1] == 'c' && crf[2] == 'r');
    assert(bv.len() == 4 && bv[0] == '-' && bv[1] == 'b' && bv[3] == 'v');
    lemma_decimal_leading(s.audio_bitrate as nat);
    lemma_decimal_leading(quality_crf(s.quality) as nat);
    assert((decimal(s.audio_bitrate as nat) + "k"@)[0] == decimal(s.audio_bitrate as nat)[0]);
    match s.fps {
        Some(f) => lemma_decimal_leading(f as nat),
        None => {},
    }
    match resolution_dimensions(s.resolution) {
        Some((w, h)) => {
            assert(scale_filter(w, h)[0] == 's');
        },
        None => {},
    }
    if uses_hardware_path(s) {
        assert forall|i: int| 0 <= i < args.len() implies args[i] != crf by {
            if args[i] == crf {
                assert(args[i][0] == '-');
            }
        }
    }
    if !s.hardware_acceleration {
        assert forall|i: int| 0 <= i < args.len() implies args[i] != bv by {
            if args[i] == bv {
                assert(args[i][0] == '-');
            }
        }
    }
}

} // verus!
