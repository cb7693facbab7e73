//! How the players run their helper programs: the arguments of `ffmpeg`
//! for the slowed-down "vaporwave" sound, of `yt-dlp` for a video's audio,
//! of `mpv` for a video in the terminal player, the commands sent to `mpv`,
//! and the messages when a helper is missing or cannot start.
use vstd::prelude::*;
use crate::text::{nat_decimal, push_nat_decimal, push_str, to_owned_string};

verus! {

/// The audio filter that slows a track down: resampled at 66% of 44100 Hz
/// and played back at 44100 Hz.
pub open spec fn vaporwave_filter() -> Seq<char> {
    "asetrate=44100*0.66,aresample=44100"@
}

/// The `ffmpeg` arguments that read `input` and write the slowed-down
/// sound as WAV to standard output.
pub open spec fn ffmpeg_args_spec(input: Seq<char>) -> Seq<Seq<char>> {
    seq!["-i"@, input, "-af"@, vaporwave_filter(), "-f"@, "wav"@, "-"@]
}

/// The `ffmpeg` arguments that slow down the sound read from `input` (a
/// file, or `pipe:0` for standard input).
pub fn ffmpeg_vaporwave_args(input: &str) -> (r: Vec<String>)
    ensures
        r@.map_values(|s: String| s@) == ffmpeg_args_spec(input@),
{
    let r = vec![
        to_owned_string("-i"),
        to_owned_string(input),
        to_owned_string("-af"),
        to_owned_string("asetrate=44100*0.66,aresample=44100"),
        to_owned_string("-f"),
        to_owned_string("wav"),
        to_owned_string("-"),
    ];
    assert(r@.map_values(|s: String| s@) =~= ffmpeg_args_spec(input@));
    r
}

/// The page of a YouTube video.
pub open spec fn watch_url_spec(video_id: Seq<char>) -> Seq<char> {
    "https://www.youtube.com/watch?v="@ + video_id
}

/// The page of a YouTube video.
pub fn watch_url(video_id: &str) -> (r: String)
    ensures
        r@ == watch_url_spec(video_id@),
{
    let mut s = to_owned_string("https://www.youtube.com/watch?v=");
    push_str(&mut s, video_id);
    s
}

/// The `yt-dlp` arguments that write a video's best audio (M4A when
/// there is one) to standard output.
pub fn yt_dlp_audio_args(video_id: &str) -> (r: Vec<String>)
    ensures
        r@.map_values(|s: String| s@) == seq![
            "-f"@,
            "bestaudio[ext=m4a]/bestaudio"@,
            "-o"@,
            "-"@,
            watch_url_spec(video_id@),
        ],
{
    let r = vec![
        to_owned_string("-f"),
        to_owned_string("bestaudio[ext=m4a]/bestaudio"),
        to_owned_string("-o"),
        to_owned_string("-"),
        watch_url(video_id),
    ];
    assert(r@.map_values(|s: String| s@) =~= seq![
        "-f"@,
        "bestaudio[ext=m4a]/bestaudio"@,
        "-o"@,
        "-"@,
        watch_url_spec(video_id@),
    ]);
    r
}

/// The socket the terminal player talks to `mpv` through, one per
/// process.
pub open spec fn mpv_socket_spec(pid: u32) -> Seq<char> {
    "/tmp/fml9000-mpv-"@ + nat_decimal(pid as nat) + ".sock"@
}

/// The socket the terminal player talks to `mpv` through.
pub fn mpv_socket_path(pid: u32) -> (r: String)
    ensures
        r@ == mpv_socket_spec(pid),
{
    let mut s = to_owned_string("/tmp/fml9000-mpv-");
    push_nat_decimal(&mut s, pid as u64);
    push_str(&mut s, ".sock");
    s
}

/// The `mpv` arguments that play a video's sound only, quietly, taking
/// commands on `socket`.
pub fn mpv_args(socket: &str, video_id: &str) -> (r: Vec<String>)
    ensures
        r@.map_values(|s: String| s@) == seq![
            "--no-video"@,
            "--really-quiet"@,
            "--input-ipc-server="@ + socket@,
            watch_url_spec(video_id@),
        ],
{
    let mut ipc = to_owned_string("--input-ipc-server=");
    push_str(&mut ipc, socket);
    let r = vec![to_owned_string("--no-video"), to_owned_string("--really-quiet"), ipc, watch_url(video_id)];
    assert(r@.map_values(|s: String| s@) =~= seq![
        "--no-video"@,
        "--really-quiet"@,
        "--input-ipc-server="@ + socket@,
        watch_url_spec(video_id@),
    ]);
    r
}

/// The line that sends a command (a JSON array) to `mpv`.
pub fn mpv_command_line(command: &str) -> (r: String)
    ensures
        r@ == "{ \"command\": "@ + command@ + " }\n"@,
{
    let mut s = to_owned_string("{ \"command\": ");
    push_str(&mut s, command);
    push_str(&mut s, " }\n");
    s
}

/// The command that pauses or resumes `mpv`.
pub fn mpv_pause_command() -> (r: &'static str)
    ensures
        r@ == "[\"cycle\", \"pause\"]"@,
{
    "[\"cycle\", \"pause\"]"
}

/// The message when a helper program could not be started.
pub fn spawn_error(program: &str, error: &str) -> (r: String)
    ensures
        r@ == "Failed to spawn "@ + program@ + ": "@ + error@,
{
    let mut s = to_owned_string("Failed to spawn ");
    push_str(&mut s, program);
    push_str(&mut s, ": ");
    push_str(&mut s, error);
    s
}

/// The message when `ffmpeg` is missing, with how to install it.
pub fn ffmpeg_missing_message(error: &str) -> (r: String)
    ensures
        r@ == "FFmpeg not found: "@ + error@
            + ".\n\nPlease install ffmpeg:\n• Ubuntu/Debian: sudo apt install ffmpeg\n• macOS: brew install ffmpeg\n• Arch: sudo pacman -S ffmpeg"@,
{
    let mut s = to_owned_string("FFmpeg not found: ");
    push_str(&mut s, error);
    push_str(
        &mut s,
        ".\n\nPlease install ffmpeg:\n• Ubuntu/Debian: sudo apt install ffmpeg\n• macOS: brew install ffmpeg\n• Arch: sudo pacman -S ffmpeg",
    );
    s
}

/// The message when `yt-dlp` is missing, with how to install it.
pub fn yt_dlp_missing_message(error: &str) -> (r: String)
    ensures
        r@ == "yt-dlp not found: "@ + error@
            + ".\n\nPlease install yt-dlp:\n• Ubuntu/Debian: pip install yt-dlp\n• macOS: brew install yt-dlp\n• Arch: sudo pacman -S yt-dlp\n• Or: pipx install yt-dlp"@,
{
    let mut s = to_owned_string("yt-dlp not found: ");
    push_str(&mut s, error);
    push_str(
        &mut s,
        ".\n\nPlease install yt-dlp:\n• Ubuntu/Debian: pip install yt-dlp\n• macOS: brew install yt-dlp\n• Arch: sudo pacman -S yt-dlp\n• Or: pipx install yt-dlp",
    );
    s
}

} // verus!
