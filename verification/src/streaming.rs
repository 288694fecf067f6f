//! Streaming decisions: the H.264 encoder to use, the host's pipeline
//! description, the capture region's bounds, how incoming media is routed
//! on the client, and the WebRTC offer/answer and ICE exchange.
use vstd::prelude::*;
use crate::protocol::{IceCandidatePayload, SdpPayload, SignalingMessage};
use crate::text::{
    chars_eq, chars_of, contains, decimal, ends_with, is_digit, lemma_decimal_digits,
    lemma_decimal_injective, lemma_digit_run, occurs_at, push_decimal, string_from_chars, to_string,
};

verus! {

/// Appends the characters of `s`.
fn push_str(out: &mut Vec<char>, s: &str)
    ensures
        final(out)@ == old(out)@ + s@,
{
    let mut c = chars_of(s);
    let ghost before = out@;
    let ghost added = c@;
    out.append(&mut c);
    assert(out@ =~= before + added);
}

// ---------------------------------------------------------------------
// The encoder.
/// Supported H.264 video encoders.
#[derive(Debug, Clone, Copy, PartialEq, Eq, Structural)]
pub enum H264Encoder {
    Nvenc,
    Vaapi,
    SoftwareX264,
}

/// The encoder to use: NVIDIA NVENC when its GStreamer element and its
/// device are both present and a trial pipeline with it reaches the paused
/// state (recent drivers refuse the presets that the element sends), else
/// VA-API when its element and device are present, else software x264.
pub open spec fn best_encoder(
    nvenc_element: bool,
    nvenc_device: bool,
    nvenc_probe_ok: bool,
    vaapi_element: bool,
    vaapi_device: bool,
) -> H264Encoder {
    if nvenc_element && nvenc_device && nvenc_probe_ok {
        H264Encoder::Nvenc
    } else if vaapi_element && vaapi_device {
        H264Encoder::Vaapi
    } else {
        H264Encoder::SoftwareX264
    }
}

/// The element text of an encoder at a bitrate (kbps), with one keyframe
/// per `key_int` frames.
pub open spec fn encoder_text(e: H264Encoder, bitrate: u32, key_int: u32) -> Seq<char> {
    match e {
        H264Encoder::Nvenc => "nvh264enc bitrate="@ + decimal(bitrate as nat)
            + " preset=low-latency-hq gop-size="@ + decimal(key_int as nat) + " rc-mode=cbr"@,
        H264Encoder::Vaapi => "vaapih264enc bitrate="@ + decimal(bitrate as nat)
            + " rate-control=cbr keyframe-period="@ + decimal(key_int as nat),
        H264Encoder::SoftwareX264 => "x264enc tune=zerolatency speed-preset=ultrafast bitrate="@
            + decimal(bitrate as nat) + " key-int-max="@ + decimal(key_int as nat)
            + " bframes=0 byte-stream=true"@,
    }
}

impl H264Encoder {
    /// The encoder to use, given which hardware encoders GStreamer offers,
    /// which of their devices exist, and whether the NVENC trial pipeline
    /// (`encoder_probe_description`) reached the paused state.
    pub fn detect_best(
        nvenc_element: bool,
        nvenc_device: bool,
        nvenc_probe_ok: bool,
        vaapi_element: bool,
        vaapi_device: bool,
    ) -> (e: H264Encoder)
        ensures
            e == best_encoder(
                nvenc_element,
                nvenc_device,
                nvenc_probe_ok,
                vaapi_element,
                vaapi_device,
            ),
            e == H264Encoder::Nvenc ==> nvenc_element && nvenc_device && nvenc_probe_ok,
    {
        if nvenc_element && nvenc_device && nvenc_probe_ok {
            H264Encoder::Nvenc
        } else if vaapi_element && vaapi_device {
            H264Encoder::Vaapi
        } else {
            H264Encoder::SoftwareX264
        }
    }

    /// Return the GStreamer pipeline text for this encoder; a keyframe
    /// comes once per `framerate` frames, i.e. once a second.
    pub fn to_pipeline_str(&self, bitrate_kbps: u32, framerate: u32) -> (s: String)
        ensures
            s@ == encoder_text(*self, bitrate_kbps, framerate),
    {
        let mut out: Vec<char> = Vec::new();
        match self {
            H264Encoder::Nvenc => {
                push_str(&mut out, "nvh264enc bitrate=");
                push_decimal(&mut out, bitrate_kbps);
                push_str(&mut out, " preset=low-latency-hq gop-size=");
                push_decimal(&mut out, framerate);
                push_str(&mut out, " rc-mode=cbr");
            },
            H264Encoder::Vaapi => {
                push_str(&mut out, "vaapih264enc bitrate=");
                push_decimal(&mut out, bitrate_kbps);
                push_str(&mut out, " rate-control=cbr keyframe-period=");
                push_decimal(&mut out, framerate);
            },
            H264Encoder::SoftwareX264 => {
                push_str(&mut out, "x264enc tune=zerolatency speed-preset=ultrafast bitrate=");
                push_decimal(&mut out, bitrate_kbps);
                push_str(&mut out, " key-int-max=");
                push_decimal(&mut out, framerate);
                push_str(&mut out, " bframes=0 byte-stream=true");
            },
        }
        assert(out@ =~= encoder_text(*self, bitrate_kbps, framerate));
        string_from_chars(out.as_slice())
    }
}

/// Hardware is preferred, but NVENC only when its trial succeeds: an NVENC
/// encoder that fails its trial falls back to VA-API when that is usable,
/// else to software; software is chosen only when no hardware encoder is
/// usable.
pub proof fn law_encoder_preference(nv_e: bool, nv_d: bool, probe: bool, va_e: bool, va_d: bool)
    ensures
        nv_e && nv_d && probe ==> best_encoder(nv_e, nv_d, probe, va_e, va_d)
            == H264Encoder::Nvenc,
        best_encoder(nv_e, nv_d, probe, va_e, va_d) == H264Encoder::Nvenc ==> nv_e && nv_d
            && probe,
        nv_e && nv_d && !probe ==> best_encoder(nv_e, nv_d, probe, va_e, va_d) == if va_e
            && va_d {
            H264Encoder::Vaapi
        } else {
            H264Encoder::SoftwareX264
        },
        best_encoder(nv_e, nv_d, probe, va_e, va_d) == H264Encoder::SoftwareX264 <==> !(nv_e
            && nv_d && probe) && !(va_e && va_d),
{
}

proof fn lemma_contains_middle(p: Seq<char>, m: Seq<char>, q: Seq<char>)
    ensures
        contains(p + m + q, m),
{
    assert((p + m + q).subrange(p.len() as int, (p.len() + m.len()) as int) =~= m);
    assert(occurs_at(p + m + q, m, p.len() as int));
}

/// A text made of a fixed start, a number, a fixed middle that begins with a
/// space, a number and a fixed end that is empty or begins with a space
/// gives back both numbers.
proof fn lemma_two_numbers(a: Seq<char>, m: Seq<char>, z: Seq<char>, b1: nat, k1: nat, b2: nat, k2: nat)
    requires
        m.len() > 0 && m[0] == ' ',
        z.len() == 0 || z[0] == ' ',
        a + decimal(b1) + m + decimal(k1) + z == a + decimal(b2) + m + decimal(k2) + z,
    ensures
        b1 == b2,
        k1 == k2,
{
    lemma_decimal_digits(b1);
    lemma_decimal_digits(b2);
    lemma_decimal_digits(k1);
    lemma_decimal_digits(k2);
    assert(!is_digit(' '));
    let r1 = m + decimal(k1) + z;
    let r2 = m + decimal(k2) + z;
    assert(a + decimal(b1) + m + decimal(k1) + z =~= a + decimal(b1) + r1);
    assert(a + decimal(b2) + m + decimal(k2) + z =~= a + decimal(b2) + r2);
    assert(r1[0] == ' ');
    assert(r2[0] == ' ');
    lemma_digit_run(a, decimal(b1), r1, decimal(b2), r2);
    lemma_decimal_injective(b1, b2);
    lemma_digit_run(m, decimal(k1), z, decimal(k2), z);
    lemma_decimal_injective(k1, k2);
}

proof fn lemma_nvenc_text(b1: u32, k1: u32, b2: u32, k2: u32)
    ensures
        encoder_text(H264Encoder::Nvenc, b1, k1) == encoder_text(H264Encoder::Nvenc, b2, k2)
            ==> b1 == b2 && k1 == k2,
        contains(encoder_text(H264Encoder::Nvenc, b1, k1), " bitrate="@ + decimal(b1 as nat) + " "@),
        contains(encoder_text(H264Encoder::Nvenc, b1, k1), " gop-size="@ + decimal(k1 as nat) + " "@),
{
    let db = decimal(b1 as nat);
    let dk = decimal(k1 as nat);
    let t = encoder_text(H264Encoder::Nvenc, b1, k1);
    let a = "nvh264enc bitrate="@;
    let m = " preset=low-latency-hq gop-size="@;
    let z = " rc-mode=cbr"@;
    assert(m.len() > 0 && m[0] == ' ' && z.len() > 0 && z[0] == ' ') by {
        reveal_strlit(" preset=low-latency-hq gop-size=");
        reveal_strlit(" rc-mode=cbr");
    }
    if t == encoder_text(H264Encoder::Nvenc, b2, k2) {
        lemma_two_numbers(a, m, z, b1 as nat, k1 as nat, b2 as nat, k2 as nat);
    }
    assert(a =~= "nvh264enc"@ + " bitrate="@) by {
        reveal_strlit("nvh264enc bitrate=");
        reveal_strlit("nvh264enc");
        reveal_strlit(" bitrate=");
    }
    assert(m =~= " "@ + "preset=low-latency-hq"@ + " gop-size="@) by {
        reveal_strlit(" preset=low-latency-hq gop-size=");
        reveal_strlit(" ");
        reveal_strlit("preset=low-latency-hq");
        reveal_strlit(" gop-size=");
    }
    assert(z =~= " "@ + "rc-mode=cbr"@) by {
        reveal_strlit(" rc-mode=cbr");
        reveal_strlit(" ");
        reveal_strlit("rc-mode=cbr");
    }
    let rest1 = "preset=low-latency-hq"@ + " gop-size="@ + dk + z;
    assert(t =~= "nvh264enc"@ + (" bitrate="@ + db + " "@) + rest1);
    lemma_contains_middle("nvh264enc"@, " bitrate="@ + db + " "@, rest1);
    let pre2 = a + db + " "@ + "preset=low-latency-hq"@;
    assert(t =~= pre2 + (" gop-size="@ + dk + " "@) + "rc-mode=cbr"@);
    lemma_contains_middle(pre2, " gop-size="@ + dk + " "@, "rc-mode=cbr"@);
}

proof fn lemma_vaapi_text(b1: u32, k1: u32, b2: u32, k2: u32)
    ensures
        encoder_text(H264Encoder::Vaapi, b1, k1) == encoder_text(H264Encoder::Vaapi, b2, k2)
            ==> b1 == b2 && k1 == k2,
        contains(encoder_text(H264Encoder::Vaapi, b1, k1), " bitrate="@ + decimal(b1 as nat) + " "@),
        ends_with(encoder_text(H264Encoder::Vaapi, b1, k1), " keyframe-period="@ + decimal(k1 as nat)),
{
    let db = decimal(b1 as nat);
    let dk = decimal(k1 as nat);
    let t = encoder_text(H264Encoder::Vaapi, b1, k1);
    let a = "vaapih264enc bitrate="@;
    let m = " rate-control=cbr keyframe-period="@;
    let z = Seq::<char>::empty();
    assert(m.len() > 0 && m[0] == ' ') by {
        reveal_strlit(" rate-control=cbr keyframe-period=");
    }
    assert(t == encoder_text(H264Encoder::Vaapi, b2, k2) ==> b1 == b2 && k1 == k2) by {
        if t == encoder_text(H264Encoder::Vaapi, b2, k2) {
            assert(t =~= a + db + m + dk + z);
            assert(encoder_text(H264Encoder::Vaapi, b2, k2) =~= a + decimal(b2 as nat) + m
                + decimal(k2 as nat) + z);
            lemma_two_numbers(a, m, z, b1 as nat, k1 as nat, b2 as nat, k2 as nat);
        }
    }
    assert(a =~= "vaapih264enc"@ + " bitrate="@) by {
        reveal_strlit("vaapih264enc bitrate=");
        reveal_strlit("vaapih264enc");
        reveal_strlit(" bitrate=");
    }
    assert(m =~= " "@ + "rate-control=cbr"@ + " keyframe-period="@) by {
        reveal_strlit(" rate-control=cbr keyframe-period=");
        reveal_strlit(" ");
        reveal_strlit("rate-control=cbr");
        reveal_strlit(" keyframe-period=");
    }
    let rest1 = "rate-control=cbr"@ + " keyframe-period="@ + dk;
    assert(t =~= "vaapih264enc"@ + (" bitrate="@ + db + " "@) + rest1);
    lemma_contains_middle("vaapih264enc"@, " bitrate="@ + db + " "@, rest1);
    let tail = " keyframe-period="@ + dk;
    assert(ends_with(t, tail)) by {
        let pre = a + db + " "@ + "rate-control=cbr"@;
        assert(t =~= pre + tail);
        assert(t.skip(t.len() - tail.len()) =~= tail);
    }
}

proof fn lemma_x264_text(b1: u32, k1: u32, b2: u32, k2: u32)
    ensures
        encoder_text(H264Encoder::SoftwareX264, b1, k1) == encoder_text(
            H264Encoder::SoftwareX264,
            b2,
            k2,
        ) ==> b1 == b2 && k1 == k2,
        contains(
            encoder_text(H264Encoder::SoftwareX264, b1, k1),
            " bitrate="@ + decimal(b1 as nat) + " "@,
        ),
        contains(
            encoder_text(H264Encoder::SoftwareX264, b1, k1),
            " key-int-max="@ + decimal(k1 as nat) + " "@,
        ),
{
    let db = decimal(b1 as nat);
    let dk = decimal(k1 as nat);
    let t = encoder_text(H264Encoder::SoftwareX264, b1, k1);
    let a = "x264enc tune=zerolatency speed-preset=ultrafast bitrate="@;
    let m = " key-int-max="@;
    let z = " bframes=0 byte-stream=true"@;
    assert(m.len() > 0 && m[0] == ' ' && z.len() > 0 && z[0] == ' ') by {
        reveal_strlit(" key-int-max=");
        reveal_strlit(" bframes=0 byte-stream=true");
    }
    assert(t == encoder_text(H264Encoder::SoftwareX264, b2, k2) ==> b1 == b2 && k1 == k2) by {
        if t == encoder_text(H264Encoder::SoftwareX264, b2, k2) {
            lemma_two_numbers(a, m, z, b1 as nat, k1 as nat, b2 as nat, k2 as nat);
        }
    }
    assert(a =~= "x264enc tune=zerolatency speed-preset=ultrafast"@ + " bitrate="@) by {
        reveal_strlit("x264enc tune=zerolatency speed-preset=ultrafast bitrate=");
        reveal_strlit("x264enc tune=zerolatency speed-preset=ultrafast");
        reveal_strlit(" bitrate=");
    }
    assert(z =~= " "@ + "bframes=0 byte-stream=true"@) by {
        reveal_strlit(" bframes=0 byte-stream=true");
        reveal_strlit(" ");
        reveal_strlit("bframes=0 byte-stream=true");
    }
    assert(m =~= " "@ + "key-int-max="@) by {
        reveal_strlit(" key-int-max=");
        reveal_strlit(" ");
        reveal_strlit("key-int-max=");
    }
    assert(contains(t, " bitrate="@ + db + " "@)) by {
        let rest = "key-int-max="@ + dk + z;
        assert(t =~= "x264enc tune=zerolatency speed-preset=ultrafast"@ + (" bitrate="@ + db
            + " "@) + rest);
        lemma_contains_middle(
            "x264enc tune=zerolatency speed-preset=ultrafast"@,
            " bitrate="@ + db + " "@,
            rest,
        );
    }
    assert(contains(t, m + dk + " "@)) by {
        assert(t =~= (a + db) + (m + dk + " "@) + "bframes=0 byte-stream=true"@);
        lemma_contains_middle(a + db, m + dk + " "@, "bframes=0 byte-stream=true"@);
    }
}

/// An encoder's element text carries the bitrate and the keyframe interval
/// it is given: different bitrates or intervals give different texts, the
/// bitrate stands in the `bitrate` property, and the interval in the
/// encoder's keyframe property (`gop-size`, `keyframe-period` or
/// `key-int-max`).
pub proof fn law_encoder_text_carries_rates(e: H264Encoder, b1: u32, k1: u32, b2: u32, k2: u32)
    ensures
        encoder_text(e, b1, k1) == encoder_text(e, b2, k2) ==> b1 == b2 && k1 == k2,
        contains(encoder_text(e, b1, k1), " bitrate="@ + decimal(b1 as nat) + " "@),
        e == H264Encoder::Nvenc ==> contains(
            encoder_text(e, b1, k1),
            " gop-size="@ + decimal(k1 as nat) + " "@,
        ),
        e == H264Encoder::Vaapi ==> ends_with(
            encoder_text(e, b1, k1),
            " keyframe-period="@ + decimal(k1 as nat),
        ),
        e == H264Encoder::SoftwareX264 ==> contains(
            encoder_text(e, b1, k1),
            " key-int-max="@ + decimal(k1 as nat) + " "@,
        ),
{
    match e {
        H264Encoder::Nvenc => lemma_nvenc_text(b1, k1, b2, k2),
        H264Encoder::Vaapi => lemma_vaapi_text(b1, k1, b2, k2),
        H264Encoder::SoftwareX264 => lemma_x264_text(b1, k1, b2, k2),
    }
}

/// The trial pipeline of an encoder: one test frame, converted, encoded
/// and discarded.
pub open spec fn encoder_probe_text(e: H264Encoder, bitrate: u32, key_int: u32) -> Seq<char> {
    "videotestsrc num-buffers=1 ! videoconvert ! "@ + encoder_text(e, bitrate, key_int)
        + " ! fakesink"@
}

/// The description of an encoder's trial pipeline.
pub fn encoder_probe_description(e: H264Encoder, bitrate_kbps: u32, framerate: u32) -> (s: String)
    ensures
        s@ == encoder_probe_text(e, bitrate_kbps, framerate),
{
    let mut out: Vec<char> = Vec::new();
    push_str(&mut out, "videotestsrc num-buffers=1 ! videoconvert ! ");
    let enc = e.to_pipeline_str(bitrate_kbps, framerate);
    push_str(&mut out, enc.as_str());
    push_str(&mut out, " ! fakesink");
    assert(out@ =~= encoder_probe_text(e, bitrate_kbps, framerate));
    string_from_chars(out.as_slice())
}

/// The names of the encoder elements whose bitrate can be changed.
pub open spec fn is_encoder_element(name: Seq<char>) -> bool {
    name == "x264enc"@ || name == "nvh264enc"@ || name == "vaapih264enc"@
}

/// Whether an element made by the named factory is one of the encoders.
pub fn is_encoder_factory(name: &str) -> (b: bool)
    ensures
        b == is_encoder_element(name@),
{
    let n = chars_of(name);
    let a = chars_of("x264enc");
    let b = chars_of("nvh264enc");
    let c = chars_of("vaapih264enc");
    chars_eq(n.as_slice(), a.as_slice()) || chars_eq(n.as_slice(), b.as_slice()) || chars_eq(
        n.as_slice(),
        c.as_slice(),
    )
}

/// Whether an element made by the named factory is the X11 screen source.
pub fn is_screen_source_factory(name: &str) -> (b: bool)
    ensures
        b == (name@ == "ximagesrc"@),
{
    let n = chars_of(name);
    let x = chars_of("ximagesrc");
    chars_eq(n.as_slice(), x.as_slice())
}

// ---------------------------------------------------------------------
// The host pipeline.
/// The last column and row of a capture region (inclusive bounds).
pub fn capture_bounds(startx: u32, starty: u32, width: u32, height: u32) -> (r: (u32, u32))
    requires
        1 <= startx + width <= u32::MAX,
        1 <= starty + height <= u32::MAX,
    ensures
        r.0 == startx + width - 1,
        r.1 == starty + height - 1,
{
    (startx + width - 1, starty + height - 1)
}

/// The screen source: PipeWire (Wayland), or the X11 region from
/// (startx, starty) to (endx, endy).
pub open spec fn video_source_text(
    use_pipewire: bool,
    startx: u32,
    starty: u32,
    endx: u32,
    endy: u32,
    framerate: u32,
) -> Seq<char> {
    if use_pipewire {
        "pipewiresrc do-timestamp=true keepalive-time=1000 ! video/x-raw,framerate="@ + decimal(
            framerate as nat,
        ) + "/1"@
    } else {
        "ximagesrc use-damage=false show-pointer=true startx="@ + decimal(
            startx as nat,
        ) + " starty="@ + decimal(starty as nat) + " endx="@ + decimal(endx as nat) + " endy="@
            + decimal(endy as nat) + " ! video/x-raw,framerate="@ + decimal(framerate as nat)
            + "/1"@
    }
}

/// The whole host pipeline: video from the source, converted, encoded and
/// packed as RTP H.264 (payload 96) into `webrtcbin`; system audio encoded
/// as Opus and packed as RTP (payload 97) into the same `webrtcbin`.
pub open spec fn host_pipeline_text(video_source: Seq<char>, encoder: Seq<char>) -> Seq<char> {
    video_source + " ! videoconvert ! "@ + encoder
        + " ! rtph264pay config-interval=-1 pt=96 aggregate-mode=zero-latency ! application/x-rtp,media=video,encoding-name=H264,payload=96 ! webrtcbin name=sendrecv bundle-policy=max-bundle pulsesrc ! audioconvert ! opusenc bitrate=128000 frame-size=10 ! rtpopuspay pt=97 ! application/x-rtp,media=audio,encoding-name=OPUS,payload=97 ! sendrecv."@
}

/// The description of the host pipeline for a capture region, framerate,
/// bitrate (kbps), source and encoder.
pub fn host_pipeline_description(
    startx: u32,
    starty: u32,
    width: u32,
    height: u32,
    framerate: u32,
    bitrate_kbps: u32,
    use_pipewire: bool,
    encoder: H264Encoder,
) -> (s: String)
    requires
        1 <= startx + width <= u32::MAX,
        1 <= starty + height <= u32::MAX,
    ensures
        s@ == host_pipeline_text(
            video_source_text(
                use_pipewire,
                startx,
                starty,
                (startx + width - 1) as u32,
                (starty + height - 1) as u32,
                framerate,
            ),
            encoder_text(encoder, bitrate_kbps, framerate),
        ),
{
    let (endx, endy) = capture_bounds(startx, starty, width, height);
    let mut out: Vec<char> = Vec::new();
    if use_pipewire {
        push_str(&mut out, "pipewiresrc do-timestamp=true keepalive-time=1000 ! video/x-raw,framerate=");
        push_decimal(&mut out, framerate);
        push_str(&mut out, "/1");
    } else {
        push_str(&mut out, "ximagesrc use-damage=false show-pointer=true startx=");
        push_decimal(&mut out, startx);
        push_str(&mut out, " starty=");
        push_decimal(&mut out, starty);
        push_str(&mut out, " endx=");
        push_decimal(&mut out, endx);
        push_str(&mut out, " endy=");
        push_decimal(&mut out, endy);
        push_str(&mut out, " ! video/x-raw,framerate=");
        push_decimal(&mut out, framerate);
        push_str(&mut out, "/1");
    }
    assert(out@ =~= video_source_text(use_pipewire, startx, starty, endx, endy, framerate));
    let ghost source = out@;
    push_str(&mut out, " ! videoconvert ! ");
    let enc = encoder.to_pipeline_str(bitrate_kbps, framerate);
    push_str(&mut out, enc.as_str());
    push_str(&mut out, " ! rtph264pay config-interval=-1 pt=96 aggregate-mode=zero-latency ! application/x-rtp,media=video,encoding-name=H264,payload=96 ! webrtcbin name=sendrecv bundle-policy=max-bundle pulsesrc ! audioconvert ! opusenc bitrate=128000 frame-size=10 ! rtpopuspay pt=97 ! application/x-rtp,media=audio,encoding-name=OPUS,payload=97 ! sendrecv.");
    assert(out@ =~= host_pipeline_text(source, encoder_text(encoder, bitrate_kbps, framerate)));
    string_from_chars(out.as_slice())
}

// ---------------------------------------------------------------------
// The client pipeline.
/// What an incoming WebRTC stream carries, by its `media` caps field.
#[derive(Debug, Clone, Copy, PartialEq, Eq, Structural)]
pub enum MediaKind {
    /// Decoded through the H.264 chain into video frames.
    Video,
    /// Decoded through the Opus chain to the audio output.
    Audio,
    /// Left unlinked.
    Other,
}

pub fn media_kind(media: &str) -> (k: MediaKind)
    ensures
        k == if media@ == "video"@ {
            MediaKind::Video
        } else if media@ == "audio"@ {
            MediaKind::Audio
        } else {
            MediaKind::Other
        },
{
    let m = chars_of(media);
    let v = chars_of("video");
    let a = chars_of("audio");
    if chars_eq(m.as_slice(), v.as_slice()) {
        MediaKind::Video
    } else if chars_eq(m.as_slice(), a.as_slice()) {
        MediaKind::Audio
    } else {
        MediaKind::Other
    }
}

// ---------------------------------------------------------------------
// Offer, answer and ICE.
/// The message that carries the host's SDP offer.
pub fn sdp_offer_message(sdp: String) -> (m: SignalingMessage)
    ensures
        m matches SignalingMessage::SdpOffer(p) && p.sdp_type@ == "offer"@ && p.sdp@ == sdp@,
{
    SignalingMessage::SdpOffer(SdpPayload { sdp_type: to_string("offer"), sdp })
}

/// The message that carries the client's SDP answer.
pub fn sdp_answer_message(sdp: String) -> (m: SignalingMessage)
    ensures
        m matches SignalingMessage::SdpAnswer(p) && p.sdp_type@ == "answer"@ && p.sdp@ == sdp@,
{
    SignalingMessage::SdpAnswer(SdpPayload { sdp_type: to_string("answer"), sdp })
}

/// What the host does with a message while it waits for the answer.
#[derive(Debug)]
pub enum HostNegotiationStep {
    /// The answer arrived: apply this SDP and stop waiting.
    ApplyAnswer(String),
    /// A candidate arrived before the answer: apply it and keep waiting.
    ApplyCandidate(IceCandidatePayload),
    /// Anything else: keep waiting.
    Ignore,
}

pub fn host_negotiation_step(msg: SignalingMessage) -> (step: HostNegotiationStep)
    ensures
        match msg {
            SignalingMessage::SdpAnswer(p) => step matches HostNegotiationStep::ApplyAnswer(s)
                && s@ == p.sdp@,
            SignalingMessage::IceCandidate(c) => step matches HostNegotiationStep::ApplyCandidate(
                d,
            ) && d == c,
            _ => step is Ignore,
        },
{
    match msg {
        SignalingMessage::SdpAnswer(payload) => HostNegotiationStep::ApplyAnswer(payload.sdp),
        SignalingMessage::IceCandidate(ice) => HostNegotiationStep::ApplyCandidate(ice),
        _ => HostNegotiationStep::Ignore,
    }
}

/// The offer's SDP when `msg` carries it; the client ignores anything else
/// while it waits for the offer.
pub fn offered_sdp(msg: SignalingMessage) -> (sdp: Option<String>)
    ensures
        match msg {
            SignalingMessage::SdpOffer(p) => sdp matches Some(s) && s@ == p.sdp@,
            _ => sdp is None,
        },
{
    match msg {
        SignalingMessage::SdpOffer(payload) => Some(payload.sdp),
        _ => None,
    }
}

/// How many quiet periods end the ICE exchange.
pub const ICE_QUIET_ROUNDS: u32 = 3;

/// The ICE exchange after the offer and answer: every local candidate is
/// sent to the peer, every candidate received from the peer is applied,
/// and the exchange ends after three quiet periods.
pub struct IceExchange {
    pub rounds: u32,
}

impl IceExchange {
    pub fn new() -> (x: Self)
        ensures
            x.rounds == 0,
    {
        IceExchange { rounds: 0 }
    }

    /// The message that sends a local candidate to the peer.
    pub fn local_candidate(&self, candidate: IceCandidatePayload) -> (m: SignalingMessage)
        ensures
            m matches SignalingMessage::IceCandidate(c) && c == candidate,
    {
        SignalingMessage::IceCandidate(candidate)
    }

    /// What the exchange does with a message received from the peer: the
    /// candidate it carries is to be applied; anything else is ignored.
    pub fn remote_candidate(&self, msg: SignalingMessage) -> (c: Option<IceCandidatePayload>)
        ensures
            match msg {
                SignalingMessage::IceCandidate(p) => c == Some(p),
                _ => c is None,
            },
    {
        match msg {
            SignalingMessage::IceCandidate(p) => Some(p),
            _ => None,
        }
    }

    /// A quiet period passed; whether the exchange is over.
    pub fn quiet_period(&mut self) -> (done: bool)
        requires
            old(self).rounds < ICE_QUIET_ROUNDS,
        ensures
            final(self).rounds == old(self).rounds + 1,
            done == (final(self).rounds >= ICE_QUIET_ROUNDS),
    {
        self.rounds = self.rounds + 1;
        self.rounds >= ICE_QUIET_ROUNDS
    }
}

/// From a fresh exchange, the first two quiet periods keep it going and
/// the third ends it, whatever candidates are sent in between.
pub proof fn law_ice_ends_after_three_quiet_periods(r0: u32, r1: u32, r2: u32, r3: u32)
    requires
        r0 == 0,
        r1 == r0 + 1,
        r2 == r1 + 1,
        r3 == r2 + 1,
    ensures
        !(r1 >= ICE_QUIET_ROUNDS),
        !(r2 >= ICE_QUIET_ROUNDS),
        r3 >= ICE_QUIET_ROUNDS,
{
}

} // verus!
