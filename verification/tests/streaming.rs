use screenextend::protocol::{IceCandidatePayload, SdpPayload, SignalingMessage};
use screenextend::streaming::{
    capture_bounds, encoder_probe_description, host_negotiation_step, host_pipeline_description, is_encoder_factory,
    is_screen_source_factory, media_kind, offered_sdp, sdp_answer_message, sdp_offer_message,
    H264Encoder, HostNegotiationStep, IceExchange, MediaKind,
};

#[test]
fn encoder_selection() {
    assert_eq!(H264Encoder::detect_best(true, true, true, true, true), H264Encoder::Nvenc);
    assert_eq!(H264Encoder::detect_best(true, false, true, true, true), H264Encoder::Vaapi);
    assert_eq!(H264Encoder::detect_best(false, true, true, true, false), H264Encoder::SoftwareX264);
    assert_eq!(
        H264Encoder::detect_best(false, false, false, false, false),
        H264Encoder::SoftwareX264
    );
}

#[test]
fn nvenc_that_fails_its_trial_falls_back() {
    assert_eq!(H264Encoder::detect_best(true, true, false, true, true), H264Encoder::Vaapi);
    assert_eq!(
        H264Encoder::detect_best(true, true, false, false, true),
        H264Encoder::SoftwareX264
    );
    assert_eq!(H264Encoder::detect_best(true, true, true, false, false), H264Encoder::Nvenc);
}

#[test]
fn encoder_trial_pipeline() {
    assert_eq!(
        encoder_probe_description(H264Encoder::Nvenc, 15000, 60),
        "videotestsrc num-buffers=1 ! videoconvert ! nvh264enc bitrate=15000 preset=low-latency-hq gop-size=60 rc-mode=cbr ! fakesink"
    );
}

#[test]
fn encoder_strings() {
    assert_eq!(
        H264Encoder::Nvenc.to_pipeline_str(15000, 60),
        "nvh264enc bitrate=15000 preset=low-latency-hq gop-size=60 rc-mode=cbr"
    );
    assert_eq!(
        H264Encoder::Vaapi.to_pipeline_str(8000, 30),
        "vaapih264enc bitrate=8000 rate-control=cbr keyframe-period=30"
    );
    assert_eq!(
        H264Encoder::SoftwareX264.to_pipeline_str(15000, 60),
        "x264enc tune=zerolatency speed-preset=ultrafast bitrate=15000 key-int-max=60 bframes=0 byte-stream=true"
    );
}

#[test]
fn pipeline_descriptions() {
    let x = host_pipeline_description(1920, 0, 1280, 720, 60, 15000, false, H264Encoder::SoftwareX264);
    assert_eq!(
        x,
        "ximagesrc use-damage=false show-pointer=true startx=1920 starty=0 endx=3199 endy=719 ! video/x-raw,framerate=60/1 ! videoconvert ! x264enc tune=zerolatency speed-preset=ultrafast bitrate=15000 key-int-max=60 bframes=0 byte-stream=true ! rtph264pay config-interval=-1 pt=96 aggregate-mode=zero-latency ! application/x-rtp,media=video,encoding-name=H264,payload=96 ! webrtcbin name=sendrecv bundle-policy=max-bundle pulsesrc ! audioconvert ! opusenc bitrate=128000 frame-size=10 ! rtpopuspay pt=97 ! application/x-rtp,media=audio,encoding-name=OPUS,payload=97 ! sendrecv."
    );
    let p = host_pipeline_description(0, 0, 1920, 1080, 30, 5000, true, H264Encoder::Nvenc);
    assert!(p.starts_with(
        "pipewiresrc do-timestamp=true keepalive-time=1000 ! video/x-raw,framerate=30/1 ! videoconvert ! nvh264enc bitrate=5000 "
    ));
    assert_eq!(capture_bounds(1920, 0, 1280, 720), (3199, 719));
    assert_eq!(capture_bounds(0, 0, 1, 1), (0, 0));
}

#[test]
fn element_names() {
    assert!(is_encoder_factory("x264enc"));
    assert!(is_encoder_factory("nvh264enc"));
    assert!(is_encoder_factory("vaapih264enc"));
    assert!(!is_encoder_factory("videoconvert"));
    assert!(is_screen_source_factory("ximagesrc"));
    assert!(!is_screen_source_factory("pipewiresrc"));
    assert_eq!(media_kind("video"), MediaKind::Video);
    assert_eq!(media_kind("audio"), MediaKind::Audio);
    assert_eq!(media_kind("application"), MediaKind::Other);
    assert_eq!(media_kind(""), MediaKind::Other);
}

#[test]
fn negotiation_steps() {
    match sdp_offer_message("v=0".to_string()) {
        SignalingMessage::SdpOffer(p) => {
            assert_eq!(p.sdp_type, "offer");
            assert_eq!(p.sdp, "v=0");
        }
        _ => panic!("Wrong variant"),
    }
    let answer = sdp_answer_message("v=1".to_string());
    assert!(matches!(&answer, SignalingMessage::SdpAnswer(p) if p.sdp_type == "answer"));
    assert!(
        matches!(host_negotiation_step(answer), HostNegotiationStep::ApplyAnswer(s) if s == "v=1")
    );
    let cand = IceCandidatePayload { candidate: "candidate:1".to_string(), sdp_m_line_index: 0 };
    assert!(matches!(
        host_negotiation_step(SignalingMessage::IceCandidate(cand)),
        HostNegotiationStep::ApplyCandidate(c) if c.candidate == "candidate:1"
    ));
    let offer = SignalingMessage::SdpOffer(SdpPayload {
        sdp_type: "offer".to_string(),
        sdp: "v=0 o".to_string(),
    });
    assert!(matches!(host_negotiation_step(offer.clone()), HostNegotiationStep::Ignore));
    assert_eq!(offered_sdp(offer), Some("v=0 o".to_string()));
    assert_eq!(offered_sdp(sdp_answer_message("x".to_string())), None);
}

#[test]
fn ice_exchange_ends_after_three_quiet_periods() {
    let mut x = IceExchange::new();
    let m = x.local_candidate(IceCandidatePayload {
        candidate: "c".to_string(),
        sdp_m_line_index: 1,
    });
    assert!(matches!(m, SignalingMessage::IceCandidate(c) if c.sdp_m_line_index == 1));
    assert!(!x.quiet_period());
    assert!(!x.quiet_period());
    assert!(x.quiet_period());
    assert_eq!(x.rounds, 3);
}

#[test]
fn ice_exchange_applies_remote_candidates() {
    let x = IceExchange::new();
    let cand = IceCandidatePayload { candidate: "candidate:7 1 udp".to_string(), sdp_m_line_index: 2 };
    let applied = x.remote_candidate(SignalingMessage::IceCandidate(cand));
    assert!(matches!(
        applied,
        Some(c) if c.candidate == "candidate:7 1 udp" && c.sdp_m_line_index == 2
    ));
    assert!(x.remote_candidate(sdp_answer_message("v=0".to_string())).is_none());
    assert_eq!(x.rounds, 0);
}
