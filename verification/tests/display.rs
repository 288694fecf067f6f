use screenextend::config::SessionType;
use screenextend::display::{
    detect_primary_resolution, find_disconnected_output, select_backend, BackendKind,
    DisplayError, VirtualDisplay, WaylandVirtualDisplay, X11VirtualDisplay,
};
use screenextend::xrandr::{CommandOutcome, SetupError, XrandrCommand, XrandrSetup, XrandrStep};

const QUERY: &str = "Screen 0: minimum 8 x 8, current 2560x1440, maximum 32767 x 32767
eDP-1 connected primary 2560x1440+0+0 (normal left inverted right x axis y axis) 309mm x 174mm
   2560x1440     60.00*+
HDMI-1 disconnected (normal left inverted right x axis y axis)
DP-1 disconnected (normal left inverted right x axis y axis)
";

#[test]
fn primary_resolution_from_query() {
    assert_eq!(detect_primary_resolution(QUERY), (2560, 1440));
    assert_eq!(
        detect_primary_resolution("HDMI-1 connected 1920x1200+1920+0 (normal)\n"),
        (1920, 1200)
    );
    assert_eq!(detect_primary_resolution(""), (1920, 1080));
    assert_eq!(detect_primary_resolution("eDP-1 connected (no mode)\n"), (1920, 1080));
    assert_eq!(detect_primary_resolution("eDP-1 connected 800x600+0+0\r\n"), (800, 600));
    assert_eq!(detect_primary_resolution("eDP-1 connected +800x600+0+0\n"), (1920, 1080));
    assert_eq!(
        detect_primary_resolution("A connected 99999999999x1+0+0 640x480+0+0\n"),
        (640, 480)
    );
}

#[test]
fn primary_line_is_preferred() {
    let report = "HDMI-1 connected 2560x1440+1920+0 (normal) 597mm x 336mm\neDP-1 connected primary 1920x1080+0+0 (normal) 344mm x 194mm";
    assert_eq!(detect_primary_resolution(report), (1920, 1080));
    // A primary line without a resolution gives way to the first connected one.
    assert_eq!(
        detect_primary_resolution("HDMI-1 connected 1280x1024+0+0\neDP-1 connected primary (normal)\n"),
        (1280, 1024)
    );
}

#[test]
fn disconnected_output_from_query() {
    assert_eq!(find_disconnected_output(QUERY), Some("HDMI-1".to_string()));
    assert_eq!(
        find_disconnected_output("eDP-2 disconnected\nVIRTUAL1 disconnected\n"),
        Some("VIRTUAL1".to_string())
    );
    assert_eq!(find_disconnected_output("eDP-1 connected 1x1+0+0\n"), None);
}

#[test]
fn virtual_outputs_are_preferred() {
    let report = "eDP-1 connected primary 1920x1080+0+0 (normal)\nDP-1 disconnected (normal)\nVIRTUAL1 disconnected (normal)";
    assert_eq!(find_disconnected_output(report), Some("VIRTUAL1".to_string()));
    assert_eq!(
        find_disconnected_output("HDMI-2 disconnected\nDUMMY0 disconnected\n"),
        Some("DUMMY0".to_string())
    );
    assert_eq!(
        find_disconnected_output("eDP-2 disconnected\nDP-3 disconnected\n"),
        Some("DP-3".to_string())
    );
    assert_eq!(find_disconnected_output("VGA-1 disconnected\n"), None);
}

#[test]
fn backends() {
    assert_eq!(select_backend(SessionType::X11), Ok(BackendKind::X11));
    assert_eq!(select_backend(SessionType::Wayland), Ok(BackendKind::Wayland));
    assert_eq!(select_backend(SessionType::Unknown), Err(DisplayError::UnknownSession));
    assert_eq!(DisplayError::UnknownSession.message(), "Cannot determine display session type");
}

#[test]
fn wayland_display() {
    let mut d = WaylandVirtualDisplay::new();
    assert!(!d.is_active());
    assert_eq!(d.capture_region(), (0, 0, 0, 0));
    d.create(1280, 720).unwrap();
    assert!(d.is_active());
    assert_eq!(d.capture_region(), (0, 0, 1280, 720));
    d.destroy().unwrap();
    assert!(!d.is_active());
    assert_eq!(d.capture_region(), (0, 0, 1280, 720));
}

#[test]
fn x11_display_regions() {
    let mut d = X11VirtualDisplay::new(1920, 1080);
    d.create(2560, 1440).unwrap();
    assert!(d.is_active());
    // Region capture: the requested size, right of the primary monitor.
    assert_eq!(d.capture_region(), (1920, 0, 2560, 1440));
    assert!(d.teardown_commands().is_empty());
    d.attach_output("HDMI-1".to_string(), "2560x1440_60.00".to_string());
    assert_eq!(d.capture_region(), (1920, 0, 2560, 1440));
    assert_eq!(
        d.teardown_commands(),
        vec![
            vec!["--output".to_string(), "HDMI-1".to_string(), "--off".to_string()],
            vec!["--delmode".to_string(), "HDMI-1".to_string(), "2560x1440_60.00".to_string()],
            vec!["--rmmode".to_string(), "2560x1440_60.00".to_string()],
        ]
    );
    d.destroy().unwrap();
    assert!(!d.is_active());
    assert!(d.virtual_output.is_none());
    assert_eq!(d.capture_region(), (1920, 0, 2560, 1440));
}

fn ran(success: bool, stdout: &str) -> CommandOutcome {
    CommandOutcome::Ran { success, stdout: stdout.to_string() }
}

fn xrandr_args(step: &XrandrStep) -> Vec<String> {
    match step {
        XrandrStep::Run(XrandrCommand::Xrandr(a)) => a.clone(),
        _ => panic!("Expected an xrandr command"),
    }
}

const CVT: &str = "# 2560x1440 59.96 Hz (CVT 3.69M9) hsync: 89.52 kHz; pclk: 312.25 MHz
Modeline \"2560x1440_60.00\"  312.25  2560 2752 3024 3488  1440 1443 1448 1493 -hsync +vsync
";

#[test]
fn xrandr_plan_success() {
    let (mut plan, step) = XrandrSetup::start(2560, 1440, 1920);
    assert_eq!(xrandr_args(&step), vec!["--query"]);
    let step = plan.advance(ran(true, QUERY));
    match &step {
        XrandrStep::Run(XrandrCommand::Cvt(a)) => assert_eq!(a, &vec!["2560", "1440", "60"]),
        _ => panic!("Expected cvt"),
    }
    let step = plan.advance(ran(true, CVT));
    assert_eq!(
        xrandr_args(&step),
        vec![
            "--newmode", "2560x1440_60.00", "312.25", "2560", "2752", "3024", "3488", "1440",
            "1443", "1448", "1493", "-hsync", "+vsync"
        ]
    );
    let step = plan.advance(ran(false, ""));
    assert_eq!(xrandr_args(&step), vec!["--addmode", "HDMI-1", "2560x1440_60.00"]);
    let step = plan.advance(ran(true, ""));
    assert_eq!(
        xrandr_args(&step),
        vec!["--output", "HDMI-1", "--mode", "2560x1440_60.00", "--pos", "1920x0"]
    );
    match plan.advance(ran(true, "")) {
        XrandrStep::Finished(Ok(Some((o, m)))) => {
            assert_eq!(o, "HDMI-1");
            assert_eq!(m, "2560x1440_60.00");
        }
        _ => panic!("Expected an enabled output"),
    }
}

#[test]
fn xrandr_plan_fallbacks() {
    let (mut plan, _) = XrandrSetup::start(1920, 1080, 1920);
    assert!(matches!(plan.advance(CommandOutcome::NotRun), XrandrStep::Finished(Ok(None))));

    let (mut plan, _) = XrandrSetup::start(1920, 1080, 1920);
    assert!(matches!(
        plan.advance(ran(true, "eDP-1 connected 1920x1080+0+0\n")),
        XrandrStep::Finished(Ok(None))
    ));

    let (mut plan, _) = XrandrSetup::start(1920, 1080, 1920);
    plan.advance(ran(true, QUERY));
    assert!(matches!(
        plan.advance(CommandOutcome::NotRun),
        XrandrStep::Finished(Err(SetupError::CvtNotRun))
    ));

    let (mut plan, _) = XrandrSetup::start(1920, 1080, 1920);
    plan.advance(ran(true, QUERY));
    assert!(matches!(
        plan.advance(ran(true, "nothing here\n")),
        XrandrStep::Finished(Err(SetupError::NoModeline))
    ));
    assert_eq!(SetupError::NoModeline.message(), "No Modeline in cvt output");

    let (mut plan, _) = XrandrSetup::start(1920, 1080, 1920);
    plan.advance(ran(true, QUERY));
    assert!(matches!(plan.advance(ran(true, "Modeline \"x\"\n")), XrandrStep::Finished(Ok(None))));

    // The output cannot be enabled: the mode is removed again.
    let (mut plan, _) = XrandrSetup::start(1920, 1080, 1920);
    plan.advance(ran(true, QUERY));
    plan.advance(ran(true, CVT));
    plan.advance(ran(true, ""));
    plan.advance(ran(true, ""));
    let step = plan.advance(ran(false, ""));
    assert_eq!(xrandr_args(&step), vec!["--delmode", "HDMI-1", "2560x1440_60.00"]);
    assert!(matches!(plan.advance(ran(true, "")), XrandrStep::Finished(Ok(None))));

    // Adding the mode fails: region capture.
    let (mut plan, _) = XrandrSetup::start(1920, 1080, 1920);
    plan.advance(ran(true, QUERY));
    plan.advance(ran(true, CVT));
    plan.advance(ran(true, ""));
    assert!(matches!(plan.advance(ran(false, "")), XrandrStep::Finished(Ok(None))));
}
