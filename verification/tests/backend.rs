use blair::config::{
    ModeSetting, NamedOutput, OutputConfig, OutputMode, OutputTransform, RefreshRate,
};
use blair::geometry::{Location, Rect};
use blair::outputs::{
    choose_mode, connected_outputs, find_output, output_setup, pick_best_drm_card,
    unsupported_settings, ChosenOutput, Connector, ConnectorEntry, DisplayMode, DrmCard,
};
use blair::pacing::{refresh_interval, FramePacer, PacerStep};
use blair::requests::{
    grants_token, kde_request, may_interact, popup_grab, popup_target, token_expired, GrabState,
    InteractiveRequest, KdeDecorationMode, PopupGrabPlan,
};
use blair::session::{
    after_failure, choose_backend, current_master_diagnostic, diagnose_seat, is_known_backend,
    session_environment, session_property, session_timeout, wait_for_session, Backend, CardHolder,
    Retry, SeatWarning, SessionWait, HINT_INACTIVE, HINT_UNKNOWN, SESSION_POLL,
};

const IDLE: PacerStep = PacerStep {
    due: false,
    wake_after: None,
};

const FRAME: PacerStep = PacerStep {
    due: true,
    wake_after: None,
};

#[test]
fn frames_are_paced() {
    let mut pacer = FramePacer::new(16, 100);
    assert_eq!(pacer.poll(100, false), FRAME);
    assert_eq!(pacer.poll(101, false), IDLE);
    assert_eq!(
        pacer.poll(105, true),
        PacerStep {
            due: false,
            wake_after: Some(11)
        }
    );
    assert_eq!(pacer.poll(106, true), IDLE);
    assert_eq!(pacer.poll(116, false), FRAME);
    assert_eq!(pacer.poll(500, false), IDLE);
}

#[test]
fn a_queued_frame_holds_the_next_one_back() {
    let mut pacer = FramePacer::new(10, 0);
    assert!(pacer.poll(0, false).due);
    assert!(pacer.frame_queued(0));
    assert!(!pacer.poll(50, true).due);
    assert!(pacer.poll(100, false).due);
    assert!(pacer.frame_queued(100));
    pacer.frame_presented(105);
    assert!(pacer.poll(105, true).due);
}

#[test]
fn animations_keep_the_loop_awake() {
    let mut pacer = FramePacer::new(10, 0);
    pacer.poll(0, false);
    assert!(!pacer.keep_awake(0, false));
    assert!(pacer.keep_awake(0, true));
    assert!(!pacer.keep_awake(0, true));
    pacer.wakeup_failed();
    assert!(pacer.keep_awake(0, true));
    assert!(pacer.poll(10, false).due);
    pacer.force_redraw(11);
    assert!(pacer.poll(11, false).due);
}

#[test]
fn refresh_rates_become_intervals() {
    assert_eq!(refresh_interval(60_000), 16_666_666);
    assert_eq!(refresh_interval(0), 1_000_000_000_000);
    assert_eq!(refresh_interval(-5), 1_000_000_000_000);
}

fn mode(width: i32, height: i32, refresh: i32, preferred: bool) -> DisplayMode {
    DisplayMode {
        width,
        height,
        refresh,
        preferred,
    }
}

fn connector(name: &str, modes: Vec<DisplayMode>, encoders: Vec<Vec<u32>>) -> Connector {
    Connector {
        name: name.to_owned(),
        connected: true,
        modes,
        encoders,
    }
}

fn setting(name: &str, config: OutputConfig) -> NamedOutput {
    NamedOutput {
        name: name.to_owned(),
        config,
    }
}

fn off() -> OutputConfig {
    OutputConfig {
        enabled: Some(false),
        ..Default::default()
    }
}

#[test]
fn modes_are_chosen_by_wish_then_preference() {
    let modes = vec![
        mode(1280, 720, 60_000, false),
        mode(1920, 1080, 60_000, true),
        mode(1920, 1080, 143_900, false),
    ];
    let wish = |refresh_millihz: i32| {
        Some(OutputMode {
            width: 1920,
            height: 1080,
            refresh_millihz,
        })
    };
    assert_eq!(choose_mode(&modes, wish(144_000)), Some(2));
    assert_eq!(choose_mode(&modes, wish(100_000)), Some(1));
    assert_eq!(choose_mode(&modes, None), Some(1));
    assert_eq!(choose_mode(&vec![modes[0]], None), Some(0));
    assert_eq!(choose_mode(&Vec::new(), None), None);
}

#[test]
fn a_switched_off_output_is_the_last_resort() {
    let modes = || vec![mode(800, 600, 60_000, true)];
    let connectors = vec![
        connector("DP-1", modes(), vec![vec![7, 8]]),
        connector("DP-2", modes(), vec![Vec::new(), vec![8]]),
    ];
    let crtcs = vec![9, 8, 7];
    assert_eq!(
        find_output(&connectors, &crtcs, &vec![setting("DP-1", off())]),
        Some(ChosenOutput {
            connector: 1,
            mode: 0,
            crtc: 8,
            forced: false
        })
    );
    assert_eq!(
        find_output(
            &connectors,
            &crtcs,
            &vec![setting("DP-1", off()), setting("DP-2", off())]
        ),
        Some(ChosenOutput {
            connector: 0,
            mode: 0,
            crtc: 8,
            forced: true
        })
    );
    assert_eq!(find_output(&connectors, &vec![1], &Vec::new()), None);
    let broken = vec![
        connector("A", Vec::new(), vec![vec![7]]),
        connector("B", modes(), vec![vec![7]]),
    ];
    assert_eq!(find_output(&broken, &crtcs, &Vec::new()), None);
}

#[test]
fn outputs_are_set_up_as_configured() {
    let outputs = vec![setting(
        "DP-1",
        OutputConfig {
            position: Some([10, 20]),
            transform: Some("180".to_owned()),
            vrr: Some(true),
            enabled: Some(false),
            mode: Some(ModeSetting {
                text: "800x600@60".to_owned(),
                refresh: RefreshRate::Millihertz(60_000),
            }),
            ..Default::default()
        },
    )];
    let setup = output_setup(&outputs, "DP-1");
    assert_eq!(setup.position, Location { x: 10, y: 20 });
    assert_eq!(setup.transform, OutputTransform::Rotate180);
    assert_eq!(setup.vrr, Some(true));
    let other = output_setup(&outputs, "DP-2");
    assert_eq!(other.position, Location { x: 0, y: 0 });
    assert_eq!(other.transform, OutputTransform::Normal);
    let host = |width: i32| OutputMode {
        width,
        height: 600,
        refresh_millihz: 60_000,
    };
    let refused = unsupported_settings(&outputs, "DP-1", host(640));
    assert!(refused.mode && refused.disabled && refused.vrr && refused.transform);
    assert!(!unsupported_settings(&outputs, "DP-1", host(800)).mode);
    assert!(!unsupported_settings(&outputs, "DP-2", host(640)).mode);
}

#[test]
fn the_card_with_most_displays_is_picked() {
    let card = |path: &str, outputs: &[&str]| DrmCard {
        path: path.to_owned(),
        connected_outputs: outputs.iter().map(|name| name.to_string()).collect(),
    };
    let cards = vec![
        card("/dev/dri/card2", &["DP-1"]),
        card("/dev/dri/card0", &[]),
        card("/dev/dri/card1", &["DP-2"]),
    ];
    assert_eq!(pick_best_drm_card(&cards), Some(2));
    assert_eq!(pick_best_drm_card(&Vec::new()), None);
    let entry = |name: &str, status: Option<&str>| ConnectorEntry {
        file_name: name.to_owned(),
        status: status.map(str::to_owned),
    };
    assert_eq!(
        connected_outputs(
            "card0",
            &vec![
                entry("card0-HDMI-A-1", Some("connected\n")),
                entry("card0-DP-1", Some("connected\n")),
                entry("card0-DP-2", Some("disconnected\n")),
                entry("card0-DP-3", None),
                entry("card10-DP-1", Some("connected\n")),
            ]
        ),
        vec!["DP-1", "HDMI-A-1"]
    );
}

#[test]
fn backends_are_chosen_by_name_or_display() {
    assert_eq!(choose_backend("kms", true), Backend::Drm);
    assert_eq!(choose_backend("nested", false), Backend::Nested);
    assert_eq!(choose_backend("auto", true), Backend::Nested);
    assert_eq!(choose_backend("auto", false), Backend::Drm);
    assert_eq!(choose_backend("other", true), Backend::Nested);
    assert!(is_known_backend("auto") && !is_known_backend("other"));
    let vars = session_environment("wayland-1", true);
    assert_eq!(vars.len(), 3);
    assert_eq!(vars[0].value, "wayland-1");
    assert!(session_environment("wayland-1", false).is_empty());
}

#[test]
fn seats_are_diagnosed() {
    let some = |text: &str| Some(text.to_owned());
    assert_eq!(
        diagnose_seat(&some("2\n"), &some("tty2\n")),
        SeatWarning::Fine
    );
    assert_eq!(
        diagnose_seat(&some("2"), &some("tty3")),
        SeatWarning::WrongTerminal
    );
    assert_eq!(diagnose_seat(&None, &some("tty3")), SeatWarning::NoSession);
    assert_eq!(diagnose_seat(&some("2"), &None), SeatWarning::Fine);
    let output = "Active=no\r\nState=online\n";
    assert_eq!(session_property(output, "Active=").as_deref(), Some("no"));
    assert_eq!(session_property(output, "Type="), None);
}

#[test]
fn a_refused_card_is_explained() {
    let some = |text: &str| Some(text.to_owned());
    let holders = vec![
        CardHolder {
            pid: 7,
            command: "Xorg".to_owned(),
        },
        CardHolder {
            pid: 8,
            command: "sway".to_owned(),
        },
    ];
    assert_eq!(
        current_master_diagnostic(
            "/dev/dri/card0",
            &some("tty2\n"),
            &some("2"),
            &None,
            &some("Active=no\nState=online\n"),
            &holders,
        ),
        format!(
            "card=/dev/dri/card0 foreground_vt=tty2 XDG_VTNR=2 XDG_SESSION_ID=<unset> logind.ACTIVE=no logind.STATE=online other_holders=[7(Xorg),8(sway)]. {HINT_INACTIVE}"
        )
    );
    let unknown =
        current_master_diagnostic("c", &None, &None, &some("1"), &None, &Vec::new());
    assert!(unknown.starts_with("card=c foreground_vt=<unknown> XDG_VTNR=<unset> XDG_SESSION_ID=1 "));
    assert!(unknown.ends_with(HINT_UNKNOWN));
}

#[test]
fn waiting_and_retrying_end() {
    assert_eq!(wait_for_session(true, 5), SessionWait::Ready);
    assert_eq!(wait_for_session(false, 0), SessionWait::TimedOut);
    assert_eq!(wait_for_session(false, 5), SessionWait::Dispatch(5));
    assert_eq!(
        wait_for_session(false, 3_000_000_000),
        SessionWait::Dispatch(SESSION_POLL)
    );
    assert!(session_timeout(&Some(" tty1 ".to_owned()), &None)
        .ends_with("foreground_vt=tty1 XDG_VTNR=<unset>"));
    assert_eq!(after_failure(4, 5), Retry::Again(5));
    assert_eq!(after_failure(5, 5), Retry::GiveUp);
}

#[test]
fn tokens_need_a_recent_event() {
    assert!(grants_token(Some(10), Some(10), None));
    assert!(grants_token(Some(12), None, Some(11)));
    assert!(!grants_token(Some(9), Some(10), Some(11)));
    assert!(!grants_token(None, Some(10), None));
    assert!(grants_token(Some(3), Some(u32::MAX - 2), None));
    assert!(!token_expired(9));
    assert!(token_expired(10));
}

#[test]
fn popups_give_way_to_other_grabs() {
    let free = Some(GrabState {
        grabbed: false,
        ours: false,
    });
    let held = Some(GrabState {
        grabbed: true,
        ours: false,
    });
    let plan = |keyboard, pointer, dismissed| PopupGrabPlan {
        keyboard,
        pointer,
        dismissed,
    };
    assert_eq!(popup_grab(free, free), plan(true, true, false));
    assert_eq!(popup_grab(held, free), plan(false, false, true));
    assert_eq!(popup_grab(free, held), plan(true, false, true));
    assert_eq!(popup_grab(None, None), plan(false, false, false));
    assert_eq!(
        popup_target(
            Rect {
                x: 0,
                y: 0,
                width: 100,
                height: 50
            },
            Location { x: 10, y: 5 },
            Location { x: 1, y: 2 },
        ),
        Rect {
            x: -11,
            y: -7,
            width: 100,
            height: 50
        }
    );
}

#[test]
fn clients_interact_only_with_their_own_press() {
    let request = InteractiveRequest {
        has_grab: true,
        same_client: true,
        mapped: true,
    };
    assert!(may_interact(request));
    assert!(!may_interact(InteractiveRequest {
        same_client: false,
        ..request
    }));
    assert_eq!(kde_request(KdeDecorationMode::Server), Some(true));
    assert_eq!(kde_request(KdeDecorationMode::Bare), Some(false));
    assert_eq!(kde_request(KdeDecorationMode::Other), None);
}
