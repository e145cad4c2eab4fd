use mtas::clock::FakeClock;
use mtas::command::{Command, Return, ScreenCapCommand};
use mtas::errors::{ControllerError, TouchPhase};
use mtas::session::Session;
use mtas::transport::{ScriptedTransport, TransportCall};

fn fresh_session(
    width: u32,
    height: u32,
    frame: Vec<u8>,
    clock_script: Vec<u64>,
) -> Session<ScriptedTransport, FakeClock> {
    let transport = ScriptedTransport::new(width, height, frame);
    let clock = FakeClock::new(clock_script);
    Session::new(transport, clock).expect("session setup must succeed")
}

#[test]
fn session_new_queries_geometry_once() {
    let s = fresh_session(4, 3, vec![7u8; 48], Vec::new());
    assert_eq!(s.width, 4);
    assert_eq!(s.height, 3);
    assert_eq!(s.screen.width, 4);
    assert_eq!(s.screen.height, 3);
    assert_eq!(
        s.transport.log,
        vec![TransportCall::QueryGeometry { code: 0, width: 4, height: 3 }]
    );
    assert!(!s.control.capture_enabled);
    assert!(!s.control.timing_enabled);
}

#[test]
fn session_new_reports_failed_geometry_query() {
    let mut transport = ScriptedTransport::new(4, 3, Vec::new());
    transport.set_codes(vec![-2]);
    let r = Session::new(transport, FakeClock::new(Vec::new()));
    match r {
        Err(ControllerError::GeometryQueryFailed { code }) => assert_eq!(code, -2),
        other => panic!("expected GeometryQueryFailed, got {:?}", other.is_ok()),
    }
}

#[test]
fn capture_publish_read_round_trip_has_exact_length() {
    // A 3x2 frame: 24 bytes, served by the transport in full.
    let frame: Vec<u8> = (0u8..24u8).collect();
    let mut s = fresh_session(3, 2, frame.clone(), Vec::new());
    s.control_screen_capture(true).unwrap();
    let published = s.capture_cycle().unwrap();
    assert!(published);
    let read = s.screen.read_frame();
    assert_eq!(read.len(), 3 * 2 * 4);
    assert_eq!(read, frame);
}

#[test]
fn read_before_any_capture_returns_zero_frame() {
    let mut s = fresh_session(2, 2, vec![9u8; 16], Vec::new());
    let read = s.screen.read_frame();
    assert_eq!(read, vec![0u8; 16]);
}

#[test]
fn short_transport_frames_are_zero_padded() {
    let mut s = fresh_session(2, 2, vec![5u8; 4], Vec::new());
    s.control_screen_capture(true).unwrap();
    s.capture_cycle().unwrap();
    let read = s.screen.read_frame();
    let mut expected = vec![5u8; 4];
    expected.extend(vec![0u8; 12]);
    assert_eq!(read, expected);
}

#[test]
fn disabled_capture_makes_no_transport_call() {
    let mut s = fresh_session(2, 2, vec![1u8; 16], Vec::new());
    assert!(!s.control.capture_enabled);
    for _ in 0..5 {
        let published = s.capture_cycle().unwrap();
        assert!(!published);
    }
    assert_eq!(s.transport.capture_call_count(), 0);
}

#[test]
fn capture_calls_resume_only_when_reenabled() {
    let mut s = fresh_session(2, 2, vec![1u8; 16], Vec::new());
    s.execute(Command::SetCaptureEnabled(false)).unwrap();
    s.execute(Command::Tap { x: 1, y: 2 }).unwrap();
    s.execute(Command::Scroll { x1: 0, y1: 0, x2: 5, y2: 5, duration_ms: 20 }).unwrap();
    s.capture_cycle().unwrap();
    assert_eq!(s.transport.capture_call_count(), 0);
    s.execute(Command::SetCaptureEnabled(true)).unwrap();
    s.capture_cycle().unwrap();
    assert_eq!(s.transport.capture_call_count(), 1);
}

#[test]
fn tap_issues_touch_down_then_touch_up() {
    let mut s = fresh_session(2, 2, vec![0u8; 16], Vec::new());
    let r = s.execute(Command::Tap { x: 17, y: 33 }).unwrap();
    assert_eq!(r, Return::Nothing);
    assert_eq!(
        s.transport.log,
        vec![
            TransportCall::QueryGeometry { code: 0, width: 2, height: 2 },
            TransportCall::TouchDown { slot: 0, x: 17, y: 33, code: 0 },
            TransportCall::TouchUp { slot: 0, code: 0 },
        ]
    );
}

#[test]
fn failed_touch_down_suppresses_touch_up() {
    let mut s = fresh_session(2, 2, vec![0u8; 16], Vec::new());
    s.transport.set_codes(vec![11]);
    let r = s.execute(Command::Tap { x: 1, y: 2 });
    assert_eq!(
        r,
        Err(ControllerError::TouchFailed { phase: TouchPhase::Down, code: 11 })
    );
    assert_eq!(
        s.transport.log,
        vec![
            TransportCall::QueryGeometry { code: 0, width: 2, height: 2 },
            TransportCall::TouchDown { slot: 0, x: 1, y: 2, code: 11 },
        ]
    );
}

#[test]
fn failed_touch_up_surfaces_after_both_calls() {
    let mut s = fresh_session(2, 2, vec![0u8; 16], Vec::new());
    s.transport.set_codes(vec![0, 4]);
    let r = s.execute(Command::Tap { x: 1, y: 2 });
    assert_eq!(
        r,
        Err(ControllerError::TouchFailed { phase: TouchPhase::Up, code: 4 })
    );
    assert_eq!(s.transport.log.len(), 3);
}

#[test]
fn scroll_issues_exact_finger_sequence() {
    let mut s = fresh_session(2, 2, vec![0u8; 16], Vec::new());
    let r = s
        .execute(Command::Scroll { x1: 100, y1: 500, x2: 1000, y2: 200, duration_ms: 100 })
        .unwrap();
    assert_eq!(r, Return::Nothing);
    assert_eq!(
        s.transport.log,
        vec![
            TransportCall::QueryGeometry { code: 0, width: 2, height: 2 },
            TransportCall::FingerTouchDown { slot: 0, finger: 1, x: 100, y: 500, code: 0 },
            TransportCall::FingerTouchDown { slot: 0, finger: 1, x: 1000, y: 200, code: 0 },
            TransportCall::FingerTouchUp { slot: 0, finger: 1, code: 0 },
        ]
    );
}

#[test]
fn scroll_order_holds_under_concurrent_capture_activity() {
    let mut s = fresh_session(2, 2, vec![0u8; 16], Vec::new());
    s.execute(Command::SetCaptureEnabled(true)).unwrap();
    s.capture_cycle().unwrap();
    s.execute(Command::Scroll { x1: 1, y1: 2, x2: 3, y2: 4, duration_ms: 5 }).unwrap();
    s.capture_cycle().unwrap();
    let touches: Vec<&TransportCall> = s
        .transport
        .log
        .iter()
        .filter(|c| {
            !matches!(
                c,
                TransportCall::CaptureFrame { .. } | TransportCall::QueryGeometry { .. }
            )
        })
        .collect();
    assert_eq!(
        touches,
        vec![
            &TransportCall::FingerTouchDown { slot: 0, finger: 1, x: 1, y: 2, code: 0 },
            &TransportCall::FingerTouchDown { slot: 0, finger: 1, x: 3, y: 4, code: 0 },
            &TransportCall::FingerTouchUp { slot: 0, finger: 1, code: 0 },
        ]
    );
}

#[test]
fn failed_first_finger_down_stops_the_sequence() {
    let mut s = fresh_session(2, 2, vec![0u8; 16], Vec::new());
    s.transport.set_codes(vec![3]);
    let r = s.execute(Command::Scroll { x1: 1, y1: 2, x2: 3, y2: 4, duration_ms: 5 });
    assert_eq!(
        r,
        Err(ControllerError::TouchFailed { phase: TouchPhase::Down, code: 3 })
    );
    assert_eq!(s.transport.log.len(), 2);
}

#[test]
fn measure_latency_returns_trimmed_mean_despite_outliers() {
    // Ten capture cycles with per-cycle delays of 5 ns, except one huge and
    // one tiny outlier; min/max trimming leaves the mean at exactly 5.
    let mut script: Vec<u64> = Vec::new();
    let deltas: [u64; 10] = [5, 1_000_000, 5, 5, 5, 5, 5, 5, 5, 1];
    for d in deltas {
        script.push(0);
        script.push(d);
    }
    let mut s = fresh_session(2, 2, vec![0u8; 16], script);
    let r = s.execute(Command::MeasureCaptureLatency { iterations: 10 }).unwrap();
    assert_eq!(r, Return::Delay(5));
    assert!(!s.control.timing_enabled);
    assert!(!s.control.capture_enabled);
}

#[test]
fn measure_latency_restores_prior_capture_state() {
    let script: Vec<u64> = vec![0, 3, 0, 3, 0, 3];
    let mut s = fresh_session(2, 2, vec![0u8; 16], script);
    s.execute(Command::SetCaptureEnabled(true)).unwrap();
    let r = s.execute(Command::MeasureCaptureLatency { iterations: 3 }).unwrap();
    assert_eq!(r, Return::Delay(3));
    assert!(s.control.capture_enabled);
    assert!(!s.control.timing_enabled);
}

#[test]
fn measure_latency_with_zero_iterations_returns_zero_delay() {
    let mut s = fresh_session(2, 2, vec![0u8; 16], Vec::new());
    let r = s.execute(Command::MeasureCaptureLatency { iterations: 0 }).unwrap();
    assert_eq!(r, Return::Delay(0));
}

#[test]
fn commands_in_order_produce_results_in_order() {
    let mut s = fresh_session(2, 2, vec![0u8; 16], vec![0, 7, 0, 7, 0, 7]);
    let cmds = vec![
        Command::Tap { x: 1, y: 1 },
        Command::MeasureCaptureLatency { iterations: 3 },
        Command::SetCaptureEnabled(false),
        Command::Scroll { x1: 9, y1: 8, x2: 7, y2: 6, duration_ms: 1 },
    ];
    let results = s.run_commands(&cmds);
    assert_eq!(results.len(), 4);
    assert_eq!(results[0], Ok(Return::Nothing));
    assert_eq!(results[1], Ok(Return::Delay(7)));
    assert_eq!(results[2], Ok(Return::Nothing));
    assert_eq!(results[3], Ok(Return::Nothing));
    // The tap's two touch calls come before the scroll's three finger calls.
    let touch_positions: Vec<usize> = s
        .transport
        .log
        .iter()
        .enumerate()
        .filter(|(_, c)| {
            !matches!(
                c,
                TransportCall::CaptureFrame { .. } | TransportCall::QueryGeometry { .. }
            )
        })
        .map(|(i, _)| i)
        .collect();
    assert_eq!(touch_positions.len(), 5);
    assert_eq!(
        s.transport.log[touch_positions[0]],
        TransportCall::TouchDown { slot: 0, x: 1, y: 1, code: 0 }
    );
    assert_eq!(
        s.transport.log[touch_positions[4]],
        TransportCall::FingerTouchUp { slot: 0, finger: 1, code: 0 }
    );
}

#[test]
fn run_commands_stops_nothing_on_individual_failure() {
    let mut s = fresh_session(2, 2, vec![0u8; 16], Vec::new());
    s.transport.set_codes(vec![9]);
    let cmds = vec![Command::Tap { x: 1, y: 1 }, Command::Tap { x: 2, y: 2 }];
    let results = s.run_commands(&cmds);
    assert_eq!(results.len(), 2);
    assert_eq!(
        results[0],
        Err(ControllerError::TouchFailed { phase: TouchPhase::Down, code: 9 })
    );
    assert_eq!(results[1], Ok(Return::Nothing));
}

#[test]
fn geometry_drift_is_fatal_mid_capture() {
    let mut s = fresh_session(2, 2, vec![0u8; 16], Vec::new());
    s.control_screen_capture(true).unwrap();
    s.transport.width = 3;
    let r = s.capture_cycle();
    match r {
        Err(ControllerError::GeometryChangedMidSession {
            expected_width,
            expected_height,
            got_width,
            got_height,
        }) => {
            assert_eq!(expected_width, 2);
            assert_eq!(expected_height, 2);
            assert_eq!(got_width, 3);
            assert_eq!(got_height, 2);
        }
        other => panic!("expected GeometryChangedMidSession, got ok={}", other.is_ok()),
    }
}

#[test]
fn failed_capture_call_is_reported_per_cycle() {
    let mut s = fresh_session(2, 2, vec![0u8; 16], Vec::new());
    s.control_screen_capture(true).unwrap();
    s.transport.set_codes(vec![-5]);
    let r = s.capture_cycle();
    assert_eq!(r, Err(ControllerError::CaptureFailed { code: -5 }));
    // The next cycle succeeds again.
    assert_eq!(s.capture_cycle(), Ok(true));
}

#[test]
fn screen_cap_commands_set_one_flag_each() {
    let mut s = fresh_session(2, 2, vec![0u8; 16], Vec::new());
    s.apply_screen_cap_command(ScreenCapCommand::CaptureEnabled(true));
    assert!(s.control.capture_enabled);
    assert!(!s.control.timing_enabled);
    s.apply_screen_cap_command(ScreenCapCommand::CaptureTimingEnabled(true));
    assert!(s.control.capture_enabled);
    assert!(s.control.timing_enabled);
    s.apply_screen_cap_command(ScreenCapCommand::CaptureEnabled(false));
    assert!(!s.control.capture_enabled);
    assert!(s.control.timing_enabled);
}

#[test]
fn timing_samples_are_dropped_when_sampler_is_full() {
    // Eleven timed cycles with nothing consuming the sampler: the capture
    // side never blocks, the eleventh sample is simply dropped.
    let mut script: Vec<u64> = Vec::new();
    for i in 0..11u64 {
        script.push(0);
        script.push(i + 1);
    }
    let mut s = fresh_session(2, 2, vec![0u8; 16], script);
    s.control_screen_capture(true).unwrap();
    s.control_screen_capture_timing(true).unwrap();
    for _ in 0..11 {
        assert_eq!(s.capture_cycle(), Ok(true));
    }
    let mut drained: Vec<u64> = Vec::new();
    while let Some(v) = s.sampler.try_pop() {
        drained.push(v);
    }
    assert_eq!(drained, vec![1, 2, 3, 4, 5, 6, 7, 8, 9, 10]);
}

#[test]
fn error_labels_are_stable() {
    assert_eq!(
        ControllerError::TransportConnectFailed { code: 1 }.label(),
        "transport connect failed"
    );
    assert_eq!(ControllerError::ChannelClosed.label(), "channel closed");
    assert_eq!(
        ControllerError::LowConfidence { confidence: 1, threshold: 2 }.label(),
        "low confidence"
    );
}

#[test]
fn latest_frame_can_be_read_as_grayscale() {
    // A 1x1 RGBA frame of pure green.
    let mut s = fresh_session(1, 1, vec![0, 255, 0, 255], Vec::new());
    s.control_screen_capture(true).unwrap();
    s.capture_cycle().unwrap();
    let g = s.read_gray_frame();
    assert_eq!((g.width, g.height), (1, 1));
    assert_eq!(g.pixels, vec![149]);
}

#[test]
fn with_geometry_pins_the_given_geometry() {
    let transport = ScriptedTransport::new(9, 9, Vec::new());
    let s: Session<ScriptedTransport, FakeClock> =
        Session::with_geometry(transport, FakeClock::new(Vec::new()), 6, 4)
            .expect("a small geometry fits");
    assert_eq!((s.width, s.height), (6, 4));
    assert_eq!((s.screen.width, s.screen.height), (6, 4));
    assert_eq!(s.scratch.len(), 6 * 4 * 4);
}

#[test]
fn with_geometry_rejects_an_unaddressable_frame() {
    let transport = ScriptedTransport::new(u32::MAX, u32::MAX, Vec::new());
    let r: Result<Session<ScriptedTransport, FakeClock>, _> =
        Session::with_geometry(transport, FakeClock::new(Vec::new()), u32::MAX, u32::MAX);
    assert_eq!(
        r.err(),
        Some(ControllerError::FrameTooLarge { width: u32::MAX, height: u32::MAX })
    );
}

#[test]
fn session_new_rejects_an_unaddressable_geometry() {
    let transport = ScriptedTransport::new(u32::MAX, u32::MAX, Vec::new());
    let r = Session::new(transport, FakeClock::new(Vec::new()));
    assert_eq!(
        r.err(),
        Some(ControllerError::FrameTooLarge { width: u32::MAX, height: u32::MAX })
    );
}

#[test]
fn scroll_log_shows_which_sub_step_failed() {
    let mut s = fresh_session(2, 2, vec![0u8; 16], Vec::new());
    s.transport.set_codes(vec![0, 7]);
    let r = s.execute(Command::Scroll { x1: 1, y1: 2, x2: 3, y2: 4, duration_ms: 5 });
    assert_eq!(
        r,
        Err(ControllerError::TouchFailed { phase: TouchPhase::Down, code: 7 })
    );
    assert_eq!(
        s.transport.log[1..],
        [
            TransportCall::FingerTouchDown { slot: 0, finger: 1, x: 1, y: 2, code: 0 },
            TransportCall::FingerTouchDown { slot: 0, finger: 1, x: 3, y: 4, code: 7 },
        ]
    );
}

#[test]
fn capture_log_records_the_answered_code() {
    let mut s = fresh_session(2, 2, vec![0u8; 16], Vec::new());
    s.control_screen_capture(true).unwrap();
    s.transport.set_codes(vec![-5]);
    let _ = s.capture_cycle();
    assert_eq!(
        s.transport.log[1],
        TransportCall::CaptureFrame { code: -5, got_width: 0, got_height: 0 }
    );
    s.capture_cycle().unwrap();
    assert_eq!(
        s.transport.log[2],
        TransportCall::CaptureFrame { code: 0, got_width: 2, got_height: 2 }
    );
}

#[test]
fn measure_latency_drains_stale_samples_first() {
    // Three timed cycles queue stale 100 ns samples before the measurement;
    // the measurement discards them and averages only its own ten 5 ns
    // cycles. Were the stale samples counted, the trimmed mean would be 28.
    let mut script: Vec<u64> = Vec::new();
    for _ in 0..3 {
        script.push(0);
        script.push(100);
    }
    for _ in 0..10 {
        script.push(0);
        script.push(5);
    }
    let mut s = fresh_session(2, 2, vec![0u8; 16], script);
    s.control_screen_capture(true).unwrap();
    s.control_screen_capture_timing(true).unwrap();
    for _ in 0..3 {
        assert_eq!(s.capture_cycle(), Ok(true));
    }
    let r = s.execute(Command::MeasureCaptureLatency { iterations: 10 }).unwrap();
    assert_eq!(r, Return::Delay(5));
    // The measurement consumed every sample it produced and every stale one.
    assert_eq!(s.sampler.try_pop(), None);
}
