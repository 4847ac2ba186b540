use octopus::autonomy::{
    autonomous_event, next_autonomous_event, sensor_kind, AutonomousEvent, SensorKind,
};
use octopus::event::{
    octopus_file_open, octopus_net_send, octopus_proc_exec, pid_of, KernelEvent,
    EVENT_TYPE_FILE_OPEN, EVENT_TYPE_NET_SEND, EVENT_TYPE_PROC_EXEC, KERNEL_EVENT_SIZE,
};
use octopus::intent::{classify_goal, Intent};

#[test]
fn pid_is_upper_half_of_pid_tgid() {
    assert_eq!(pid_of(0x0000_1234_0000_5678), 0x1234);
    assert_eq!(pid_of(u64::MAX), u32::MAX);
    assert_eq!(pid_of(0xffff_ffff), 0);
}

#[test]
fn probes_record_type_and_pid() {
    let pid_tgid: u64 = (4092u64 << 32) | 4100;
    let e = octopus_file_open(pid_tgid);
    assert_eq!(e.event_type, EVENT_TYPE_FILE_OPEN);
    assert_eq!(e.pid, 4092);
    assert_eq!(e.uid, 0);
    assert_eq!(e.command, [0u8; 16]);
    assert_eq!(e.payload, [0u8; 64]);
    let e = octopus_net_send(pid_tgid);
    assert_eq!(e.event_type, EVENT_TYPE_NET_SEND);
    assert_eq!(e.pid, 4092);
    let e = octopus_proc_exec(pid_tgid);
    assert_eq!(e.event_type, EVENT_TYPE_PROC_EXEC);
    assert_eq!(e.pid, 4092);
    assert_eq!((EVENT_TYPE_FILE_OPEN, EVENT_TYPE_NET_SEND, EVENT_TYPE_PROC_EXEC), (1, 2, 3));
}

#[test]
fn event_bytes_roundtrip() {
    let mut command = [0u8; 16];
    command[..6].copy_from_slice(b"chrome");
    let mut payload = [0u8; 64];
    for (i, b) in payload.iter_mut().enumerate() {
        *b = i as u8 * 3;
    }
    let e = KernelEvent { event_type: 3, pid: 0x0102_0304, uid: 1000, command, payload };
    let mut bytes = e.to_bytes();
    assert_eq!(bytes.len(), KERNEL_EVENT_SIZE);
    assert_eq!(&bytes[4..8], &[4, 3, 2, 1]);
    assert_eq!(&bytes[12..18], b"chrome");
    bytes.extend_from_slice(&[0xaa; 8]);
    let d = KernelEvent::from_bytes(&bytes).unwrap();
    assert_eq!(d.event_type, 3);
    assert_eq!(d.pid, 0x0102_0304);
    assert_eq!(d.uid, 1000);
    assert_eq!(d.command, command);
    assert_eq!(d.payload, payload);
}

#[test]
fn short_item_is_no_event() {
    let bytes = octopus_proc_exec(7u64 << 32).to_bytes();
    assert!(KernelEvent::from_bytes(&bytes[..KERNEL_EVENT_SIZE - 1]).is_none());
    assert!(KernelEvent::from_bytes(&[]).is_none());
    assert_eq!(KernelEvent::from_bytes(&bytes).unwrap().pid, 7);
}

#[test]
fn diagnostic_goals() {
    assert_eq!(classify_goal("Why is my laptop so HOT?"), Intent::Diagnostic);
    assert_eq!(classify_goal("everything is slow"), Intent::Diagnostic);
    assert_eq!(classify_goal("what went wrong"), Intent::Diagnostic);
    // Words inside other words count too: "shot" holds "hot".
    assert_eq!(classify_goal("screenshot"), Intent::Diagnostic);
}

#[test]
fn credential_goals() {
    assert_eq!(classify_goal("SSH into the server"), Intent::Credential);
    assert_eq!(classify_goal("rotate the secret"), Intent::Credential);
    assert_eq!(classify_goal("Login to github"), Intent::Credential);
    assert_eq!(classify_goal("oauth token"), Intent::Credential);
}

#[test]
fn code_goals() {
    assert_eq!(classify_goal("Fix the borrow checker error"), Intent::CodeModification);
    assert_eq!(classify_goal("refactor this CODE"), Intent::CodeModification);
    assert_eq!(classify_goal("build the project"), Intent::CodeModification);
    assert_eq!(classify_goal("learn Rust"), Intent::CodeModification);
}

#[test]
fn general_goals() {
    assert_eq!(classify_goal("organise my pictures"), Intent::General);
    // "photos" holds "hot".
    assert_eq!(classify_goal("organise my photos"), Intent::Diagnostic);
    assert_eq!(classify_goal(""), Intent::General);
    assert_eq!(classify_goal("ÉTÉ à Paris"), Intent::General);
}

#[test]
fn earlier_group_wins() {
    // Diagnostic over code: "why" and "build".
    assert_eq!(classify_goal("why does the build fail"), Intent::Diagnostic);
    // Credential over code: "ssh" and "fix".
    assert_eq!(classify_goal("fix my ssh keys"), Intent::Credential);
    // Diagnostic over credential: "wrong" and "login".
    assert_eq!(classify_goal("wrong login"), Intent::Diagnostic);
}

#[test]
fn same_intent_as_unicode_lowercase() {
    let goals = ["SLOW", "Secret", "İndex", "KELVİN login", "RUST", "ßsh", "\u{212A}ey"];
    for g in goals.iter() {
        let lower = g.to_lowercase();
        assert_eq!(classify_goal(g), classify_goal(&lower), "{}", g);
    }
}

#[test]
fn scenario_rolls() {
    assert_eq!(autonomous_event(0, 0), AutonomousEvent::Background(SensorKind::FileOpen));
    assert_eq!(autonomous_event(1, 1), AutonomousEvent::Background(SensorKind::NetSend));
    assert_eq!(autonomous_event(0, 2), AutonomousEvent::Background(SensorKind::ProcExec));
    assert_eq!(autonomous_event(2, 7), AutonomousEvent::CompilerFix);
    assert_eq!(autonomous_event(3, 0), AutonomousEvent::ThermalSpike);
    assert_eq!(autonomous_event(4, 0), AutonomousEvent::MemoryPressure);
    assert_eq!(autonomous_event(5, 0), AutonomousEvent::Idle);
}

#[test]
fn sensor_labels() {
    assert_eq!(sensor_kind(0).label(), "FILE_OPEN");
    assert_eq!(sensor_kind(1).label(), "NET_SEND");
    assert_eq!(sensor_kind(2).label(), "PROC_EXEC");
}

#[test]
fn drawn_events_are_never_idle_and_cover_scenarios() {
    let mut seen_background = false;
    let mut seen_other = false;
    for _ in 0..500 {
        let e = next_autonomous_event();
        assert_ne!(e, AutonomousEvent::Idle);
        match e {
            AutonomousEvent::Background(_) => seen_background = true,
            _ => seen_other = true,
        }
    }
    assert!(seen_background && seen_other);
}
