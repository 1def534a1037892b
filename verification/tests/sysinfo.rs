//! What is known of the system and the desktop.

use tiny_dfr::sysinfo_manager::{
    clean_now_playing, cosmic_info, current_desktop_contains, current_now_playing, desktop_user,
    detect_wayland_display, environ_variable, find_hyprland_env_in_proc,
    find_hyprland_signature_in_runtime, find_wayland_env_in_proc, get_hyprland_info,
    hyprland_socket, is_cosmic_session, process_running, process_uid, runtime_dir, runtime_dir_of,
    setup_cosmic_env, setup_hyprland_env, username_for_uid, CosmicToplevel, CosmicWorkspace,
    DesktopStep, DesktopWatch, HyprChoice, HyprInstance, HyprProbe, ProcEntry, SystemInfo,
    SystemInfoManager, SYSTEM_STATS_REFRESH,
};

fn some(s: &str) -> Option<String> {
    Some(s.to_string())
}

fn process(pid: &str, comm: &str, uid: u32) -> ProcEntry {
    ProcEntry { pid: pid.to_string(), comm: some(comm), uid: Some(uid) }
}

#[test]
fn now_playing_text_trims_empty_artist_separator() {
    assert_eq!(clean_now_playing("Artist - Track"), "Artist - Track");
    assert_eq!(clean_now_playing(" - Track"), "Track");
    assert_eq!(clean_now_playing("Artist - "), "Artist");
}

#[test]
fn titlebar_text_toggles_between_now_playing_and_window() {
    let mut info = SystemInfo::new(0);
    info.update_desktop_info("Window".to_string(), String::new(), true, 1);
    assert_eq!(info.titlebar_text(), "Window");
    assert!(!info.toggle_titlebar_text());

    info.update_now_playing("Artist - Track".to_string(), 2);
    assert_eq!(info.titlebar_text(), "Artist - Track");
    assert!(info.toggle_titlebar_text());
    assert_eq!(info.titlebar_text(), "Window");
}

#[test]
fn new_now_playing_replaces_window_after_empty_state() {
    let mut info = SystemInfo::new(0);
    info.update_desktop_info("Window".to_string(), String::new(), true, 1);
    info.update_now_playing("Track".to_string(), 2);
    assert!(info.toggle_titlebar_text());
    assert_eq!(info.titlebar_text(), "Window");

    info.update_now_playing(String::new(), 3);
    info.update_now_playing("New Track".to_string(), 4);
    assert_eq!(info.titlebar_text(), "New Track");
}

#[test]
fn music_counts_only_while_it_plays() {
    let playing = Some(b"Playing\n".to_vec());
    let song = Some(b"Artist - Song\n".to_vec());
    assert_eq!(current_now_playing(playing, song.clone()), "Artist - Song");
    assert_eq!(current_now_playing(Some(b"Paused\n".to_vec()), song.clone()), "");
    assert_eq!(current_now_playing(None, song), "");
}

#[test]
fn statistics_are_read_again_after_their_time() {
    let mut mgr = SystemInfoManager::new(0);
    assert!(mgr.stats_due(0));
    mgr.store_stats(42 << 32, 3, 8, 10);
    assert_eq!(mgr.get_cpu_usage(), 42 << 32);
    assert_eq!(mgr.get_memory_usage(), (3, 8));
    assert!(!mgr.stats_due(10 + SYSTEM_STATS_REFRESH - 1));
    assert!(mgr.stats_due(10 + SYSTEM_STATS_REFRESH));
}

#[test]
fn processes_are_found_by_name() {
    let procs = vec![
        process("self", "Hyprland", 5),
        process("12", "bash\n", 1),
        process("40", "hyprland\n", 1000),
    ];
    assert!(process_running(&procs, "Hyprland"));
    assert_eq!(process_uid(&procs, "Hyprland"), Some(1000));
    assert!(!process_running(&procs, "cosmic-comp"));
    assert_eq!(process_uid(&procs, "cosmic-comp"), None);
    assert!(!is_cosmic_session(&vec!["GNOME".to_string()], &procs));
    assert!(is_cosmic_session(&vec!["pop:COSMIC".to_string()], &procs));
    assert!(current_desktop_contains(&vec!["a:COSMIC".to_string()], "cosmic"));
}

#[test]
fn the_desktop_user_is_found() {
    let passwd = some("root:x:0:0:root:/root:/bin/sh\nann:x:1000:1000::/home/ann:/bin/sh\n");
    let procs = vec![process("40", "Hyprland", 1000)];
    assert_eq!(username_for_uid(&passwd, 1000), some("ann"));
    assert_eq!(username_for_uid(&passwd, 7), None);
    assert_eq!(username_for_uid(&None, 1000), None);
    assert_eq!(desktop_user(some("bob"), &procs, &passwd), some("bob"));
    assert_eq!(desktop_user(None, &procs, &passwd), some("ann"));
    assert_eq!(desktop_user(None, &vec![], &passwd), None);
}

#[test]
fn sockets_and_directories_are_named() {
    let names: Vec<String> =
        ["bus", "wayland-0.lock", "wayland-1"].iter().map(|s| s.to_string()).collect();
    assert_eq!(detect_wayland_display(&names), some("wayland-1"));
    assert_eq!(detect_wayland_display(&vec![]), None);
    assert_eq!(
        hyprland_socket(&some("/run/user/1000"), &some("sig")),
        some("/run/user/1000/hypr/sig/.socket.sock")
    );
    assert_eq!(hyprland_socket(&None, &some("sig")), None);
    assert_eq!(runtime_dir("7"), "/run/user/7");
    assert_eq!(runtime_dir_of(1000), "/run/user/1000");
    let dirs = vec![
        HyprInstance { name: "a".to_string(), socket: false, socket2: false },
        HyprInstance { name: "b".to_string(), socket: false, socket2: true },
    ];
    assert_eq!(find_hyprland_signature_in_runtime(&dirs), some("b"));
}

#[test]
fn environments_of_processes_are_read() {
    let environ = b"A=1\0XDG_RUNTIME_DIR=/run/user/5\0HYPRLAND_INSTANCE_SIGNATURE=s\0WAYLAND_DISPLAY=w\0";
    assert_eq!(environ_variable(environ, "XDG_RUNTIME_DIR="), some("/run/user/5"));
    assert_eq!(environ_variable(environ, "HOME="), None);
    let found = find_hyprland_env_in_proc(&vec![Some(b"A=1".to_vec()), Some(environ.to_vec())]);
    let found = found.unwrap();
    assert_eq!(found.runtime_dir, some("/run/user/5"));
    assert_eq!(found.signature, some("s"));
    let found = find_wayland_env_in_proc(&vec![Some(environ.to_vec())]).unwrap();
    assert_eq!(found.wayland_display, some("w"));
    assert!(find_wayland_env_in_proc(&vec![]).is_none());
}

#[test]
fn the_compositor_is_chosen_in_order() {
    let probe = HyprProbe {
        named_by_env: false,
        sudo: Some(("/a".to_string(), None)),
        process: None,
        users: vec![("/b".to_string(), None), ("/c".to_string(), some("s"))],
        runtime: Some(("/d".to_string(), some("t"))),
    };
    assert!(matches!(
        setup_hyprland_env(&probe),
        HyprChoice::Instance(d, s) if d == "/c" && s == "s"
    ));
    let named = HyprProbe { named_by_env: true, ..probe };
    assert!(matches!(setup_hyprland_env(&named), HyprChoice::Environment));
    let nothing =
        HyprProbe { named_by_env: false, sudo: None, process: None, users: vec![], runtime: None };
    assert!(matches!(setup_hyprland_env(&nothing), HyprChoice::Nothing));

    let place = |d: &str, s: Option<&str>| Some((d.to_string(), s.map(str::to_string)));
    assert_eq!(
        setup_cosmic_env(false, place("/a", None), place("/b", Some("w")), None),
        Some(("/b".to_string(), "w".to_string()))
    );
    assert_eq!(setup_cosmic_env(true, place("/a", Some("x")), None, None), None);
}

#[test]
fn hyprland_tells_window_and_workspace() {
    let reply = |s: &str| Some(s.as_bytes().to_vec());
    assert_eq!(
        get_hyprland_info(reply(r#"{"title": " Term "}"#), reply(r#"{"name": "web", "id": 3}"#)),
        ("Term".to_string(), "web".to_string(), true)
    );
    assert_eq!(
        get_hyprland_info(reply(r#"{"title": " ", "class": "kitty"}"#), reply(r#"{"id": 3}"#)),
        ("kitty".to_string(), "3".to_string(), true)
    );
    assert_eq!(
        get_hyprland_info(reply("{}"), None),
        ("Desktop".to_string(), String::new(), false)
    );
    assert_eq!(get_hyprland_info(reply("no"), None), (String::new(), String::new(), false));
}

#[test]
fn cosmic_tells_window_and_workspace() {
    let workspace = |state: &str, name: &str, id: Option<&str>| CosmicWorkspace {
        state: state.to_string(),
        name: name.to_string(),
        id: id.map(str::to_string),
        handle: "handle".to_string(),
    };
    let window = |state: &str, title: &str, at: usize| CosmicToplevel {
        state: state.to_string(),
        title: title.to_string(),
        app_id: "app".to_string(),
        workspaces: vec![at],
    };
    let spaces = vec![workspace("", "one", None), workspace("Active", "", Some("two"))];
    let windows = vec![window("", "left", 0), window("Activated", "", 1)];
    assert_eq!(cosmic_info(&spaces, &windows), ("app".to_string(), "two".to_string()));
    assert_eq!(cosmic_info(&vec![], &vec![]), ("Desktop".to_string(), String::new()));
}

#[test]
fn the_watch_on_the_desktop_goes_from_one_to_the_other() {
    let mut watch = DesktopWatch::new(false);
    assert!(matches!(watch.begin(), DesktopStep::AskHyprland));
    assert!(matches!(
        watch.hyprland_answered("w".to_string(), "s".to_string(), true),
        DesktopStep::Publish(_, _)
    ));
    assert!(matches!(
        watch.hyprland_answered(String::new(), String::new(), false),
        DesktopStep::FollowCosmic
    ));
    assert!(watch.cosmic_failed("e".to_string()));
    assert!(!watch.cosmic_failed("e".to_string()));
    assert!(watch.cosmic_failed("f".to_string()));
    assert!(matches!(DesktopWatch::new(true).begin(), DesktopStep::FollowCosmic));
}
