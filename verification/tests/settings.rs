use p2p_signaling::candidates::CandidateKind;
use p2p_signaling::labels::{
    direction_label, display_file_name, format_bytes, format_connect_info, name_or_path,
    role_label, transfer_status_label,
};
use p2p_signaling::settings::{
    config_dir, config_path, data_dir, env_path, initial_server, require_value, ClientConfig,
    DirEnv, DirPlatform, EnvSettings, Invocation, RoleChoice, DEFAULT_SERVER,
};
use p2p_signaling::signaling::SignalingRole;
use p2p_signaling::text::comes_before;
use p2p_signaling::text_map::{TextMap, TextSet};
use p2p_signaling::transfer::{TransferDirection, TransferStatus};

fn no_env() -> EnvSettings {
    EnvSettings { server: None, room: None, role: None, test_message: None }
}

fn run(args: &[&str], env: EnvSettings) -> Result<Invocation, String> {
    ClientConfig::from_args(args.iter().map(|arg| arg.to_string()).collect(), env)
}

fn config(args: &[&str], env: EnvSettings) -> ClientConfig {
    match run(args, env) {
        Ok(Invocation::Run(config)) => config,
        other => panic!("{other:?}"),
    }
}

#[test]
fn the_command_line_is_read() {
    let usual = config(&[], no_env());
    assert_eq!(usual.server, DEFAULT_SERVER);
    assert_eq!(usual.role, RoleChoice::Host);
    assert!(!usual.server_explicit);
    assert_eq!(usual.room, "");
    let given = config(
        &["-s", "a.b", "--room", "12-345", "--role", "guest", "--test-message", "hi"],
        no_env(),
    );
    assert_eq!(given.server, "a.b");
    assert!(given.server_explicit);
    assert_eq!(given.room, "1234");
    assert_eq!(given.role, RoleChoice::Guest);
    assert_eq!(given.test_message.as_deref(), Some("hi"));
    let bare = config(&["c.d"], no_env());
    assert_eq!(bare.server, "c.d");
    assert!(bare.server_explicit);
}

#[test]
fn the_environment_is_overruled() {
    let env = || EnvSettings {
        server: Some("env".into()),
        room: Some("9999".into()),
        role: Some("guest".into()),
        test_message: Some("m".into()),
    };
    let config = config(&["--role", "host"], env());
    assert_eq!(config.server, "env");
    assert!(config.server_explicit);
    assert_eq!(config.room, "9999");
    assert_eq!(config.role, RoleChoice::Host);
    assert_eq!(config.test_message.as_deref(), Some("m"));
}

#[test]
fn wrong_command_lines_are_refused() {
    assert_eq!(run(&["--server"], no_env()).unwrap_err(), "--server requires a value");
    assert_eq!(run(&["-r", " "], no_env()).unwrap_err(), "-r requires a value");
    assert_eq!(run(&["-x"], no_env()).unwrap_err(), "unknown argument: -x");
    assert_eq!(
        run(&["--role", "judge"], no_env()).unwrap_err(),
        "--role must be either host or guest"
    );
    assert!(matches!(run(&["-h", "-x"], no_env()), Ok(Invocation::Help)));
    assert_eq!(require_value("-s", Some("v".into())), Ok("v".to_string()));
    assert!(RoleChoice::parse("").is_err());
}

#[test]
fn the_saved_server_counts_unless_one_is_asked_for() {
    assert_eq!(initial_server(true, "a".into(), Some("b".into())), "a");
    assert_eq!(initial_server(false, "a".into(), Some("b".into())), "b");
    assert_eq!(initial_server(false, "a".into(), Some("  ".into())), "a");
    assert_eq!(initial_server(false, "a".into(), None), "a");
}

#[test]
fn directories_follow_the_platform() {
    let env = DirEnv {
        local_app_data: Some("C:/local".into()),
        app_data: Some("C:/roaming".into()),
        home: Some("/home/u".into()),
        xdg_data_home: None,
        xdg_config_home: Some(String::new()),
    };
    assert_eq!(data_dir(DirPlatform::Windows, &env).as_deref(), Some("C:/local"));
    assert_eq!(config_dir(DirPlatform::Windows, &env).as_deref(), Some("C:/roaming"));
    assert_eq!(
        data_dir(DirPlatform::Macos, &env).as_deref(),
        Some("/home/u/Library/Application Support")
    );
    assert_eq!(data_dir(DirPlatform::Unix, &env).as_deref(), Some("/home/u/.local/share"));
    assert_eq!(config_dir(DirPlatform::Unix, &env).as_deref(), Some("/home/u/.config"));
    assert_eq!(data_dir(DirPlatform::Other, &env), None);
    assert_eq!(
        config_path(config_dir(DirPlatform::Unix, &env)).as_deref(),
        Some("/home/u/.config/p2p-signaling/gui.json")
    );
    assert_eq!(
        config_path(Some("/home/u/.config/".into())).as_deref(),
        Some("/home/u/.config/p2p-signaling/gui.json")
    );
    assert_eq!(config_path(None), None);
    assert_eq!(env_path(&Some(String::new())), None);
}

fn by_floats(bytes: u64) -> String {
    let units = ["B", "KiB", "MiB", "GiB"];
    let mut value = bytes as f64;
    let mut unit = 0;
    while value >= 1024.0 && unit + 1 < units.len() {
        value /= 1024.0;
        unit += 1;
    }
    if unit == 0 {
        format!("{bytes} {}", units[unit])
    } else {
        format!("{value:.1} {}", units[unit])
    }
}

#[test]
fn sizes_are_written_as_floats_are() {
    assert_eq!(format_bytes(0), "0 B");
    assert_eq!(format_bytes(1023), "1023 B");
    assert_eq!(format_bytes(1536), "1.5 KiB");
    assert_eq!(format_bytes(70_000), "68.4 KiB");
    for bytes in [
        1,
        1024,
        1075,
        1076,
        1_048_575,
        1_048_576,
        1_073_741_823,
        1_073_741_824,
        5_368_709_120,
        u64::MAX,
        u64::MAX - 1024,
        u64::MAX - 1025,
        9_007_199_254_740_993,
        9_007_199_254_740_995,
    ] {
        assert_eq!(format_bytes(bytes), by_floats(bytes));
    }
    let mut seed: u64 = 99;
    for i in 0..20_000_u32 {
        seed = seed.wrapping_mul(6364136223846793005).wrapping_add(1442695040888963407);
        let bytes = seed >> (i % 64);
        assert_eq!(format_bytes(bytes), by_floats(bytes));
    }
    for k in 0..2000_u64 {
        let bytes = 1024 * k + 51 * k + 52;
        assert_eq!(format_bytes(bytes), by_floats(bytes));
        let half = 1024 + 1024 * k / 20;
        assert_eq!(format_bytes(half), by_floats(half));
    }
}

#[test]
fn files_and_peers_have_their_words() {
    assert_eq!(display_file_name("/tmp/a.txt"), "a.txt");
    assert_eq!(display_file_name("/"), "/");
    assert_eq!(name_or_path("/x", Some(String::new())), "/x");
    assert_eq!(transfer_status_label(&TransferStatus::Accepted), "传输中");
    assert_eq!(direction_label(TransferDirection::Receive), "接收");
    assert_eq!(role_label(&SignalingRole::Guest), "guest");
    assert_eq!(
        format_connect_info("本端候选", SignalingRole::Host, &vec![]),
        "本端候选 [host]：无"
    );
    assert_eq!(
        format_connect_info(
            "L",
            SignalingRole::Guest,
            &vec![
                ("1.2.3.4:5".into(), CandidateKind::Local),
                ("6.7.8.9:1".into(), CandidateKind::ServerReflexive),
            ]
        ),
        "L [guest]：1.2.3.4:5 (local), 6.7.8.9:1 (server-reflexive)"
    );
}

#[test]
fn texts_are_ordered_and_mapped() {
    assert!(comes_before("a", "b"));
    assert!(comes_before("", "a"));
    assert!(comes_before("a", "aa"));
    assert!(!comes_before("a", "a"));
    assert!(!comes_before("中", "a"));
    let mut map: TextMap<String> = TextMap::new();
    map.insert("k".into(), "1".into());
    map.insert("k".into(), "2".into());
    map.insert("l".into(), "3".into());
    assert_eq!(map.get("k").map(|v| v.as_str()), Some("2"));
    assert_eq!(map.remove("k").as_deref(), Some("2"));
    assert!(!map.contains_key("k"));
    assert!(map.contains_key("l"));
    let mut set = TextSet::new();
    set.insert("a".into());
    set.insert("a".into());
    set.remove("a");
    assert!(!set.contains("a"));
}
