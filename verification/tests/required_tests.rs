use ghostbrew::cgroup::classify_cgroup_path;
use ghostbrew::cgroup::scan_cgroups;
use ghostbrew::container::scan_containers;
use ghostbrew::container::scan_ollama;
use ghostbrew::control::parse_command;
use ghostbrew::control::ControlCommand;
use ghostbrew::events::SchedEvent;
use ghostbrew::events::EVENT_GAMING_DETECTED;
use ghostbrew::events::EVENT_HIGH_LATENCY;
use ghostbrew::gpu::is_gpu_thread_name;
use ghostbrew::intel::is_intel_hybrid_model;
use ghostbrew::intel::PCORE_CAPACITY_THRESHOLD;
use ghostbrew::pbo::detect_prefcore;
use ghostbrew::pbo::detect_pstate_mode;
use ghostbrew::pbo::PstateMode;
use ghostbrew::profile_text::parse_profile;
use ghostbrew::profiles::SmtPreference;
use ghostbrew::profiles::VCachePreference;
use ghostbrew::topology::cpu_in_list;
use ghostbrew::topology::is_x3d_processor;
use ghostbrew::vcache::SwitchingStrategy;
use ghostbrew::vcache::VCacheMode;
use ghostbrew::vm::detect_iommu_groups;
use ghostbrew::vm::scan_vms;
use ghostbrew::workload::WORKLOAD_BATCH;
use ghostbrew::workload::WORKLOAD_CONTAINER;
use ghostbrew::workload::WORKLOAD_GAMING;

#[test]
fn test_classify_cgroup_path() {
    assert_eq!(
        classify_cgroup_path("user.slice/gaming.slice/steam"),
        WORKLOAD_GAMING
    );
    assert_eq!(classify_cgroup_path("docker/abc123"), WORKLOAD_CONTAINER);
    assert_eq!(
        classify_cgroup_path("system.slice/sshd.service"),
        WORKLOAD_BATCH
    );
    assert_eq!(classify_cgroup_path("user.slice/user-1000.slice"), 0);
}

#[test]
fn test_scan_cgroups() {
    let result = scan_cgroups(Vec::new());
    assert!(result.is_empty());
}

#[test]
fn test_scan_containers() {
    let result = scan_containers(Vec::new());
    assert!(result.is_empty());
}

#[test]
fn test_parse_command() {
    assert!(matches!(
        parse_command("burst_threshold_ns=1500000"),
        Some(ControlCommand::SetBurstThreshold(1500000))
    ));

    assert!(matches!(
        parse_command("gaming_mode=true"),
        Some(ControlCommand::GamingMode(true))
    ));

    assert!(matches!(
        parse_command("work_mode=false"),
        Some(ControlCommand::WorkMode(false))
    ));

    assert!(parse_command("# comment").is_none());
    assert!(parse_command("invalid").is_none());
}

#[test]
fn test_event_names() {
    let event = SchedEvent {
        timestamp_ns: 0,
        event_type: EVENT_GAMING_DETECTED,
        pid: 1234,
        cpu: 0,
        ccd: 0,
        value1: 2,
        value2: 1,
        comm: *b"game.exe\0\0\0\0\0\0\0\0",
    };

    assert_eq!(event.event_name(), "GamingDetected");
    assert_eq!(event.comm_str(), "game.exe");
}

#[test]
fn test_event_format() {
    let event = SchedEvent {
        timestamp_ns: 0,
        event_type: EVENT_HIGH_LATENCY,
        pid: 5678,
        cpu: 4,
        ccd: 0,
        value1: 2500,
        value2: 1000,
        comm: [0; 16],
    };

    let formatted = event.format();
    assert!(formatted.contains("2500us"));
    assert!(formatted.contains("1000us"));
}

#[test]
fn test_scan_gaming_pids() {
    let result = ghostbrew::gaming::scan_gaming_pids(&Vec::new());
    assert!(result.is_empty());
}

#[test]
fn test_is_gpu_thread_name() {
    assert!(is_gpu_thread_name("VkThread-0"));
    assert!(is_gpu_thread_name("dxvk-submit"));
    assert!(is_gpu_thread_name("nvidia-modeset"));
    assert!(!is_gpu_thread_name("bash"));
}

#[test]
fn test_intel_hybrid_detection() {
    assert_eq!(is_intel_hybrid_model("Intel Core i9-14900K"), Some(14));
    assert_eq!(is_intel_hybrid_model("Intel Core i7-14700K"), Some(14));

    assert_eq!(is_intel_hybrid_model("Intel Core i9-13900K"), Some(13));
    assert_eq!(is_intel_hybrid_model("Intel Core i5-13600K"), Some(13));

    assert_eq!(is_intel_hybrid_model("Intel Core i9-12900K"), Some(12));

    assert_eq!(is_intel_hybrid_model("Intel Core i7-10700K"), None);
    assert_eq!(is_intel_hybrid_model("Intel Core i5-10400"), None);

    assert_eq!(is_intel_hybrid_model("AMD Ryzen 9 7950X3D"), None);
    assert_eq!(is_intel_hybrid_model("AMD Ryzen 7 7800X3D"), None);
}

#[test]
fn test_pcore_threshold() {
    assert!(1024 >= PCORE_CAPACITY_THRESHOLD);
    assert!(768 < PCORE_CAPACITY_THRESHOLD);
}

#[test]
fn test_detect_pstate_mode() {
    let _mode = detect_pstate_mode(None);
    assert_eq!(detect_pstate_mode(Some("active\n")), PstateMode::Active);
    assert_eq!(detect_pstate_mode(Some("passive\n")), PstateMode::Passive);
    assert_eq!(detect_pstate_mode(Some("guided")), PstateMode::Guided);
    assert_eq!(detect_pstate_mode(None), PstateMode::Unknown);
}

#[test]
fn test_detect_prefcore() {
    let result = detect_prefcore(32, None, &Vec::new());
    assert!(!result.enabled);
}

#[test]
fn test_profile_parse() {
    let toml_str = r#"
name = "Test Game"
exe_name = "testgame.exe"
steam_appid = 12345
vcache_preference = "cache"
smt_preference = "prefer_idle"

[tunables]
burst_threshold_ns = 1000000
"#;
    let profile = parse_profile(toml_str).unwrap();
    assert_eq!(profile.name, "Test Game");
    assert_eq!(profile.exe_name, Some("testgame.exe".to_string()));
    assert_eq!(profile.steam_appid, Some(12345));
    assert_eq!(profile.tunables.burst_threshold_ns, Some(1000000));
    assert_eq!(profile.vcache_preference, VCachePreference::Cache);
    assert_eq!(profile.smt_preference, SmtPreference::PreferIdle);
}

#[test]
fn test_is_x3d() {
    assert!(is_x3d_processor("AMD Ryzen 9 7950X3D"));
    assert!(is_x3d_processor("AMD Ryzen 7 7800X3D"));
    assert!(is_x3d_processor("AMD Ryzen 9 9950X3D"));
    assert!(!is_x3d_processor("AMD Ryzen 9 7950X"));
    assert!(!is_x3d_processor("Intel Core i9-14900K"));
}

#[test]
fn test_cpu_in_list() {
    assert!(cpu_in_list(5, "0-7"));
    assert!(cpu_in_list(0, "0-7"));
    assert!(cpu_in_list(7, "0-7"));
    assert!(!cpu_in_list(8, "0-7"));
    assert!(cpu_in_list(16, "0-7,16-23"));
    assert!(cpu_in_list(5, "5"));
}

#[test]
fn test_vcache_mode_parse() {
    assert_eq!(VCacheMode::from_str("cache"), VCacheMode::Cache);
    assert_eq!(VCacheMode::from_str("Cache"), VCacheMode::Cache);
    assert_eq!(VCacheMode::from_str("frequency"), VCacheMode::Frequency);
    assert_eq!(VCacheMode::from_str("freq"), VCacheMode::Frequency);
    assert_eq!(VCacheMode::from_str("unknown"), VCacheMode::Unknown);
    assert_eq!(VCacheMode::from_str("  cache\n"), VCacheMode::Cache);
}

#[test]
fn test_vcache_mode_to_gaming() {
    assert!(VCacheMode::Cache.to_gaming_mode());
    assert!(!VCacheMode::Frequency.to_gaming_mode());
    assert!(VCacheMode::Unknown.to_gaming_mode());
}

#[test]
fn test_switching_strategy_default() {
    let strategy = SwitchingStrategy::default();
    assert_eq!(strategy, SwitchingStrategy::FollowExternal);
}

#[test]
fn test_detect_iommu_groups() {
    let groups = detect_iommu_groups(Vec::new());
    assert!(groups.is_empty());
}

#[test]
fn test_scan_vms() {
    let result = scan_vms(&Vec::new());
    assert!(result.is_empty());
}

#[test]
fn test_scan_ollama() {
    let pids = scan_ollama(&Vec::new());
    assert!(pids.is_empty());
}
